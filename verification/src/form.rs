//! The connection form: field definitions, validation, and the
//! configuration the entered values make.
use vstd::prelude::*;
use crate::models::{
    DatabaseType, DbConnectionConfig, lookup, opt_view, selected_for,
    ConnectionType, StoredConnection, Workspace,
};
use crate::text::{
    str_eq, str_to_owned, to_lowercase, unicode_lowercase, push_str, trim, trim_string, is_blank,
    parse_u64, parse_u64_spec, u64_to_decimal, decimal, starts_with, chars_of, slice_starts_with, string_from_range,
};

verus! {

/// Kinds of form inputs.
#[derive(Debug, Clone, Copy, PartialEq, Eq, Structural)]
pub enum FormFieldType {
    Text,
    Number,
    Password,
    TextArea,
    Select,
}

/// One field of the connection form.
#[derive(Debug)]
pub struct FormField {
    pub name: String,
    pub label: String,
    pub placeholder: String,
    pub field_type: FormFieldType,
    pub rows: usize,
    pub required: bool,
    pub default_value: String,
    pub options: Vec<(String, String)>,
}

impl FormField {
    /// A required field with five rows, no default and a placeholder
    /// `Enter <name in lower case>`.
    pub fn new(name: String, label: String, field_type: FormFieldType) -> (r: FormField)
        ensures
            r.name == name,
            r.label == label,
            r.field_type == field_type,
            r.placeholder@ == "Enter "@ + unicode_lowercase(name@),
            r.rows == 5,
            r.required,
            r.default_value@.len() == 0,
            r.options@.len() == 0,
    {
        let mut placeholder = str_to_owned("Enter ");
        let lower = to_lowercase(name.as_str());
        push_str(&mut placeholder, lower.as_str());
        FormField {
            placeholder,
            name,
            label,
            field_type,
            rows: 5,
            required: true,
            default_value: String::new(),
            options: Vec::new(),
        }
    }

    pub fn optional(self) -> (r: FormField)
        ensures
            r == (FormField { required: false, ..self }),
    {
        let mut s = self;
        s.required = false;
        s
    }

    pub fn placeholder(self, placeholder: String) -> (r: FormField)
        ensures
            r == (FormField { placeholder, ..self }),
    {
        let mut s = self;
        s.placeholder = placeholder;
        s
    }

    pub fn default(self, value: String) -> (r: FormField)
        ensures
            r == (FormField { default_value: value, ..self }),
    {
        let mut s = self;
        s.default_value = value;
        s
    }

    pub fn options(self, options: Vec<(String, String)>) -> (r: FormField)
        ensures
            r == (FormField { options, ..self }),
    {
        let mut s = self;
        s.options = options;
        s
    }

    pub fn rows(self, rows: usize) -> (r: FormField)
        ensures
            r == (FormField { rows, ..self }),
    {
        let mut s = self;
        s.rows = rows;
        s
    }
}

/// A choice of a select field.
#[derive(Debug)]
pub struct FormSelectItem {
    pub value: String,
    pub label: String,
}

impl FormSelectItem {
    pub fn new(value: String, label: String) -> (r: FormSelectItem)
        ensures
            r.value == value,
            r.label == label,
    {
        FormSelectItem { value, label }
    }
}

/// A choice of the workspace select: a workspace, or none.
#[derive(Debug)]
pub struct WorkspaceSelectItem {
    pub id: Option<i64>,
    pub name: String,
}

impl WorkspaceSelectItem {
    /// The choice of no workspace, labelled by its message key.
    pub fn none() -> (r: WorkspaceSelectItem)
        ensures
            r.id is None,
            r.name@ == "Common.none"@,
    {
        WorkspaceSelectItem { id: None, name: str_to_owned("Common.none") }
    }

    pub fn from_workspace(ws: &Workspace) -> (r: WorkspaceSelectItem)
        ensures
            r.id == ws.id,
            r.name@ == ws.name@,
    {
        WorkspaceSelectItem { id: ws.id, name: ws.name.clone() }
    }
}

/// A choice of the team select: a team, or the personal space.
#[derive(Debug)]
pub struct TeamSelectItem {
    pub id: Option<String>,
    pub name: String,
}

impl TeamSelectItem {
    pub fn personal() -> (r: TeamSelectItem)
        ensures
            r.id is None,
            r.name@ == "Personal"@,
    {
        TeamSelectItem { id: None, name: str_to_owned("Personal") }
    }
}

/// A tab of the connection form.
#[derive(Debug)]
pub struct TabGroup {
    pub name: String,
    pub label: String,
    pub fields: Vec<FormField>,
}

impl TabGroup {
    pub fn new(name: String, label: String) -> (r: TabGroup)
        ensures
            r.name == name,
            r.label == label,
            r.fields@.len() == 0,
    {
        TabGroup { name, label, fields: Vec::new() }
    }

    /// Adds a field after the others.
    pub fn field(self, field: FormField) -> (r: TabGroup)
        ensures
            r.fields@ == self.fields@.push(field),
            r.name == self.name,
            r.label == self.label,
    {
        let mut s = self;
        s.fields.push(field);
        s
    }

    pub fn fields(self, fields: Vec<FormField>) -> (r: TabGroup)
        ensures
            r == (TabGroup { fields, ..self }),
    {
        let mut s = self;
        s.fields = fields;
        s
    }
}

/// The form of one database type.
#[derive(Debug)]
pub struct DbFormConfig {
    pub db_type: DatabaseType,
    pub title: String,
    pub tab_groups: Vec<TabGroup>,
}

/// The placeholder a field shows unless it is given one.
pub open spec fn default_placeholder(name: Seq<char>) -> Seq<char> {
    "Enter "@ + unicode_lowercase(name)
}

/// `f` is the field so described; `options` lists its choices as
/// (value, label) pairs.
pub open spec fn field_is(
    f: FormField,
    name: Seq<char>,
    label: Seq<char>,
    field_type: FormFieldType,
    required: bool,
    placeholder: Seq<char>,
    default_value: Seq<char>,
    rows: usize,
    options: Seq<(Seq<char>, Seq<char>)>,
) -> bool {
    &&& f.name@ == name
    &&& f.label@ == label
    &&& f.field_type == field_type
    &&& f.required == required
    &&& f.placeholder@ == placeholder
    &&& f.default_value@ == default_value
    &&& f.rows == rows
    &&& f.options@.len() == options.len()
    &&& forall|i: int|
        0 <= i < options.len() ==> (#[trigger] f.options@[i]).0@ == options[i].0 && f.options@[i].1@
            == options[i].1
}

/// The SSH tab shared by the forms. Labels are message keys, which the
/// user interface translates.
pub open spec fn ssh_tab_is(t: TabGroup) -> bool {
    let f = t.fields@;
    let e: Seq<(Seq<char>, Seq<char>)> = Seq::empty();
    &&& t.name@ == "ssh"@
    &&& t.label@ == "ConnectionForm.ssh"@
    &&& f.len() == 10
    &&& field_is(f[0], "ssh_tunnel_enabled"@, "ConnectionForm.ssh_tunnel_enabled"@, FormFieldType::Select, false,
        default_placeholder("ssh_tunnel_enabled"@), "false"@, 5,
        seq![("false"@, "Common.no"@), ("true"@, "Common.yes"@)])
    &&& field_is(f[1], "ssh_host"@, "ConnectionForm.ssh_host"@, FormFieldType::Text, false,
        "jump.example.com"@, ""@, 5, e)
    &&& field_is(f[2], "ssh_port"@, "ConnectionForm.ssh_port"@, FormFieldType::Number, false, "22"@,
        "22"@, 5, e)
    &&& field_is(f[3], "ssh_username"@, "ConnectionForm.ssh_username"@, FormFieldType::Text, false,
        "root"@, ""@, 5, e)
    &&& field_is(f[4], "ssh_auth_type"@, "ConnectionForm.ssh_auth_type"@, FormFieldType::Select, false,
        default_placeholder("ssh_auth_type"@), "password"@, 5,
        seq![("password"@, "ConnectionForm.ssh_auth_password"@), ("private_key"@, "ConnectionForm.ssh_auth_private_key"@)])
    &&& field_is(f[5], "ssh_password"@, "ConnectionForm.ssh_password"@, FormFieldType::Password, false,
        "Enter SSH password"@, ""@, 5, e)
    &&& field_is(f[6], "ssh_private_key_path"@, "ConnectionForm.ssh_private_key_path"@, FormFieldType::Text,
        false, "~/.ssh/id_rsa"@, ""@, 5, e)
    &&& field_is(f[7], "ssh_private_key_passphrase"@, "ConnectionForm.ssh_private_key_passphrase"@,
        FormFieldType::Password, false, "Enter key passphrase"@, ""@, 5, e)
    &&& field_is(f[8], "ssh_target_host"@, "ConnectionForm.ssh_target_host"@, FormFieldType::Text, false,
        "127.0.0.1"@, ""@, 5, e)
    &&& field_is(f[9], "ssh_target_port"@, "ConnectionForm.ssh_target_port"@, FormFieldType::Number, false,
        "3306"@, ""@, 5, e)
}

/// The general tab of the PostgreSQL form.
pub open spec fn postgres_general_tab_is(t: TabGroup) -> bool {
    let f = t.fields@;
    let e: Seq<(Seq<char>, Seq<char>)> = Seq::empty();
    &&& t.name@ == "general"@
    &&& t.label@ == "ConnectionForm.general"@
    &&& f.len() == 10
    &&& field_is(f[0], "name"@, "ConnectionForm.connection_name"@, FormFieldType::Text, true,
        "My PostgreSQL Database"@, "Local PostgreSQL"@, 5, e)
    &&& field_is(f[1], "host"@, "ConnectionForm.host"@, FormFieldType::Text, true, "localhost"@,
        "localhost"@, 5, e)
    &&& field_is(f[2], "port"@, "ConnectionForm.port"@, FormFieldType::Number, true, "5432"@, "5432"@, 5, e)
    &&& field_is(f[3], "username"@, "ConnectionForm.username"@, FormFieldType::Text, true, "postgres"@,
        "postgres"@, 5, e)
    &&& field_is(f[4], "password"@, "ConnectionForm.password"@, FormFieldType::Password, true,
        "Enter password"@, ""@, 5, e)
    &&& field_is(f[5], "database"@, "ConnectionForm.database"@, FormFieldType::Text, false,
        "database name (optional)"@, ""@, 5, e)
    &&& field_is(f[6], "connect_timeout"@, "ConnectionForm.connect_timeout"@, FormFieldType::Number, false,
        "30"@, "30"@, 5, e)
    &&& field_is(f[7], "application_name"@, "ConnectionForm.application_name"@, FormFieldType::Text, false,
        "Application Name"@, ""@, 5, e)
    &&& field_is(f[8], "sslmode"@, "ConnectionForm.sslmode"@, FormFieldType::Select, false,
        default_placeholder("sslmode"@), "disable"@, 5,
        seq![("disable"@, "ConnectionForm.sslmode_disable"@), ("require"@, "ConnectionForm.sslmode_require"@),
            ("verify-ca"@, "ConnectionForm.sslmode_verify_ca"@), ("verify-full"@, "ConnectionForm.sslmode_verify_full"@)])
    &&& field_is(f[9], "remark"@, "ConnectionForm.remark"@, FormFieldType::TextArea, false,
        "ConnectionForm.enter_remark"@, ""@, 3, e)
}

fn choice(value: &str, label: &str) -> (r: (String, String))
    ensures
        r.0@ == value@,
        r.1@ == label@,
{
    (str_to_owned(value), str_to_owned(label))
}

/// An optional field with the given placeholder.
fn optional_field(name: &str, label: &str, field_type: FormFieldType, placeholder: &str) -> (r: FormField)
    ensures
        field_is(r, name@, label@, field_type, false, placeholder@, ""@, 5, Seq::empty()),
{
    let r = FormField::new(str_to_owned(name), str_to_owned(label), field_type).optional().placeholder(
        str_to_owned(placeholder),
    );
    proof {
        reveal_strlit("");
        assert(r.default_value@ =~= ""@);
    }
    r
}

impl DbFormConfig {
    /// The SSH tunnel tab.
    pub fn ssh_tab_group() -> (r: TabGroup)
        ensures
            ssh_tab_is(r),
    {
        let mut fields: Vec<FormField> = Vec::new();
        let mut yes_no: Vec<(String, String)> = Vec::new();
        yes_no.push(choice("false", "Common.no"));
        yes_no.push(choice("true", "Common.yes"));
        fields.push(
            FormField::new(
                str_to_owned("ssh_tunnel_enabled"),
                str_to_owned("ConnectionForm.ssh_tunnel_enabled"),
                FormFieldType::Select,
            ).optional().default(str_to_owned("false")).options(yes_no),
        );
        fields.push(optional_field("ssh_host", "ConnectionForm.ssh_host", FormFieldType::Text, "jump.example.com"));
        fields.push(
            optional_field("ssh_port", "ConnectionForm.ssh_port", FormFieldType::Number, "22").default(
                str_to_owned("22"),
            ),
        );
        fields.push(optional_field("ssh_username", "ConnectionForm.ssh_username", FormFieldType::Text, "root"));
        let mut auth: Vec<(String, String)> = Vec::new();
        auth.push(choice("password", "ConnectionForm.ssh_auth_password"));
        auth.push(choice("private_key", "ConnectionForm.ssh_auth_private_key"));
        fields.push(
            FormField::new(
                str_to_owned("ssh_auth_type"),
                str_to_owned("ConnectionForm.ssh_auth_type"),
                FormFieldType::Select,
            ).optional().default(str_to_owned("password")).options(auth),
        );
        fields.push(
            optional_field("ssh_password", "ConnectionForm.ssh_password", FormFieldType::Password, "Enter SSH password"),
        );
        fields.push(
            optional_field(
                "ssh_private_key_path",
                "ConnectionForm.ssh_private_key_path",
                FormFieldType::Text,
                "~/.ssh/id_rsa",
            ),
        );
        fields.push(
            optional_field(
                "ssh_private_key_passphrase",
                "ConnectionForm.ssh_private_key_passphrase",
                FormFieldType::Password,
                "Enter key passphrase",
            ),
        );
        fields.push(
            optional_field("ssh_target_host", "ConnectionForm.ssh_target_host", FormFieldType::Text, "127.0.0.1"),
        );
        fields.push(
            optional_field("ssh_target_port", "ConnectionForm.ssh_target_port", FormFieldType::Number, "3306"),
        );
        TabGroup::new(str_to_owned("ssh"), str_to_owned("ConnectionForm.ssh")).fields(fields)
    }

    /// The PostgreSQL connection form: the general tab and the SSH tab,
    /// under the title `<new_label> (PostgreSQL)`.
    pub fn postgres(new_label: &str) -> (r: DbFormConfig)
        ensures
            r.db_type == DatabaseType::PostgreSQL,
            r.title@ == new_label@ + " (PostgreSQL)"@,
            r.tab_groups@.len() == 2,
            postgres_general_tab_is(r.tab_groups@[0]),
            ssh_tab_is(r.tab_groups@[1]),
    {
        let mut fields: Vec<FormField> = Vec::new();
        fields.push(
            FormField::new(str_to_owned("name"), str_to_owned("ConnectionForm.connection_name"), FormFieldType::Text)
                .placeholder(str_to_owned("My PostgreSQL Database")).default(str_to_owned("Local PostgreSQL")),
        );
        fields.push(
            FormField::new(str_to_owned("host"), str_to_owned("ConnectionForm.host"), FormFieldType::Text)
                .placeholder(str_to_owned("localhost")).default(str_to_owned("localhost")),
        );
        fields.push(
            FormField::new(str_to_owned("port"), str_to_owned("ConnectionForm.port"), FormFieldType::Number)
                .placeholder(str_to_owned("5432")).default(str_to_owned("5432")),
        );
        fields.push(
            FormField::new(str_to_owned("username"), str_to_owned("ConnectionForm.username"), FormFieldType::Text)
                .placeholder(str_to_owned("postgres")).default(str_to_owned("postgres")),
        );
        let password = FormField::new(
            str_to_owned("password"),
            str_to_owned("ConnectionForm.password"),
            FormFieldType::Password,
        ).placeholder(str_to_owned("Enter password"));
        proof {
            reveal_strlit("");
            assert(password.default_value@ =~= ""@);
        }
        fields.push(password);
        fields.push(
            optional_field("database", "ConnectionForm.database", FormFieldType::Text, "database name (optional)"),
        );
        fields.push(
            optional_field("connect_timeout", "ConnectionForm.connect_timeout", FormFieldType::Number, "30").default(
                str_to_owned("30"),
            ),
        );
        fields.push(
            optional_field(
                "application_name",
                "ConnectionForm.application_name",
                FormFieldType::Text,
                "Application Name",
            ),
        );
        let mut modes: Vec<(String, String)> = Vec::new();
        modes.push(choice("disable", "ConnectionForm.sslmode_disable"));
        modes.push(choice("require", "ConnectionForm.sslmode_require"));
        modes.push(choice("verify-ca", "ConnectionForm.sslmode_verify_ca"));
        modes.push(choice("verify-full", "ConnectionForm.sslmode_verify_full"));
        fields.push(
            FormField::new(str_to_owned("sslmode"), str_to_owned("ConnectionForm.sslmode"), FormFieldType::Select)
                .optional().default(str_to_owned("disable")).options(modes),
        );
        fields.push(
            optional_field("remark", "ConnectionForm.remark", FormFieldType::TextArea, "ConnectionForm.enter_remark")
                .rows(3).default(str_to_owned("")),
        );
        let general = TabGroup::new(str_to_owned("general"), str_to_owned("ConnectionForm.general")).fields(fields);
        let mut tabs: Vec<TabGroup> = Vec::new();
        tabs.push(general);
        tabs.push(Self::ssh_tab_group());
        let mut title = str_to_owned(new_label);
        push_str(&mut title, " (PostgreSQL)");
        DbFormConfig { db_type: DatabaseType::PostgreSQL, title, tab_groups: tabs }
    }
}

// ---------------------------------------------------------------------------
// Entered values
// ---------------------------------------------------------------------------

/// Why the entered values cannot be used.
#[derive(Debug, PartialEq, Eq)]
pub enum FormError {
    /// A required field (named by its label) has no value.
    Required(String),
    /// The SSH tunnel is on but this field is blank.
    SshFieldMissing(String),
}

/// The fields that are columns of the configuration itself; all others go
/// to its extra parameters.
pub open spec fn is_basic_field(name: Seq<char>) -> bool {
    name == "name"@ || name == "host"@ || name == "port"@ || name == "username"@ || name
        == "password"@ || name == "database"@ || name == "remark"@ || name == "service_name"@
        || name == "sid"@
}

fn is_basic_field_exec(name: &str) -> (r: bool)
    ensures
        r == is_basic_field(name@),
{
    str_eq(name, "name") || str_eq(name, "host") || str_eq(name, "port") || str_eq(name, "username")
        || str_eq(name, "password") || str_eq(name, "database") || str_eq(name, "remark") || str_eq(
        name,
        "service_name",
    ) || str_eq(name, "sid")
}

/// The extra parameters the values make: the other fields with a
/// non-empty value, in form order.
pub open spec fn extra_params_of(values: Seq<(String, String)>) -> Seq<(String, String)>
    decreases values.len(),
{
    if values.len() == 0 {
        Seq::empty()
    } else {
        let rest = extra_params_of(values.drop_last());
        let p = values.last();
        if !is_basic_field(p.0@) && p.1@.len() > 0 {
            rest.push(p)
        } else {
            rest
        }
    }
}

/// The port entered, read as `u16`; 3306 where it is missing or does not parse.
pub open spec fn port_of(values: Seq<(String, String)>) -> u16 {
    match lookup(values, "port"@) {
        Some(p) => match parse_u64_spec(p) {
            Some(n) => if n <= 65535 {
                n as u16
            } else {
                3306
            },
            None => 3306,
        },
        None => 3306,
    }
}

pub open spec fn value_or_empty(values: Seq<(String, String)>, key: Seq<char>) -> Seq<char> {
    match lookup(values, key) {
        Some(v) => v,
        None => Seq::empty(),
    }
}

fn find_value(values: &Vec<(String, String)>, key: &str) -> (r: Option<String>)
    ensures
        crate::models::opt_view(r) == lookup(values@, key@),
{
    let mut i: usize = 0;
    let ghost ps = values@;
    assert(ps.subrange(0, ps.len() as int) =~= ps);
    while i < values.len()
        invariant
            i <= values.len(),
            ps == values@,
            lookup(ps, key@) == lookup(ps.subrange(i as int, ps.len() as int), key@),
        decreases values.len() - i,
    {
        let ghost rest = ps.subrange(i as int, ps.len() as int);
        assert(rest[0] == ps[i as int]);
        if str_eq(values[i].0.as_str(), key) {
            return Some(values[i].1.clone());
        }
        assert(rest.drop_first() =~= ps.subrange(i + 1, ps.len() as int));
        i += 1;
    }
    None
}

fn value_or_empty_exec(values: &Vec<(String, String)>, key: &str) -> (r: String)
    ensures
        r@ == value_or_empty(values@, key@),
{
    match find_value(values, key) {
        Some(v) => v,
        None => String::new(),
    }
}

/// The configuration the entered values make (field name, value pairs in
/// form order; a name is read at its first occurrence).
pub fn build_connection(values: &Vec<(String, String)>, db_type: DatabaseType, workspace_id: Option<i64>) -> (r: DbConnectionConfig)
    ensures
        connection_from_values(r, values@, db_type, workspace_id),
{
    let mut extra: Vec<(String, String)> = Vec::new();
    let mut i: usize = 0;
    while i < values.len()
        invariant
            i <= values.len(),
            extra@ == extra_params_of(values@.subrange(0, i as int)),
        decreases values.len() - i,
    {
        let ghost pre = values@.subrange(0, i as int);
        let ghost post = values@.subrange(0, i + 1);
        assert(post.drop_last() =~= pre);
        if !is_basic_field_exec(values[i].0.as_str()) && !values[i].1.as_str().is_empty() {
            let k = values[i].0.clone();
            let v = values[i].1.clone();
            extra.push((k, v));
        }
        i += 1;
    }
    assert(values@.subrange(0, values@.len() as int) =~= values@);
    let port: u16 = match find_value(values, "port") {
        Some(p) => match parse_u64(p.as_str()) {
            Some(n) => if n <= 65535 {
                n as u16
            } else {
                3306
            },
            None => 3306,
        },
        None => 3306,
    };
    DbConnectionConfig {
        id: String::new(),
        database_type: db_type,
        name: value_or_empty_exec(values, "name"),
        host: value_or_empty_exec(values, "host"),
        port,
        username: value_or_empty_exec(values, "username"),
        password: value_or_empty_exec(values, "password"),
        database: find_value(values, "database"),
        schema: None,
        service_name: find_value(values, "service_name"),
        sid: find_value(values, "sid"),
        workspace_id,
        extra_params: extra,
    }
}

/// The label of the first required field that has no value, in tab and
/// field order.
pub open spec fn first_missing(groups: Seq<TabGroup>, values: Seq<(String, String)>) -> Option<Seq<char>>
    decreases groups.len(),
{
    if groups.len() == 0 {
        None
    } else {
        match first_missing(groups.drop_last(), values) {
            Some(l) => Some(l),
            None => first_missing_field(groups.last().fields@, values),
        }
    }
}

pub open spec fn first_missing_field(fields: Seq<FormField>, values: Seq<(String, String)>) -> Option<Seq<char>>
    decreases fields.len(),
{
    if fields.len() == 0 {
        None
    } else {
        match first_missing_field(fields.drop_last(), values) {
            Some(l) => Some(l),
            None => {
                let f = fields.last();
                if f.required && lookup(values, f.name@) is None {
                    Some(f.label@)
                } else {
                    None
                }
            },
        }
    }
}

/// Whether the SSH tunnel is switched on (`"true"` or `"1"`).
pub open spec fn ssh_enabled(values: Seq<(String, String)>) -> bool {
    match lookup(values, "ssh_tunnel_enabled"@) {
        Some(v) => v == "true"@ || v == "1"@,
        None => false,
    }
}

/// The first blank SSH field the tunnel needs: host, user name, then the
/// key path (private key authentication) or the password (otherwise).
pub open spec fn ssh_missing(values: Seq<(String, String)>) -> Option<Seq<char>> {
    let blank = |k: Seq<char>| trim(value_or_empty(values, k)).len() == 0;
    if !ssh_enabled(values) {
        None
    } else if blank("ssh_host"@) {
        Some("ssh_host"@)
    } else if blank("ssh_username"@) {
        Some("ssh_username"@)
    } else if lookup(values, "ssh_auth_type"@) == Some("private_key"@) {
        if blank("ssh_private_key_path"@) {
            Some("ssh_private_key_path"@)
        } else {
            None
        }
    } else if blank("ssh_password"@) {
        Some("ssh_password"@)
    } else {
        None
    }
}

/// `c` is the configuration the form values make: the basic fields by
/// name (empty where absent), the port parsed, and every other non-empty
/// value as an extra parameter.
pub open spec fn connection_from_values(
    c: DbConnectionConfig,
    values: Seq<(String, String)>,
    db_type: DatabaseType,
    workspace_id: Option<i64>,
) -> bool {
    &&& c.id@.len() == 0
    &&& c.database_type == db_type
    &&& c.name@ == value_or_empty(values, "name"@)
    &&& c.host@ == value_or_empty(values, "host"@)
    &&& c.port == port_of(values)
    &&& c.username@ == value_or_empty(values, "username"@)
    &&& c.password@ == value_or_empty(values, "password"@)
    &&& opt_view(c.database) == lookup(values, "database"@)
    &&& c.schema is None
    &&& opt_view(c.service_name) == lookup(values, "service_name"@)
    &&& opt_view(c.sid) == lookup(values, "sid"@)
    &&& c.workspace_id == workspace_id
    &&& c.extra_params@ == extra_params_of(values)
}

/// The outcome of validating the values: `None` where they pass.
pub open spec fn validation_fails_with(groups: Seq<TabGroup>, values: Seq<(String, String)>, e: FormError) -> bool {
    match e {
        FormError::Required(l) => first_missing(groups, values) == Some(l@),
        FormError::SshFieldMissing(f) => first_missing(groups, values) is None && ssh_missing(values) == Some(f@),
    }
}

pub open spec fn validation_passes(groups: Seq<TabGroup>, values: Seq<(String, String)>) -> bool {
    first_missing(groups, values) is None && ssh_missing(values) is None
}

/// Checks the SSH tunnel settings.
pub fn validate_ssh_tunnel(values: &Vec<(String, String)>) -> (r: Result<(), FormError>)
    ensures
        match r {
            Ok(()) => ssh_missing(values@) is None,
            Err(FormError::SshFieldMissing(f)) => ssh_missing(values@) == Some(f@),
            Err(_) => false,
        },
{
    let enabled = match find_value(values, "ssh_tunnel_enabled") {
        Some(v) => str_eq(v.as_str(), "true") || str_eq(v.as_str(), "1"),
        None => false,
    };
    if !enabled {
        return Ok(());
    }
    let host = value_or_empty_exec(values, "ssh_host");
    if is_blank(host.as_str()) {
        return Err(FormError::SshFieldMissing(str_to_owned("ssh_host")));
    }
    let user = value_or_empty_exec(values, "ssh_username");
    if is_blank(user.as_str()) {
        return Err(FormError::SshFieldMissing(str_to_owned("ssh_username")));
    }
    let private_key = match find_value(values, "ssh_auth_type") {
        Some(a) => str_eq(a.as_str(), "private_key"),
        None => false,
    };
    if private_key {
        let key = value_or_empty_exec(values, "ssh_private_key_path");
        if is_blank(key.as_str()) {
            return Err(FormError::SshFieldMissing(str_to_owned("ssh_private_key_path")));
        }
    } else {
        let password = value_or_empty_exec(values, "ssh_password");
        if is_blank(password.as_str()) {
            return Err(FormError::SshFieldMissing(str_to_owned("ssh_password")));
        }
    }
    Ok(())
}

/// Checks that every required field has a value, then the SSH tunnel.
pub fn validate(groups: &Vec<TabGroup>, values: &Vec<(String, String)>) -> (r: Result<(), FormError>)
    ensures
        match r {
            Ok(()) => validation_passes(groups@, values@),
            Err(e) => validation_fails_with(groups@, values@, e),
        },
{
    let mut g: usize = 0;
    while g < groups.len()
        invariant
            g <= groups.len(),
            first_missing(groups@.subrange(0, g as int), values@) is None,
        decreases groups.len() - g,
    {
        let ghost gpre = groups@.subrange(0, g as int);
        let ghost gpost = groups@.subrange(0, g + 1);
        assert(gpost.drop_last() =~= gpre);
        let fields = &groups[g].fields;
        let mut f: usize = 0;
        while f < fields.len()
            invariant
                f <= fields.len(),
                g < groups.len(),
                fields@ == groups@[g as int].fields@,
                gpre == groups@.subrange(0, g as int),
                gpost == groups@.subrange(0, g + 1),
                gpost.drop_last() == gpre,
                first_missing(gpre, values@) is None,
                first_missing_field(fields@.subrange(0, f as int), values@) is None,
            decreases fields.len() - f,
        {
            let ghost fpre = fields@.subrange(0, f as int);
            let ghost fpost = fields@.subrange(0, f + 1);
            assert(fpost.drop_last() =~= fpre);
            if fields[f].required {
                let v = find_value(values, fields[f].name.as_str());
                if v.is_none() {
                    proof {
                        assert(first_missing_field(fpost, values@) == Some(fields@[f as int].label@));
                        lemma_first_missing_field_prefix(fields@, values@, f + 1);
                        assert(fields@.subrange(0, fields@.len() as int) =~= fields@);
                        assert(gpost.last() == groups@[g as int]);
                        assert(first_missing(gpost, values@) == Some(fields@[f as int].label@));
                        lemma_first_missing_prefix(groups@, values@, g + 1);
                        assert(groups@.subrange(0, groups@.len() as int) =~= groups@);
                    }
                    return Err(FormError::Required(fields[f].label.clone()));
                }
            }
            f += 1;
        }
        assert(fields@.subrange(0, fields@.len() as int) =~= fields@);
        assert(gpost.last() == groups@[g as int]);
        g += 1;
    }
    assert(groups@.subrange(0, groups@.len() as int) =~= groups@);
    validate_ssh_tunnel(values)
}

/// The record the form saves: after validation, the configuration the
/// values make, either into the record being edited (its name, workspace
/// and params replaced) or into a new record; the remark is the form's.
/// The flag says whether a record was being edited. `params_json` is the
/// JSON text of the configuration that `build_connection` makes of the same
/// values (the application writes it with serde).
pub fn build_stored_connection(
    groups: &Vec<TabGroup>,
    values: &Vec<(String, String)>,
    db_type: DatabaseType,
    workspace_id: Option<i64>,
    editing: Option<StoredConnection>,
    params_json: String,
) -> (r: Result<(StoredConnection, bool), FormError>)
    ensures
        match r {
            Err(e) => validation_fails_with(groups@, values@, e),
            Ok((stored, is_update)) => exists|c: DbConnectionConfig| {
                &&& #[trigger] connection_from_values(c, values@, db_type, workspace_id)
                &&& validation_passes(groups@, values@)
                &&& is_update == editing is Some
                &&& stored.name@ == c.name@
                &&& stored.workspace_id == workspace_id
                &&& stored.params == params_json
                &&& opt_view(stored.remark) == lookup(values@, "remark"@)
                &&& match editing {
                    Some(e) => {
                        &&& stored.id == e.id
                        &&& stored.connection_type == e.connection_type
                        &&& stored.selected_databases == e.selected_databases
                        &&& stored.created_at == e.created_at
                        &&& stored.updated_at == e.updated_at
                    },
                    None => {
                        &&& stored.id is None
                        &&& stored.connection_type == ConnectionType::Database
                        &&& opt_view(stored.selected_databases) == selected_for(c.database)
                        &&& stored.created_at is None
                        &&& stored.updated_at is None
                    },
                }
            },
        },
{
    match validate(groups, values) {
        Err(e) => return Err(e),
        Ok(()) => {},
    }
    let connection = build_connection(values, db_type, workspace_id);
    let remark = find_value(values, "remark");
    let is_update = editing.is_some();
    let mut stored = match editing {
        Some(e) => {
            let mut c = e;
            c.name = connection.name.clone();
            c.workspace_id = connection.workspace_id;
            c.params = params_json;
            c
        },
        None => StoredConnection::from_db_connection(connection, params_json),
    };
    stored.remark = remark;
    Ok((stored, is_update))
}

proof fn lemma_first_missing_field_prefix(fields: Seq<FormField>, values: Seq<(String, String)>, k: int)
    requires
        0 <= k <= fields.len(),
        first_missing_field(fields.subrange(0, k), values) is Some,
    ensures
        first_missing_field(fields, values) == first_missing_field(fields.subrange(0, k), values),
    decreases fields.len() - k,
{
    if k < fields.len() {
        let next = fields.subrange(0, k + 1);
        assert(next.drop_last() =~= fields.subrange(0, k));
        lemma_first_missing_field_prefix(fields, values, k + 1);
    } else {
        assert(fields.subrange(0, k) =~= fields);
    }
}

proof fn lemma_first_missing_prefix(groups: Seq<TabGroup>, values: Seq<(String, String)>, k: int)
    requires
        0 <= k <= groups.len(),
        first_missing(groups.subrange(0, k), values) is Some,
    ensures
        first_missing(groups, values) == first_missing(groups.subrange(0, k), values),
    decreases groups.len() - k,
{
    if k < groups.len() {
        let next = groups.subrange(0, k + 1);
        assert(next.drop_last() =~= groups.subrange(0, k));
        lemma_first_missing_prefix(groups, values, k + 1);
    } else {
        assert(groups.subrange(0, k) =~= groups);
    }
}

// ---------------------------------------------------------------------------
// Connection errors
// ---------------------------------------------------------------------------

/// The wrapping prefixes that hide the message of the underlying error.
pub open spec fn error_prefixes() -> Seq<Seq<char>> {
    seq![
        "connection error: "@,
        "query error: "@,
        "transaction error: "@,
        "failed to connect: "@,
        "failed to switch schema: "@,
        "failed to query: "@,
    ]
}

/// Index of the first prefix that `m` starts with, or -1.
pub open spec fn prefix_index(m: Seq<char>, k: int) -> int
    decreases 6 - k,
{
    if k >= 6 || k < 0 {
        -1
    } else if starts_with(m, error_prefixes()[k]) {
        k
    } else {
        prefix_index(m, k + 1)
    }
}

/// `m` with the wrapping prefixes taken off, trimming after each.
pub open spec fn strip_prefixes(m: Seq<char>) -> Seq<char>
    decreases m.len(),
{
    let k = prefix_index(m, 0);
    if k < 0 {
        m
    } else {
        let rest = trim(m.subrange(error_prefixes()[k].len() as int, m.len() as int));
        if rest.len() < m.len() {
            strip_prefixes(rest)
        } else {
            m
        }
    }
}

/// Index of the first `ORA-` in `m`, or -1.
pub open spec fn ora_index(m: Seq<char>, i: int) -> int
    decreases m.len() - i,
{
    if i < 0 || i + 4 > m.len() {
        -1
    } else if m.subrange(i, i + 4) == "ORA-"@ {
        i
    } else {
        ora_index(m, i + 1)
    }
}

/// The message shown for a failed connection test: the innermost error's
/// message without the wrapping prefixes, from an `ORA-` code on where
/// there is one, trimmed.
pub open spec fn simplified_message(m: Seq<char>) -> Seq<char> {
    let s = strip_prefixes(m);
    let k = ora_index(s, 0);
    if k >= 0 {
        trim(s.subrange(k, s.len() as int))
    } else {
        trim(s)
    }
}

/// The innermost message of an error chain (outermost first); the outer
/// message where the chain is empty.
pub open spec fn innermost(chain: Seq<String>, outer: Seq<char>) -> Seq<char> {
    if chain.len() == 0 {
        outer
    } else {
        chain.last()@
    }
}

proof fn lemma_prefix_index(m: Seq<char>, k: int)
    requires
        0 <= k <= 6,
    ensures
        -1 <= prefix_index(m, k) < 6,
        prefix_index(m, k) >= 0 ==> starts_with(m, error_prefixes()[prefix_index(m, k)]),
    decreases 6 - k,
{
    if k < 6 && !starts_with(m, error_prefixes()[k]) {
        lemma_prefix_index(m, k + 1);
    }
}

fn prefix_index_exec(m: &Vec<char>) -> (r: isize)
    ensures
        r == prefix_index(m@, 0),
{
    let prefixes = [
        "connection error: ",
        "query error: ",
        "transaction error: ",
        "failed to connect: ",
        "failed to switch schema: ",
        "failed to query: ",
    ];
    let mut k: usize = 0;
    while k < 6
        invariant
            k <= 6,
            prefix_index(m@, k as int) == prefix_index(m@, 0),
            forall|j: int| 0 <= j < 6 ==> (#[trigger] prefixes@[j])@ == error_prefixes()[j],
        decreases 6 - k,
    {
        let p = chars_of(prefixes[k]);
        if slice_starts_with(m.as_slice(), p.as_slice()) {
            return k as isize;
        }
        k += 1;
    }
    -1
}

/// The message a failed connection test shows.
pub fn simplify_connection_error_message(chain: &Vec<String>, outer: &str) -> (r: String)
    ensures
        r@ == simplified_message(innermost(chain@, outer@)),
{
    let start: String = if chain.len() == 0 {
        str_to_owned(outer)
    } else {
        chain[chain.len() - 1].clone()
    };
    let mut m = chars_of(start.as_str());
    loop
        invariant
            strip_prefixes(m@) == strip_prefixes(innermost(chain@, outer@)),
        ensures
            m@ == strip_prefixes(innermost(chain@, outer@)),
        decreases m@.len(),
    {
        let k = prefix_index_exec(&m);
        if k < 0 {
            break;
        }
        let plen: usize = match k {
            0 => 18,
            1 => 13,
            2 => 19,
            3 => 19,
            4 => 25,
            _ => 17,
        };
        proof {
            lemma_prefix_index(m@, 0);
            reveal_strlit("connection error: ");
            reveal_strlit("query error: ");
            reveal_strlit("transaction error: ");
            reveal_strlit("failed to connect: ");
            reveal_strlit("failed to switch schema: ");
            reveal_strlit("failed to query: ");
            let ps = error_prefixes();
            assert(ps[0] == "connection error: "@);
            assert(ps[1] == "query error: "@);
            assert(ps[2] == "transaction error: "@);
            assert(ps[3] == "failed to connect: "@);
            assert(ps[4] == "failed to switch schema: "@);
            assert(ps[5] == "failed to query: "@);
            assert(plen == error_prefixes()[k as int].len());
            assert(starts_with(m@, error_prefixes()[k as int]));
        }
        let (a, e) = crate::text::trim_range(m.as_slice(), plen, m.len());
        let next = string_from_range(m.as_slice(), a, e);
        let nc = chars_of(next.as_str());
        if nc.len() >= m.len() {
            break;
        }
        m = nc;
    }
    let s = m;
    let mut i: usize = 0;
    let mut found: Option<usize> = None;
    while found.is_none() && i < s.len() && s.len() - i >= 4
        invariant
            i <= s.len(),
            found is None ==> ora_index(s@, i as int) == ora_index(s@, 0),
            found matches Some(k) ==> k == ora_index(s@, 0) && k < s.len(),
        decreases s.len() - i,
    {
        proof {
            reveal_strlit("ORA-");
        }
        if s[i] == 'O' && s[i + 1] == 'R' && s[i + 2] == 'A' && s[i + 3] == '-' {
            assert(s@.subrange(i as int, i + 4) =~= "ORA-"@);
            found = Some(i);
            i += 1;
        } else {
            proof {
                if s@.subrange(i as int, i + 4) == "ORA-"@ {
                    assert(s@.subrange(i as int, i + 4)[0] == 'O');
                    assert(s@.subrange(i as int, i + 4)[1] == 'R');
                    assert(s@.subrange(i as int, i + 4)[2] == 'A');
                    assert(s@.subrange(i as int, i + 4)[3] == '-');
                }
            }
            i += 1;
        }
    }
    let (lo, hi) = match found {
        Some(k) => crate::text::trim_range(s.as_slice(), k, s.len()),
        None => crate::text::trim_range(s.as_slice(), 0, s.len()),
    };
    proof {
        assert(s@.subrange(0, s@.len() as int) =~= s@);
    }
    string_from_range(s.as_slice(), lo, hi)
}

// ---------------------------------------------------------------------------
// A new form
// ---------------------------------------------------------------------------

/// The fields of the tabs, tab after tab.
pub open spec fn fields_of(groups: Seq<TabGroup>) -> Seq<FormField>
    decreases groups.len(),
{
    if groups.len() == 0 {
        Seq::empty()
    } else {
        fields_of(groups.drop_last()) + groups.last().fields@
    }
}

/// The values a new form starts with: each field's default, in form order.
pub fn initial_values(groups: &Vec<TabGroup>) -> (r: Vec<(String, String)>)
    ensures
        r@.len() == fields_of(groups@).len(),
        forall|i: int| 0 <= i < r@.len() ==> (#[trigger] r@[i]).0@ == fields_of(groups@)[i].name@
            && r@[i].1@ == fields_of(groups@)[i].default_value@,
{
    let mut out: Vec<(String, String)> = Vec::new();
    let mut g: usize = 0;
    while g < groups.len()
        invariant
            g <= groups@.len(),
            out@.len() == fields_of(groups@.subrange(0, g as int)).len(),
            forall|i: int| 0 <= i < out@.len() ==> (#[trigger] out@[i]).0@ == fields_of(groups@.subrange(0, g as int))[i].name@
                && out@[i].1@ == fields_of(groups@.subrange(0, g as int))[i].default_value@,
        decreases groups.len() - g,
    {
        let ghost done = fields_of(groups@.subrange(0, g as int));
        let ghost next = fields_of(groups@.subrange(0, g + 1));
        proof {
            assert(groups@.subrange(0, g + 1).drop_last() =~= groups@.subrange(0, g as int));
            assert(next == done + groups@[g as int].fields@);
        }
        let fields = &groups[g].fields;
        let mut f: usize = 0;
        while f < fields.len()
            invariant
                g < groups@.len(),
                fields@ == groups@[g as int].fields@,
                f <= fields@.len(),
                next == done + fields@,
                out@.len() == done.len() + f,
                forall|i: int| 0 <= i < out@.len() ==> (#[trigger] out@[i]).0@ == next[i].name@
                    && out@[i].1@ == next[i].default_value@,
            decreases fields.len() - f,
        {
            out.push((fields[f].name.clone(), fields[f].default_value.clone()));
            f += 1;
        }
        g += 1;
    }
    assert(groups@.subrange(0, groups@.len() as int) =~= groups@);
    out
}

/// The option a select field starts on: the first where the field has no
/// default, else the first option whose value is the default (none where
/// no option has it).
pub fn default_option_index(field: &FormField) -> (r: Option<usize>)
    ensures
        field.default_value@.len() == 0 ==> r == Some(0usize),
        field.default_value@.len() > 0 ==> match r {
            Some(i) => i < field.options@.len() && field.options@[i as int].0@ == field.default_value@
                && forall|j: int| 0 <= j < i ==> (#[trigger] field.options@[j]).0@ != field.default_value@,
            None => forall|j: int| 0 <= j < field.options@.len() ==> (#[trigger] field.options@[j]).0@
                != field.default_value@,
        },
{
    if chars_of(field.default_value.as_str()).len() == 0 {
        return Some(0);
    }
    let mut i: usize = 0;
    while i < field.options.len()
        invariant
            i <= field.options@.len(),
            field.default_value@.len() > 0,
            forall|j: int| 0 <= j < i ==> (#[trigger] field.options@[j]).0@ != field.default_value@,
        decreases field.options.len() - i,
    {
        if str_eq(field.options[i].0.as_str(), field.default_value.as_str()) {
            return Some(i);
        }
        i += 1;
    }
    None
}

// ---------------------------------------------------------------------------
// Loading a stored connection into the form
// ---------------------------------------------------------------------------

/// What the form holds under `key` after the field `name` is set to `v`:
/// a form without that field is left as it is.
pub open spec fn after_set(prev: Option<Seq<char>>, key: Seq<char>, name: Seq<char>, v: Seq<char>) -> Option<
    Seq<char>,
> {
    if key == name && prev is Some {
        Some(v)
    } else {
        prev
    }
}

pub open spec fn after_opt_set(prev: Option<Seq<char>>, key: Seq<char>, name: Seq<char>, v: Option<String>) -> Option<
    Seq<char>,
> {
    match v {
        Some(x) => after_set(prev, key, name, x@),
        None => prev,
    }
}

/// What the form holds under `key` after each parameter is set in turn.
pub open spec fn after_params(prev: Option<Seq<char>>, key: Seq<char>, ps: Seq<(String, String)>) -> Option<
    Seq<char>,
>
    decreases ps.len(),
{
    if ps.len() == 0 {
        prev
    } else {
        after_set(after_params(prev, key, ps.drop_last()), key, ps.last().0@, ps.last().1@)
    }
}

/// What the form holds under `key` once a stored connection named `name`
/// with configuration `c` and remark `remark` is loaded into it.
pub open spec fn loaded_value(
    prev: Option<Seq<char>>,
    key: Seq<char>,
    name: Seq<char>,
    c: DbConnectionConfig,
    remark: Option<String>,
) -> Option<Seq<char>> {
    let x = after_params(after_basic_fields(prev, key, name, c), key, c.extra_params@);
    after_opt_set(x, key, "remark"@, remark)
}

/// What the form holds under `key` once the connection's own fields are set.
pub open spec fn after_basic_fields(prev: Option<Seq<char>>, key: Seq<char>, name: Seq<char>, c: DbConnectionConfig) -> Option<
    Seq<char>,
> {
    let a = after_set(prev, key, "name"@, name);
    let b = after_set(a, key, "host"@, c.host@);
    let p = after_set(b, key, "port"@, decimal(c.port as nat));
    let u = after_set(p, key, "username"@, c.username@);
    let w = after_set(u, key, "password"@, c.password@);
    let d = after_opt_set(w, key, "database"@, c.database);
    let sn = after_opt_set(d, key, "service_name"@, c.service_name);
    after_opt_set(sn, key, "sid"@, c.sid)
}

proof fn lemma_lookup_set(
    old_vals: Seq<(String, String)>,
    new_vals: Seq<(String, String)>,
    k: int,
    name: Seq<char>,
    v: Seq<char>,
)
    requires
        0 <= k < old_vals.len(),
        new_vals.len() == old_vals.len(),
        old_vals[k].0@ == name,
        new_vals[k].0 == old_vals[k].0,
        new_vals[k].1@ == v,
        forall|j: int| 0 <= j < k ==> (#[trigger] old_vals[j]).0@ != name,
        forall|j: int| 0 <= j < old_vals.len() && j != k ==> #[trigger] new_vals[j] == old_vals[j],
    ensures
        forall|key: Seq<char>| #[trigger] lookup(new_vals, key) == after_set(lookup(old_vals, key), key, name, v),
    decreases k,
{
    assert forall|key: Seq<char>| #[trigger] lookup(new_vals, key) == after_set(lookup(old_vals, key), key, name, v) by {
        if k == 0 {
            assert(new_vals.drop_first() =~= old_vals.drop_first());
        } else {
            assert(new_vals[0] == old_vals[0]);
            lemma_lookup_set(old_vals.drop_first(), new_vals.drop_first(), k - 1, name, v);
            assert(lookup(new_vals.drop_first(), key) == after_set(lookup(old_vals.drop_first(), key), key, name, v));
            if key == name {
                lemma_lookup_some_at(old_vals, k, name);
            }
        }
    }
}

/// Where an entry has the key, the lookup finds a value.
proof fn lemma_lookup_some_at(ps: Seq<(String, String)>, k: int, key: Seq<char>)
    requires
        0 <= k < ps.len(),
        ps[k].0@ == key,
    ensures
        lookup(ps, key) is Some,
    decreases k,
{
    if k > 0 && ps[0].0@ != key {
        lemma_lookup_some_at(ps.drop_first(), k - 1, key);
    }
}

/// Sets the first field named `name` to `value`; a form without such a
/// field is left as it is.
pub fn set_field_value(values: &mut Vec<(String, String)>, name: &str, value: &str)
    ensures
        final(values)@.len() == old(values)@.len(),
        forall|i: int| 0 <= i < old(values)@.len() ==> (#[trigger] final(values)@[i]).0 == old(values)@[i].0,
        forall|key: Seq<char>| #[trigger] lookup(final(values)@, key) == after_set(lookup(old(values)@, key), key, name@, value@),
{
    let mut i: usize = 0;
    while i < values.len()
        invariant
            i <= values@.len(),
            values@ == old(values)@,
            forall|j: int| 0 <= j < i ==> (#[trigger] values@[j]).0@ != name@,
        decreases values.len() - i,
    {
        if str_eq(values[i].0.as_str(), name) {
            let ghost before = values@;
            let key = values[i].0.clone();
            values.set(i, (key, str_to_owned(value)));
            proof {
                lemma_lookup_set(before, values@, i as int, name@, value@);
            }
            return;
        }
        i += 1;
    }
    proof {
        lemma_lookup_none(values@, name@);
    }
}

/// Where no entry has the key, the lookup finds nothing.
proof fn lemma_lookup_none(ps: Seq<(String, String)>, key: Seq<char>)
    requires
        forall|j: int| 0 <= j < ps.len() ==> (#[trigger] ps[j]).0@ != key,
    ensures
        lookup(ps, key) is None,
    decreases ps.len(),
{
    if ps.len() > 0 {
        assert forall|j: int| 0 <= j < ps.drop_first().len() implies (#[trigger] ps.drop_first()[j]).0@ != key by {
            assert(ps.drop_first()[j] == ps[j + 1]);
        }
        lemma_lookup_none(ps.drop_first(), key);
    }
}

fn set_opt_field_value(values: &mut Vec<(String, String)>, name: &str, value: &Option<String>)
    ensures
        final(values)@.len() == old(values)@.len(),
        forall|i: int| 0 <= i < old(values)@.len() ==> (#[trigger] final(values)@[i]).0 == old(values)@[i].0,
        forall|key: Seq<char>| #[trigger] lookup(final(values)@, key) == after_opt_set(lookup(old(values)@, key), key, name@, *value),
{
    match value {
        Some(v) => set_field_value(values, name, v.as_str()),
        None => {},
    }
}

/// Fills the form's values from a stored connection named `name`, whose
/// params read as `params`, and its remark; fields the form does not have
/// are skipped.
pub fn load_connection_values(
    values: &mut Vec<(String, String)>,
    name: &str,
    params: &DbConnectionConfig,
    remark: &Option<String>,
)
    ensures
        final(values)@.len() == old(values)@.len(),
        forall|i: int| 0 <= i < old(values)@.len() ==> (#[trigger] final(values)@[i]).0 == old(values)@[i].0,
        forall|key: Seq<char>| #[trigger] lookup(final(values)@, key) == loaded_value(
            lookup(old(values)@, key),
            key,
            name@,
            *params,
            *remark,
        ),
{
    let ghost v0 = values@;
    set_field_value(values, "name", name);
    set_field_value(values, "host", params.host.as_str());
    let port = u64_to_decimal(params.port as u64);
    set_field_value(values, "port", port.as_str());
    set_field_value(values, "username", params.username.as_str());
    set_field_value(values, "password", params.password.as_str());
    set_opt_field_value(values, "database", &params.database);
    set_opt_field_value(values, "service_name", &params.service_name);
    set_opt_field_value(values, "sid", &params.sid);
    let ghost v8 = values@;
    let mut i: usize = 0;
    while i < params.extra_params.len()
        invariant
            i <= params.extra_params@.len(),
            values@.len() == v0.len(),
            forall|j: int| 0 <= j < v0.len() ==> (#[trigger] values@[j]).0 == v0[j].0,
            forall|key: Seq<char>| #[trigger] lookup(values@, key) == after_params(
                lookup(v8, key),
                key,
                params.extra_params@.subrange(0, i as int),
            ),
        decreases params.extra_params.len() - i,
    {
        set_field_value(values, params.extra_params[i].0.as_str(), params.extra_params[i].1.as_str());
        proof {
            let t = params.extra_params@.subrange(0, i + 1);
            assert(t.drop_last() =~= params.extra_params@.subrange(0, i as int));
            assert(t.last() == params.extra_params@[i as int]);
        }
        i += 1;
    }
    assert(params.extra_params@.subrange(0, params.extra_params@.len() as int) =~= params.extra_params@);
    set_opt_field_value(values, "remark", remark);
}

proof fn lemma_after_params_other(prev: Option<Seq<char>>, key: Seq<char>, ps: Seq<(String, String)>)
    requires
        forall|i: int| 0 <= i < ps.len() ==> (#[trigger] ps[i]).0@ != key,
    ensures
        after_params(prev, key, ps) == prev,
    decreases ps.len(),
{
    if ps.len() > 0 {
        lemma_after_params_other(prev, key, ps.drop_last());
    }
}

proof fn lemma_after_params_own(prev: Option<Seq<char>>, ps: Seq<(String, String)>, j: int)
    requires
        prev is Some,
        0 <= j < ps.len(),
        forall|a: int, b: int| 0 <= a < b < ps.len() ==> (#[trigger] ps[a]).0@ != (#[trigger] ps[b]).0@,
    ensures
        after_params(prev, ps[j].0@, ps) == Some(ps[j].1@),
    decreases ps.len(),
{
    let key = ps[j].0@;
    let init = ps.drop_last();
    if j == ps.len() - 1 {
        assert forall|i: int| 0 <= i < init.len() implies (#[trigger] init[i]).0@ != key by {
            assert(init[i] == ps[i]);
        }
        lemma_after_params_other(prev, key, init);
    } else {
        assert(init[j] == ps[j]);
        lemma_after_params_own(prev, init, j);
    }
}

proof fn lemma_lookup_push(s: Seq<(String, String)>, x: (String, String), k: Seq<char>)
    ensures
        lookup(s.push(x), k) == (if lookup(s, k) is Some {
            lookup(s, k)
        } else if x.0@ == k {
            Some(x.1@)
        } else {
            None
        }),
    decreases s.len(),
{
    if s.len() > 0 {
        assert(s.push(x).drop_first() =~= s.drop_first().push(x));
        lemma_lookup_push(s.drop_first(), x, k);
    } else {
        assert(s.push(x).drop_first() =~= s);
    }
}

proof fn lemma_extra_lookup_none(vals: Seq<(String, String)>, k: Seq<char>)
    requires
        lookup(vals, k) is None,
    ensures
        lookup(extra_params_of(vals), k) is None,
    decreases vals.len(),
{
    if vals.len() > 0 {
        let init = vals.drop_last();
        assert(vals =~= init.push(vals.last()));
        lemma_lookup_push(init, vals.last(), k);
        lemma_extra_lookup_none(init, k);
        lemma_lookup_push(extra_params_of(init), vals.last(), k);
    }
}

proof fn lemma_extra_lookup(vals: Seq<(String, String)>, k: Seq<char>, v: Seq<char>)
    requires
        !is_basic_field(k),
        lookup(vals, k) == Some(v),
        v.len() > 0,
    ensures
        lookup(extra_params_of(vals), k) == Some(v),
    decreases vals.len(),
{
    if vals.len() == 0 {
    } else {
        let init = vals.drop_last();
        assert(vals =~= init.push(vals.last()));
        lemma_lookup_push(init, vals.last(), k);
        lemma_lookup_push(extra_params_of(init), vals.last(), k);
        if lookup(init, k) is Some {
            lemma_extra_lookup(init, k, v);
        } else {
            lemma_extra_lookup_none(init, k);
        }
    }
}

/// Loading a stored connection into a form that has its fields, then
/// building the configuration from the form, gives back the connection's
/// name, server, port, credentials and database, and each of its extra
/// parameters whose value is not empty.
pub proof fn law_load_then_build(
    before: Seq<(String, String)>,
    after: Seq<(String, String)>,
    name: Seq<char>,
    c: DbConnectionConfig,
    remark: Option<String>,
    built: DbConnectionConfig,
    db_type: DatabaseType,
    workspace_id: Option<i64>,
)
    requires
        forall|key: Seq<char>| #[trigger] lookup(after, key) == loaded_value(lookup(before, key), key, name, c, remark),
        connection_from_values(built, after, db_type, workspace_id),
        lookup(before, "name"@) is Some,
        lookup(before, "host"@) is Some,
        lookup(before, "port"@) is Some,
        lookup(before, "username"@) is Some,
        lookup(before, "password"@) is Some,
        c.database is Some ==> lookup(before, "database"@) is Some,
        forall|i: int| 0 <= i < c.extra_params@.len() ==> !is_basic_field((#[trigger] c.extra_params@[i]).0@),
        forall|a: int, b: int|
            0 <= a < b < c.extra_params@.len() ==> (#[trigger] c.extra_params@[a]).0@
                != (#[trigger] c.extra_params@[b]).0@,
    ensures
        built.name@ == name,
        built.host@ == c.host@,
        built.port == c.port,
        built.username@ == c.username@,
        built.password@ == c.password@,
        c.database is Some ==> opt_view(built.database) == opt_view(c.database),
        forall|i: int|
            0 <= i < c.extra_params@.len() && lookup(before, (#[trigger] c.extra_params@[i]).0@) is Some
                && c.extra_params@[i].1@.len() > 0 ==> lookup(built.extra_params@, c.extra_params@[i].0@) == Some(
                c.extra_params@[i].1@,
            ),
{
    reveal_strlit("name");
    reveal_strlit("host");
    reveal_strlit("port");
    reveal_strlit("username");
    reveal_strlit("password");
    reveal_strlit("database");
    reveal_strlit("service_name");
    reveal_strlit("sid");
    reveal_strlit("remark");
    // The field names differ from one another.
    assert("name"@[0] != "port"@[0]);
    assert("name"@[0] != "username"@[0]);
    assert("name"@[0] != "password"@[0]);
    assert("name"@[0] != "service_name"@[0]);
    assert("name"@[0] != "sid"@[0]);
    assert("name"@[0] != "remark"@[0]);
    assert("host"@[0] != "name"@[0]);
    assert("host"@[0] != "port"@[0]);
    assert("host"@[0] != "username"@[0]);
    assert("host"@[0] != "password"@[0]);
    assert("host"@[0] != "service_name"@[0]);
    assert("host"@[0] != "sid"@[0]);
    assert("host"@[0] != "remark"@[0]);
    assert("port"@[0] != "username"@[0]);
    assert("port"@[0] != "service_name"@[0]);
    assert("port"@[0] != "sid"@[0]);
    assert("port"@[0] != "remark"@[0]);
    assert("password"@.len() != "port"@.len());
    assert("password"@[0] != "username"@[0]);
    assert("password"@[0] != "service_name"@[0]);
    assert("password"@[0] != "sid"@[0]);
    assert("password"@[0] != "remark"@[0]);
    assert("database"@[0] != "name"@[0]);
    assert("database"@[0] != "host"@[0]);
    assert("database"@[0] != "port"@[0]);
    assert("database"@[0] != "username"@[0]);
    assert("database"@[0] != "password"@[0]);
    assert("database"@[0] != "service_name"@[0]);
    assert("database"@[0] != "sid"@[0]);
    assert("database"@[0] != "remark"@[0]);
    assert("service_name"@[0] != "username"@[0]);
    assert("service_name"@.len() != "sid"@.len());
    assert("sid"@[0] != "username"@[0]);
    assert("remark"@[0] != "username"@[0]);
    assert("remark"@[0] != "service_name"@[0]);
    assert("remark"@[0] != "sid"@[0]);
    let ps = c.extra_params@;
    assert forall|k: Seq<char>| is_basic_field(k) implies after_params(
        after_basic_fields(lookup(before, k), k, name, c),
        k,
        ps,
    ) == #[trigger] after_basic_fields(lookup(before, k), k, name, c) by {
        assert forall|i: int| 0 <= i < ps.len() implies (#[trigger] ps[i]).0@ != k by {}
        lemma_after_params_other(after_basic_fields(lookup(before, k), k, name, c), k, ps);
    }
    assert(lookup(after, "name"@) == Some(name));
    assert(lookup(after, "host"@) == Some(c.host@));
    assert(lookup(after, "port"@) == Some(decimal(c.port as nat)));
    crate::text::law_decimal_parses_back(c.port as u64);
    assert(lookup(after, "username"@) == Some(c.username@));
    assert(lookup(after, "password"@) == Some(c.password@));
    if c.database is Some {
        assert(lookup(after, "database"@) == Some(c.database.unwrap()@));
    }
    assert forall|i: int|
        0 <= i < ps.len() && lookup(before, (#[trigger] ps[i]).0@) is Some && ps[i].1@.len() > 0 implies lookup(
        built.extra_params@,
        ps[i].0@,
    ) == Some(ps[i].1@) by {
        let k = ps[i].0@;
        lemma_after_params_own(lookup(before, k), ps, i);
        assert(lookup(after, k) == Some(ps[i].1@));
        lemma_extra_lookup(after, k, ps[i].1@);
    }
}

/// With the SSH tunnel on and its host and user name given, password
/// authentication (any `ssh_auth_type` but `private_key`) needs a
/// password: without one (blank or missing) the values are refused for
/// `ssh_password`, with one they pass.
pub proof fn law_ssh_password_required(values: Seq<(String, String)>)
    requires
        lookup(values, "ssh_tunnel_enabled"@) == Some("true"@) || lookup(values, "ssh_tunnel_enabled"@) == Some("1"@),
        trim(value_or_empty(values, "ssh_host"@)).len() > 0,
        trim(value_or_empty(values, "ssh_username"@)).len() > 0,
        lookup(values, "ssh_auth_type"@) != Some("private_key"@),
    ensures
        trim(value_or_empty(values, "ssh_password"@)).len() == 0 ==> ssh_missing(values) == Some("ssh_password"@),
        trim(value_or_empty(values, "ssh_password"@)).len() > 0 ==> ssh_missing(values) is None,
{
}

} // verus!
