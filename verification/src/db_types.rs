//! Database object model: tree nodes, catalog records, DDL requests, table
//! data requests and the table designer's definitions.
use vstd::prelude::*;
use crate::models::{DatabaseType, lookup};
use crate::text::{
    str_eq, str_to_owned, to_uppercase, unicode_uppercase, to_lowercase, unicode_lowercase, trim,
    trim_range, chars_of, string_from_range, all_ascii, ascii_uppercase, ascii_lowercase,
    lemma_ascii_case_fold, is_ascii_digit, ascii_upper,
};

verus! {

// ---------------------------------------------------------------------------
// Tree nodes
// ---------------------------------------------------------------------------

/// Database tree node types, in display order.
#[derive(Debug, Clone, Copy, PartialEq, Eq, Structural)]
pub enum DbNodeType {
    Connection,
    Database,
    Schema,
    TablesFolder,
    Table,
    ColumnsFolder,
    Column,
    IndexesFolder,
    Index,
    ForeignKeysFolder,
    ForeignKey,
    TriggersFolder,
    Trigger,
    ChecksFolder,
    Check,
    ViewsFolder,
    View,
    FunctionsFolder,
    Function,
    ProceduresFolder,
    Procedure,
    SequencesFolder,
    Sequence,
    QueriesFolder,
    NamedQuery,
}


impl DbNodeType {
    pub open spec fn label_spec(self) -> Seq<char> {
        match self {
            DbNodeType::Connection => "Connection"@,
            DbNodeType::Database => "Database"@,
            DbNodeType::Schema => "Schema"@,
            DbNodeType::TablesFolder => "Tables"@,
            DbNodeType::Table => "Table"@,
            DbNodeType::ColumnsFolder => "Columns"@,
            DbNodeType::Column => "Column"@,
            DbNodeType::IndexesFolder => "Indexes"@,
            DbNodeType::Index => "Index"@,
            DbNodeType::ForeignKeysFolder => "Foreign Keys"@,
            DbNodeType::ForeignKey => "Foreign Key"@,
            DbNodeType::TriggersFolder => "Triggers"@,
            DbNodeType::Trigger => "Trigger"@,
            DbNodeType::ChecksFolder => "Checks"@,
            DbNodeType::Check => "Check"@,
            DbNodeType::ViewsFolder => "Views"@,
            DbNodeType::View => "View"@,
            DbNodeType::FunctionsFolder => "Functions"@,
            DbNodeType::Function => "Function"@,
            DbNodeType::ProceduresFolder => "Procedures"@,
            DbNodeType::Procedure => "Procedure"@,
            DbNodeType::SequencesFolder => "Sequences"@,
            DbNodeType::Sequence => "Sequence"@,
            DbNodeType::QueriesFolder => "Queries"@,
            DbNodeType::NamedQuery => "Query"@,
        }
    }

    /// The name a node type is shown under.
    pub fn label(&self) -> (r: &'static str)
        ensures
            r@ == self.label_spec(),
    {
        match self {
            DbNodeType::Connection => "Connection",
            DbNodeType::Database => "Database",
            DbNodeType::Schema => "Schema",
            DbNodeType::TablesFolder => "Tables",
            DbNodeType::Table => "Table",
            DbNodeType::ColumnsFolder => "Columns",
            DbNodeType::Column => "Column",
            DbNodeType::IndexesFolder => "Indexes",
            DbNodeType::Index => "Index",
            DbNodeType::ForeignKeysFolder => "Foreign Keys",
            DbNodeType::ForeignKey => "Foreign Key",
            DbNodeType::TriggersFolder => "Triggers",
            DbNodeType::Trigger => "Trigger",
            DbNodeType::ChecksFolder => "Checks",
            DbNodeType::Check => "Check",
            DbNodeType::ViewsFolder => "Views",
            DbNodeType::View => "View",
            DbNodeType::FunctionsFolder => "Functions",
            DbNodeType::Function => "Function",
            DbNodeType::ProceduresFolder => "Procedures",
            DbNodeType::Procedure => "Procedure",
            DbNodeType::SequencesFolder => "Sequences",
            DbNodeType::Sequence => "Sequence",
            DbNodeType::QueriesFolder => "Queries",
            DbNodeType::NamedQuery => "Query",
        }
    }
}

/// A node of the lazily loaded database tree.
#[derive(Debug)]
pub struct DbNode {
    pub id: String,
    pub name: String,
    pub node_type: DbNodeType,
    pub database_type: DatabaseType,
    pub children_loaded: bool,
    pub children: Vec<DbNode>,
    /// Key/value details; a key is read at its first occurrence.
    pub metadata: Vec<(String, String)>,
    pub connection_id: String,
    pub parent_context: Option<String>,
}

/// The name a node reports for `key`: its own name where its type is
/// `own`, else the metadata entry.
pub open spec fn node_name_for(n: DbNode, own: DbNodeType, key: Seq<char>) -> Option<Seq<char>> {
    if n.node_type == own {
        Some(n.name@)
    } else {
        lookup(n.metadata@, key)
    }
}

impl DbNode {
    /// A node whose children have not been loaded yet.
    pub fn new(
        id: String,
        name: String,
        node_type: DbNodeType,
        connection_id: String,
        database_type: DatabaseType,
    ) -> (r: DbNode)
        ensures
            r.id == id,
            r.name == name,
            r.node_type == node_type,
            r.connection_id == connection_id,
            r.database_type == database_type,
            !r.children_loaded,
            r.children@.len() == 0,
            r.metadata@.len() == 0,
            r.parent_context is None,
    {
        DbNode {
            id,
            name,
            node_type,
            children_loaded: false,
            children: Vec::new(),
            metadata: Vec::new(),
            connection_id,
            parent_context: None,
            database_type,
        }
    }

    pub fn with_children_loaded(self, children_loaded: bool) -> (r: DbNode)
        ensures
            r == (DbNode { children_loaded, ..self }),
    {
        let mut s = self;
        s.children_loaded = children_loaded;
        s
    }

    pub fn with_metadata(self, metadata: Vec<(String, String)>) -> (r: DbNode)
        ensures
            r == (DbNode { metadata, ..self }),
    {
        let mut s = self;
        s.metadata = metadata;
        s
    }

    pub fn with_parent_context(self, context: String) -> (r: DbNode)
        ensures
            r == (DbNode { parent_context: Some(context), ..self }),
    {
        let mut s = self;
        s.parent_context = Some(context);
        s
    }

    /// Replaces the children and marks them loaded.
    pub fn set_children(&mut self, children: Vec<DbNode>)
        ensures
            *final(self) == (DbNode { children, children_loaded: true, ..*old(self) }),
    {
        self.children = children;
        self.children_loaded = true;
    }

    fn name_for(&self, own: DbNodeType, key: &str) -> (r: Option<String>)
        ensures
            crate::models::opt_view(r) == node_name_for(*self, own, key@),
    {
        if self.node_type == own {
            Some(self.name.clone())
        } else {
            let mut i: usize = 0;
            let ghost ps = self.metadata@;
            assert(ps.subrange(0, ps.len() as int) =~= ps);
            while i < self.metadata.len()
                invariant
                    i <= self.metadata.len(),
                    self.node_type != own,
                    ps == self.metadata@,
                    lookup(ps, key@) == lookup(ps.subrange(i as int, ps.len() as int), key@),
                decreases self.metadata.len() - i,
            {
                let ghost rest = ps.subrange(i as int, ps.len() as int);
                assert(rest[0] == ps[i as int]);
                if str_eq(self.metadata[i].0.as_str(), key) {
                    return Some(self.metadata[i].1.clone());
                }
                assert(rest.drop_first() =~= ps.subrange(i + 1, ps.len() as int));
                i += 1;
            }
            None
        }
    }

    /// The database this node belongs to.
    pub fn get_database_name(&self) -> (r: Option<String>)
        ensures
            crate::models::opt_view(r) == node_name_for(*self, DbNodeType::Database, "database"@),
    {
        self.name_for(DbNodeType::Database, "database")
    }

    /// The schema this node belongs to.
    pub fn get_schema_name(&self) -> (r: Option<String>)
        ensures
            crate::models::opt_view(r) == node_name_for(*self, DbNodeType::Schema, "schema"@),
    {
        self.name_for(DbNodeType::Schema, "schema")
    }

    /// The table this node belongs to.
    pub fn get_table_name(&self) -> (r: Option<String>)
        ensures
            crate::models::opt_view(r) == node_name_for(*self, DbNodeType::Table, "table"@),
    {
        self.name_for(DbNodeType::Table, "table")
    }
}


// ---------------------------------------------------------------------------
// Ordering of tree nodes
// ---------------------------------------------------------------------------

/// Position of a node type in display order.
pub open spec fn node_type_rank(t: DbNodeType) -> int {
    match t {
            DbNodeType::Connection => 0,
            DbNodeType::Database => 1,
            DbNodeType::Schema => 2,
            DbNodeType::TablesFolder => 3,
            DbNodeType::Table => 4,
            DbNodeType::ColumnsFolder => 5,
            DbNodeType::Column => 6,
            DbNodeType::IndexesFolder => 7,
            DbNodeType::Index => 8,
            DbNodeType::ForeignKeysFolder => 9,
            DbNodeType::ForeignKey => 10,
            DbNodeType::TriggersFolder => 11,
            DbNodeType::Trigger => 12,
            DbNodeType::ChecksFolder => 13,
            DbNodeType::Check => 14,
            DbNodeType::ViewsFolder => 15,
            DbNodeType::View => 16,
            DbNodeType::FunctionsFolder => 17,
            DbNodeType::Function => 18,
            DbNodeType::ProceduresFolder => 19,
            DbNodeType::Procedure => 20,
            DbNodeType::SequencesFolder => 21,
            DbNodeType::Sequence => 22,
            DbNodeType::QueriesFolder => 23,
            DbNodeType::NamedQuery => 24,
    }
}

fn node_type_rank_exec(t: DbNodeType) -> (r: u8)
    ensures
        r == node_type_rank(t),
{
    match t {
            DbNodeType::Connection => 0,
            DbNodeType::Database => 1,
            DbNodeType::Schema => 2,
            DbNodeType::TablesFolder => 3,
            DbNodeType::Table => 4,
            DbNodeType::ColumnsFolder => 5,
            DbNodeType::Column => 6,
            DbNodeType::IndexesFolder => 7,
            DbNodeType::Index => 8,
            DbNodeType::ForeignKeysFolder => 9,
            DbNodeType::ForeignKey => 10,
            DbNodeType::TriggersFolder => 11,
            DbNodeType::Trigger => 12,
            DbNodeType::ChecksFolder => 13,
            DbNodeType::Check => 14,
            DbNodeType::ViewsFolder => 15,
            DbNodeType::View => 16,
            DbNodeType::FunctionsFolder => 17,
            DbNodeType::Function => 18,
            DbNodeType::ProceduresFolder => 19,
            DbNodeType::Procedure => 20,
            DbNodeType::SequencesFolder => 21,
            DbNodeType::Sequence => 22,
            DbNodeType::QueriesFolder => 23,
            DbNodeType::NamedQuery => 24,
    }
}

/// Lexicographic comparison by code point, as `str` orders (-1, 0 or 1).
pub open spec fn seq_order(a: Seq<char>, b: Seq<char>) -> int
    decreases a.len(),
{
    if a.len() == 0 {
        if b.len() == 0 {
            0
        } else {
            -1
        }
    } else if b.len() == 0 {
        1
    } else if a[0] < b[0] {
        -1
    } else if a[0] > b[0] {
        1
    } else {
        seq_order(a.drop_first(), b.drop_first())
    }
}

/// Comparing the other way round flips the answer, and only equal
/// sequences compare equal.
pub proof fn lemma_seq_order_antisym(a: Seq<char>, b: Seq<char>)
    ensures
        seq_order(a, b) == -seq_order(b, a),
        -1 <= seq_order(a, b) <= 1,
        seq_order(a, b) == 0 ==> a == b,
    decreases a.len(),
{
    if a.len() > 0 && b.len() > 0 && a[0] == b[0] {
        lemma_seq_order_antisym(a.drop_first(), b.drop_first());
        if seq_order(a, b) == 0 {
            assert(a =~= seq![a[0]] + a.drop_first());
            assert(b =~= seq![b[0]] + b.drop_first());
        }
    }
    if a.len() == 0 && b.len() == 0 {
        assert(a =~= b);
    }
}

/// The code-point order is transitive.
pub proof fn lemma_seq_order_trans(a: Seq<char>, b: Seq<char>, c: Seq<char>)
    requires
        seq_order(a, b) <= 0,
        seq_order(b, c) <= 0,
    ensures
        seq_order(a, c) <= 0,
    decreases a.len(),
{
    if a.len() > 0 && b.len() > 0 && c.len() > 0 && a[0] == b[0] && b[0] == c[0] {
        lemma_seq_order_trans(a.drop_first(), b.drop_first(), c.drop_first());
    }
}

fn seq_order_exec(a: &Vec<char>, b: &Vec<char>) -> (r: i8)
    ensures
        r == seq_order(a@, b@),
{
    let mut i: usize = 0;
    assert(a@.subrange(0, a@.len() as int) =~= a@);
    assert(b@.subrange(0, b@.len() as int) =~= b@);
    while i < a.len() && i < b.len()
        invariant
            i <= a.len(),
            i <= b.len(),
            seq_order(a@, b@) == seq_order(a@.subrange(i as int, a@.len() as int), b@.subrange(i as int, b@.len() as int)),
        decreases a.len() - i,
    {
        let ghost sa = a@.subrange(i as int, a@.len() as int);
        let ghost sb = b@.subrange(i as int, b@.len() as int);
        assert(sa[0] == a@[i as int] && sb[0] == b@[i as int]);
        if a[i] < b[i] {
            return -1;
        }
        if a[i] > b[i] {
            return 1;
        }
        assert(sa.drop_first() =~= a@.subrange(i + 1, a@.len() as int));
        assert(sb.drop_first() =~= b@.subrange(i + 1, b@.len() as int));
        i += 1;
    }
    let ghost sa = a@.subrange(i as int, a@.len() as int);
    let ghost sb = b@.subrange(i as int, b@.len() as int);
    if i < a.len() {
        1
    } else if i < b.len() {
        -1
    } else {
        0
    }
}

/// The order of tree nodes: by type, then by name ignoring case, then by id.
pub open spec fn node_order(a: DbNode, b: DbNode) -> int {
    if node_type_rank(a.node_type) < node_type_rank(b.node_type) {
        -1
    } else if node_type_rank(a.node_type) > node_type_rank(b.node_type) {
        1
    } else {
        let n = seq_order(unicode_lowercase(a.name@), unicode_lowercase(b.name@));
        if n != 0 {
            n
        } else {
            seq_order(a.id@, b.id@)
        }
    }
}

/// Comparing two nodes the other way round flips the answer.
pub proof fn lemma_node_order_antisym(a: DbNode, b: DbNode)
    ensures
        node_order(a, b) == -node_order(b, a),
{
    lemma_seq_order_antisym(unicode_lowercase(a.name@), unicode_lowercase(b.name@));
    lemma_seq_order_antisym(a.id@, b.id@);
}

/// The tree order is transitive.
pub proof fn lemma_node_order_trans(a: DbNode, b: DbNode, c: DbNode)
    requires
        node_order(a, b) <= 0,
        node_order(b, c) <= 0,
    ensures
        node_order(a, c) <= 0,
{
    let (na, nb, nc) = (unicode_lowercase(a.name@), unicode_lowercase(b.name@), unicode_lowercase(c.name@));
    lemma_seq_order_antisym(na, nb);
    lemma_seq_order_antisym(nb, nc);
    lemma_seq_order_antisym(na, nc);
    lemma_seq_order_antisym(a.id@, b.id@);
    lemma_seq_order_antisym(b.id@, c.id@);
    if node_type_rank(a.node_type) == node_type_rank(b.node_type) && node_type_rank(b.node_type)
        == node_type_rank(c.node_type) {
        if seq_order(na, nb) <= 0 && seq_order(nb, nc) <= 0 {
            lemma_seq_order_trans(na, nb, nc);
        }
        if seq_order(na, nb) == 0 && seq_order(nb, nc) == 0 {
            lemma_seq_order_trans(a.id@, b.id@, c.id@);
        }
    }
}

/// The nodes are in tree order.
pub open spec fn nodes_sorted(s: Seq<DbNode>) -> bool {
    forall|i: int, j: int| 0 <= i < j < s.len() ==> node_order(#[trigger] s[i], #[trigger] s[j]) <= 0
}

/// `out` holds the first `out.len()` nodes of `orig`, each once: its node
/// `i` is `orig[perm[i]]`, and nodes that compare equal come in the order
/// they had in `orig`.
pub open spec fn arranged_prefix(orig: Seq<DbNode>, out: Seq<DbNode>, perm: Seq<int>) -> bool {
    &&& perm.len() == out.len()
    &&& out.len() <= orig.len()
    &&& forall|i: int| 0 <= i < out.len() ==> 0 <= #[trigger] perm[i] < out.len() && out[i] == orig[perm[i]]
    &&& forall|i: int, j: int|
        0 <= i < j < out.len() ==> #[trigger] perm[i] != #[trigger] perm[j] && (node_order(out[i], out[j])
            == 0 ==> perm[i] < perm[j])
}

/// `out` is a stable rearrangement of `orig` by `perm`: every node of
/// `orig` appears once, and nodes that compare equal keep their order.
pub open spec fn stable_arrangement(orig: Seq<DbNode>, out: Seq<DbNode>, perm: Seq<int>) -> bool {
    out.len() == orig.len() && arranged_prefix(orig, out, perm)
}

impl DbNode {
    /// Compares two nodes in tree order (-1, 0 or 1).
    pub fn compare(&self, other: &DbNode) -> (r: i8)
        ensures
            r == node_order(*self, *other),
    {
        let ra = node_type_rank_exec(self.node_type);
        let rb = node_type_rank_exec(other.node_type);
        if ra < rb {
            return -1;
        }
        if ra > rb {
            return 1;
        }
        let la = to_lowercase(self.name.as_str());
        let lb = to_lowercase(other.name.as_str());
        let n = seq_order_exec(&chars_of(la.as_str()), &chars_of(lb.as_str()));
        if n != 0 {
            return n;
        }
        seq_order_exec(&chars_of(self.id.as_str()), &chars_of(other.id.as_str()))
    }

    /// Sorts the children in tree order; nodes that compare equal keep
    /// their order.
    pub fn sort_children(&mut self)
        ensures
            nodes_sorted(final(self).children@),
            final(self).children@.to_multiset() == old(self).children@.to_multiset(),
            exists|perm: Seq<int>| #[trigger]
                stable_arrangement(old(self).children@, final(self).children@, perm),
            *final(self) == (DbNode { children: final(self).children, ..*old(self) }),
    {
        let mut rest: Vec<DbNode> = Vec::new();
        std::mem::swap(&mut rest, &mut self.children);
        let ghost orig = rest@;
        let mut out: Vec<DbNode> = Vec::new();
        let ghost mut perm: Seq<int> = Seq::empty();
        proof {
            vstd::seq_lib::to_multiset_len(out@);
            vstd::multiset::lemma_multiset_empty_len(out@.to_multiset());
            assert(out@.to_multiset().add(rest@.to_multiset()) =~= orig.to_multiset());
            assert(rest@ =~= orig.subrange(0, orig.len() as int));
        }
        while rest.len() > 0
            invariant
                nodes_sorted(out@),
                out@.to_multiset().add(rest@.to_multiset()) == orig.to_multiset(),
                out@.len() + rest@.len() == orig.len(),
                rest@ == orig.subrange(out@.len() as int, orig.len() as int),
                arranged_prefix(orig, out@, perm),
            decreases rest.len(),
        {
            let ghost rb = rest@;
            let ghost k = out@.len() as int;
            let x = rest.remove(0);
            proof {
                broadcast use vstd::seq_lib::group_to_multiset_ensures;
                assert(rb.remove(0) == rest@);
                assert(rb[0] == x);
                assert(x == orig[k]);
                assert(rest@ =~= orig.subrange(k + 1, orig.len() as int));
            }
            let mut p: usize = 0;
            while p < out.len() && out[p].compare(&x) <= 0
                invariant
                    p <= out.len(),
                    forall|i: int| 0 <= i < p ==> node_order(#[trigger] out@[i], x) <= 0,
                decreases out.len() - p,
            {
                p += 1;
            }
            proof {
                if p < out.len() {
                    lemma_node_order_antisym(out@[p as int], x);
                }
            }
            let ghost before = out@;
            let ghost pb = perm;
            out.insert(p, x);
            proof {
                perm = pb.insert(p as int, k);
                assert forall|i: int, j: int| 0 <= i < j < out@.len() implies node_order(#[trigger] out@[i], #[trigger] out@[j]) <= 0 by {
                    if j < p {
                        assert(out@[i] == before[i] && out@[j] == before[j]);
                    } else if j == p {
                        assert(out@[i] == before[i]);
                    } else if i == p {
                        assert(out@[j] == before[j - 1]);
                        lemma_node_order_antisym(before[p as int], x);
                        if p < j - 1 {
                            lemma_node_order_trans(x, before[p as int], before[j - 1]);
                        }
                    } else if i < p {
                        assert(out@[i] == before[i] && out@[j] == before[j - 1]);
                    } else {
                        assert(out@[i] == before[i - 1] && out@[j] == before[j - 1]);
                    }
                }
                assert forall|i: int| 0 <= i < out@.len() implies 0 <= #[trigger] perm[i] < out@.len()
                    && out@[i] == orig[perm[i]] by {
                    if i < p {
                        assert(perm[i] == pb[i] && out@[i] == before[i]);
                    } else if i > p {
                        assert(perm[i] == pb[i - 1] && out@[i] == before[i - 1]);
                    }
                }
                assert forall|i: int, j: int| 0 <= i < j < out@.len() implies #[trigger] perm[i] != #[trigger] perm[j]
                    && (node_order(out@[i], out@[j]) == 0 ==> perm[i] < perm[j]) by {
                    if j < p {
                        assert(perm[i] == pb[i] && perm[j] == pb[j]);
                        assert(out@[i] == before[i] && out@[j] == before[j]);
                    } else if j == p {
                        assert(perm[i] == pb[i]);
                    } else if i == p {
                        assert(perm[j] == pb[j - 1]);
                        assert(out@[j] == before[j - 1]);
                        lemma_node_order_antisym(before[p as int], x);
                        lemma_node_order_antisym(x, before[j - 1]);
                        if node_order(x, before[j - 1]) == 0 {
                            if p < j - 1 {
                                lemma_node_order_trans(before[p as int], before[j - 1], x);
                            }
                        }
                    } else if i < p {
                        assert(perm[i] == pb[i] && perm[j] == pb[j - 1]);
                        assert(out@[i] == before[i] && out@[j] == before[j - 1]);
                    } else {
                        assert(perm[i] == pb[i - 1] && perm[j] == pb[j - 1]);
                        assert(out@[i] == before[i - 1] && out@[j] == before[j - 1]);
                    }
                }
                assert(perm.len() == out@.len());
                broadcast use vstd::seq_lib::group_to_multiset_ensures;
                assert(out@.remove(p as int) =~= before);
                assert(out@[p as int] == x);
            }
        }
        proof {
            vstd::seq_lib::to_multiset_len(rest@);
            vstd::multiset::lemma_multiset_empty_len(rest@.to_multiset());
            assert(out@.to_multiset() =~= out@.to_multiset().add(rest@.to_multiset()));
            assert(stable_arrangement(orig, out@, perm));
        }
        self.children = out;
    }
}

/// `b` is `a` with the children of every node, at every depth, put in tree
/// order: each child of `a` is sorted in turn, and the sorted children are
/// then arranged in tree order.
pub open spec fn sorted_tree_of(a: DbNode, b: DbNode) -> bool
    decreases a,
{
    &&& b == (DbNode { children: b.children, ..a })
    &&& nodes_sorted(b.children@)
    &&& exists|mid: Seq<DbNode>|
        {
            &&& mid.len() == a.children@.len()
            &&& #[trigger] mid.to_multiset() == b.children@.to_multiset()
            &&& forall|i: int|
                0 <= i < mid.len() ==> sorted_tree_of(a.children@[i], #[trigger] mid[i])
        }
}

proof fn lemma_sorted_tree_intro(a: DbNode, b: DbNode, mid: Seq<DbNode>)
    requires
        b == (DbNode { children: b.children, ..a }),
        nodes_sorted(b.children@),
        mid.len() == a.children@.len(),
        mid.to_multiset() == b.children@.to_multiset(),
        forall|i: int| 0 <= i < mid.len() ==> sorted_tree_of(a.children@[i], #[trigger] mid[i]),
    ensures
        sorted_tree_of(a, b),
{
}

impl DbNode {
    /// Sorts the children of this node and of every node below it.
    pub fn sort_children_recursive(&mut self)
        ensures
            sorted_tree_of(*old(self), *final(self)),
        decreases *old(self),
    {
        let mut rest: Vec<DbNode> = Vec::new();
        std::mem::swap(&mut rest, &mut self.children);
        let ghost orig = rest@;
        let mut done: Vec<DbNode> = Vec::new();
        while rest.len() > 0
            invariant
                done@.len() + rest@.len() == orig.len(),
                rest@ == orig.subrange(done@.len() as int, orig.len() as int),
                orig == old(self).children@,
                forall|i: int| 0 <= i < done@.len() ==> #[trigger] sorted_tree_of(orig[i], done@[i]),
            decreases rest.len(),
        {
            let ghost k = done@.len() as int;
            let mut c = rest.remove(0);
            proof {
                assert(c == orig[k]);
                broadcast use vstd::std_specs::vec::axiom_vec_decreases_to_view;
                broadcast use vstd::seq::axiom_seq_index_decreases;
                assert(decreases_to!(*old(self) => old(self).children));
                assert(decreases_to!(old(self).children => old(self).children@));
                assert(decreases_to!(old(self).children@ => orig[k]));
            }
            c.sort_children_recursive();
            done.push(c);
            proof {
                assert(rest@ =~= orig.subrange(k + 1, orig.len() as int));
            }
        }
        let ghost mid = done@;
        self.children = done;
        self.sort_children();
        proof {
            lemma_sorted_tree_intro(*old(self), *self, mid);
        }
    }
}

// ---------------------------------------------------------------------------
// Field types
// ---------------------------------------------------------------------------

/// Abstract data type for rendering a column.
#[derive(Debug, Clone, Copy, PartialEq, Eq, Structural)]
pub enum FieldType {
    Integer,
    Decimal,
    Text,
    LongText,
    Boolean,
    Date,
    Time,
    DateTime,
    Binary,
    Json,
    Unknown,
}

/// Index of the first `(` at or after `i`, or `s.len()`.
pub open spec fn first_paren(s: Seq<char>, i: int) -> int
    decreases s.len() - i,
{
    if i < 0 || i >= s.len() {
        s.len() as int
    } else if s[i] == '(' {
        i
    } else {
        first_paren(s, i + 1)
    }
}

/// The base of an upper-cased type name: cut at the first `(`, trimmed.
pub open spec fn base_of(u: Seq<char>) -> Seq<char> {
    trim(u.subrange(0, first_paren(u, 0)))
}

/// The base of a type name: upper-cased, cut at the first `(`, trimmed.
pub open spec fn base_type(db_type: Seq<char>) -> Seq<char> {
    base_of(unicode_uppercase(db_type))
}

/// The field type of a base type name; a name that no group lists is
/// `Unknown`.
pub open spec fn classify_base(b: Seq<char>) -> FieldType {
    if b == "INT"@ || b == "INTEGER"@ || b == "BIGINT"@ || b == "SMALLINT"@ || b == "TINYINT"@ || b
        == "MEDIUMINT"@ || b == "SERIAL"@ || b == "BIGSERIAL"@ || b == "SMALLSERIAL"@ {
        FieldType::Integer
    } else if b == "DECIMAL"@ || b == "NUMERIC"@ || b == "FLOAT"@ || b == "DOUBLE"@ || b == "REAL"@
        || b == "DOUBLE PRECISION"@ || b == "MONEY"@ {
        FieldType::Decimal
    } else if b == "BOOL"@ || b == "BOOLEAN"@ || b == "BIT"@ {
        FieldType::Boolean
    } else if b == "DATE"@ {
        FieldType::Date
    } else if b == "TIME"@ {
        FieldType::Time
    } else if b == "DATETIME"@ || b == "TIMESTAMP"@ || b == "TIMESTAMPTZ"@ {
        FieldType::DateTime
    } else if b == "CHAR"@ || b == "VARCHAR"@ || b == "NCHAR"@ || b == "NVARCHAR"@ || b
        == "CHARACTER VARYING"@ || b == "CHARACTER"@ {
        FieldType::Text
    } else if b == "TEXT"@ || b == "LONGTEXT"@ || b == "MEDIUMTEXT"@ || b == "TINYTEXT"@ || b
        == "CLOB"@ || b == "NTEXT"@ {
        FieldType::LongText
    } else if b == "BLOB"@ || b == "LONGBLOB"@ || b == "MEDIUMBLOB"@ || b == "TINYBLOB"@ || b
        == "BINARY"@ || b == "VARBINARY"@ || b == "BYTEA"@ || b == "IMAGE"@ {
        FieldType::Binary
    } else if b == "JSON"@ || b == "JSONB"@ {
        FieldType::Json
    } else {
        FieldType::Unknown
    }
}

proof fn lemma_first_paren_at(w: Seq<char>, k: int, i: int)
    requires
        0 <= i <= k < w.len(),
        w[k] == '(',
        forall|j: int| 0 <= j < k ==> w[j] != '(',
    ensures
        first_paren(w, i) == k,
    decreases k - i,
{
    if i < k {
        lemma_first_paren_at(w, k, i + 1);
    }
}

/// For an ASCII type name without `(`, the field type depends neither on
/// the letter case nor on a length such as `(255)` after it.
pub proof fn law_field_type_ignores_case_and_length(s: Seq<char>, n: Seq<char>)
    requires
        all_ascii(s),
        forall|i: int| 0 <= i < s.len() ==> s[i] != '(',
        forall|i: int| 0 <= i < n.len() ==> is_ascii_digit(#[trigger] n[i]),
    ensures
        all_ascii(ascii_lowercase(s)),
        all_ascii(s + "("@ + n + ")"@),
        classify_base(base_of(ascii_uppercase(ascii_lowercase(s)))) == classify_base(base_of(ascii_uppercase(s))),
        classify_base(base_of(ascii_uppercase(s + "("@ + n + ")"@))) == classify_base(base_of(ascii_uppercase(s))),
{
    lemma_ascii_case_fold(s);
    reveal_strlit("(");
    reveal_strlit(")");
    let t = s + "("@ + n + ")"@;
    assert forall|i: int| 0 <= i < t.len() implies (#[trigger] t[i]) <= '\u{7f}' by {
        if i < s.len() {
            assert(t[i] == s[i]);
        } else if i > s.len() && i < s.len() + 1 + n.len() {
            assert(t[i] == n[i - s.len() - 1]);
        }
    }
    let u = ascii_uppercase(s);
    let w = ascii_uppercase(t);
    assert forall|j: int| 0 <= j < s.len() implies w[j] == u[j] && w[j] != '(' by {
        assert(t[j] == s[j]);
        assert(s[j] != '(');
        if ascii_upper(s[j]) == '(' {
            assert(!('a' <= s[j] && s[j] <= 'z'));
        }
    }
    assert(t[s.len() as int] == '(');
    assert(w[s.len() as int] == '(');
    lemma_first_paren_at(w, s.len() as int, 0);
    assert(w.subrange(0, s.len() as int) =~= u);
    assert(u.len() == s.len());
    assert(u.subrange(0, first_paren(u, 0)) =~= u) by {
        lemma_first_paren_none(u, 0);
    }
}

proof fn lemma_first_paren_none(u: Seq<char>, i: int)
    requires
        0 <= i <= u.len(),
        forall|j: int| 0 <= j < u.len() ==> u[j] != '(',
    ensures
        first_paren(u, i) == u.len(),
    decreases u.len() - i,
{
    if i < u.len() {
        lemma_first_paren_none(u, i + 1);
    }
}

impl FieldType {
    /// The field type of a database type name such as `VARCHAR(255)`;
    /// names of unknown or unsupported types give `Unknown`.
    pub fn from_db_type(db_type: &str) -> (r: FieldType)
        ensures
            r == classify_base(base_type(db_type@)),
            all_ascii(db_type@) ==> r == classify_base(base_of(ascii_uppercase(db_type@))),
    {
        let upper = to_uppercase(db_type);
        let cs = chars_of(upper.as_str());
        let mut p: usize = 0;
        while p < cs.len() && cs[p] != '('
            invariant
                p <= cs.len(),
                first_paren(cs@, p as int) == first_paren(cs@, 0),
            decreases cs.len() - p,
        {
            p += 1;
        }
        let (a, e) = trim_range(cs.as_slice(), 0, p);
        let base = string_from_range(cs.as_slice(), a, e);
        let b = base.as_str();
        proof {
            assert(first_paren(cs@, p as int) == p);
        }
        if str_eq(b, "INT") || str_eq(b, "INTEGER") || str_eq(b, "BIGINT") || str_eq(b, "SMALLINT")
            || str_eq(b, "TINYINT") || str_eq(b, "MEDIUMINT") || str_eq(b, "SERIAL") || str_eq(
            b,
            "BIGSERIAL",
        ) || str_eq(b, "SMALLSERIAL") {
            FieldType::Integer
        } else if str_eq(b, "DECIMAL") || str_eq(b, "NUMERIC") || str_eq(b, "FLOAT") || str_eq(
            b,
            "DOUBLE",
        ) || str_eq(b, "REAL") || str_eq(b, "DOUBLE PRECISION") || str_eq(b, "MONEY") {
            FieldType::Decimal
        } else if str_eq(b, "BOOL") || str_eq(b, "BOOLEAN") || str_eq(b, "BIT") {
            FieldType::Boolean
        } else if str_eq(b, "DATE") {
            FieldType::Date
        } else if str_eq(b, "TIME") {
            FieldType::Time
        } else if str_eq(b, "DATETIME") || str_eq(b, "TIMESTAMP") || str_eq(b, "TIMESTAMPTZ") {
            FieldType::DateTime
        } else if str_eq(b, "CHAR") || str_eq(b, "VARCHAR") || str_eq(b, "NCHAR") || str_eq(
            b,
            "NVARCHAR",
        ) || str_eq(b, "CHARACTER VARYING") || str_eq(b, "CHARACTER") {
            FieldType::Text
        } else if str_eq(b, "TEXT") || str_eq(b, "LONGTEXT") || str_eq(b, "MEDIUMTEXT") || str_eq(
            b,
            "TINYTEXT",
        ) || str_eq(b, "CLOB") || str_eq(b, "NTEXT") {
            FieldType::LongText
        } else if str_eq(b, "BLOB") || str_eq(b, "LONGBLOB") || str_eq(b, "MEDIUMBLOB") || str_eq(
            b,
            "TINYBLOB",
        ) || str_eq(b, "BINARY") || str_eq(b, "VARBINARY") || str_eq(b, "BYTEA") || str_eq(
            b,
            "IMAGE",
        ) {
            FieldType::Binary
        } else if str_eq(b, "JSON") || str_eq(b, "JSONB") {
            FieldType::Json
        } else {
            FieldType::Unknown
        }
    }
}

// ---------------------------------------------------------------------------
// Filters and sorting
// ---------------------------------------------------------------------------

/// Filter operator.
#[derive(Debug, Clone, Copy, PartialEq, Eq, Structural)]
pub enum FilterOperator {
    Equal,
    NotEqual,
    GreaterThan,
    LessThan,
    GreaterOrEqual,
    LessOrEqual,
    Like,
    NotLike,
    In,
    NotIn,
    Between,
    IsNull,
    IsNotNull,
    IsTrue,
    IsFalse,
}

impl FilterOperator {
    pub open spec fn sql_spec(self) -> Seq<char> {
        match self {
            FilterOperator::Equal => "="@,
            FilterOperator::NotEqual => "!="@,
            FilterOperator::GreaterThan => ">"@,
            FilterOperator::LessThan => "<"@,
            FilterOperator::GreaterOrEqual => ">="@,
            FilterOperator::LessOrEqual => "<="@,
            FilterOperator::Like => "LIKE"@,
            FilterOperator::NotLike => "NOT LIKE"@,
            FilterOperator::In => "IN"@,
            FilterOperator::NotIn => "NOT IN"@,
            FilterOperator::Between => "BETWEEN"@,
            FilterOperator::IsNull => "IS NULL"@,
            FilterOperator::IsNotNull => "IS NOT NULL"@,
            FilterOperator::IsTrue => "= TRUE"@,
            FilterOperator::IsFalse => "= FALSE"@,
        }
    }

    /// The operator as SQL text.
    pub fn to_sql(&self) -> (r: &'static str)
        ensures
            r@ == self.sql_spec(),
    {
        match self {
            FilterOperator::Equal => "=",
            FilterOperator::NotEqual => "!=",
            FilterOperator::GreaterThan => ">",
            FilterOperator::LessThan => "<",
            FilterOperator::GreaterOrEqual => ">=",
            FilterOperator::LessOrEqual => "<=",
            FilterOperator::Like => "LIKE",
            FilterOperator::NotLike => "NOT LIKE",
            FilterOperator::In => "IN",
            FilterOperator::NotIn => "NOT IN",
            FilterOperator::Between => "BETWEEN",
            FilterOperator::IsNull => "IS NULL",
            FilterOperator::IsNotNull => "IS NOT NULL",
            FilterOperator::IsTrue => "= TRUE",
            FilterOperator::IsFalse => "= FALSE",
        }
    }
}

/// Sort direction.
#[derive(Debug, Clone, Copy, PartialEq, Eq, Structural)]
pub enum SortDirection {
    Asc,
    Desc,
}

/// A table row change to persist.
#[derive(Debug, Clone)]
pub enum TableRowChange {
    Added { data: Vec<String> },
    Updated { original_data: Vec<String>, changes: Vec<TableCellChange>, rowid: Option<String> },
    Deleted { original_data: Vec<String>, rowid: Option<String> },
}

/// Kinds of SQL a selection of rows can be copied as.
#[derive(Debug, Clone, Copy, PartialEq, Eq, Structural)]
pub enum CopyAsSqlType {
    Insert,
    InsertWithComments,
    Update,
    Delete,
}

// ---------------------------------------------------------------------------
// Requests with builders
// ---------------------------------------------------------------------------

/// The names of the columns, in order.
pub open spec fn column_names(cols: Seq<ColumnInfo>) -> Seq<Seq<char>> {
    cols.map_values(|c: ColumnInfo| c.name@)
}

pub open spec fn names_view(v: Seq<String>) -> Seq<Seq<char>> {
    v.map_values(|s: String| s@)
}

/// Request for copying rows as SQL statements.
#[derive(Debug, Clone)]
pub struct CopySqlRequest {
    pub schema: Option<String>,
    pub table: String,
    pub columns: Vec<ColumnInfo>,
    pub rows: Vec<Vec<Option<String>>>,
    /// The rows before editing, for the WHERE clause of updates.
    pub original_rows: Option<Vec<Vec<Option<String>>>>,
    pub column_names: Vec<String>,
}

impl CopySqlRequest {
    /// A request over `columns`, with their names and no rows yet.
    pub fn new(table: String, columns: Vec<ColumnInfo>) -> (r: CopySqlRequest)
        ensures
            r.schema is None,
            r.table == table,
            r.columns == columns,
            r.rows@.len() == 0,
            r.original_rows is None,
            names_view(r.column_names@) == column_names(columns@),
    {
        let mut names: Vec<String> = Vec::new();
        let mut i: usize = 0;
        while i < columns.len()
            invariant
                i <= columns.len(),
                names_view(names@) == column_names(columns@.subrange(0, i as int)),
            decreases columns.len() - i,
        {
            let ghost before = names@;
            let n = columns[i].name.clone();
            names.push(n);
            proof {
                assert(names_view(names@) =~= names_view(before).push(n@));
                assert(column_names(columns@.subrange(0, i + 1)) =~= column_names(
                    columns@.subrange(0, i as int),
                ).push(columns@[i as int].name@));
            }
            i += 1;
        }
        assert(columns@.subrange(0, columns@.len() as int) =~= columns@);
        CopySqlRequest {
            schema: None,
            table,
            columns,
            rows: Vec::new(),
            original_rows: None,
            column_names: names,
        }
    }

    pub fn with_schema(self, schema: String) -> (r: CopySqlRequest)
        ensures
            r == (CopySqlRequest { schema: Some(schema), ..self }),
    {
        let mut s = self;
        s.schema = Some(schema);
        s
    }

    pub fn with_rows(self, rows: Vec<Vec<Option<String>>>) -> (r: CopySqlRequest)
        ensures
            r == (CopySqlRequest { rows, ..self }),
    {
        let mut s = self;
        s.rows = rows;
        s
    }

    pub fn with_original_rows(self, original_rows: Vec<Vec<Option<String>>>) -> (r: CopySqlRequest)
        ensures
            r == (CopySqlRequest { original_rows: Some(original_rows), ..self }),
    {
        let mut s = self;
        s.original_rows = Some(original_rows);
        s
    }

    pub fn with_column_names(self, column_names: Vec<String>) -> (r: CopySqlRequest)
        ensures
            r == (CopySqlRequest { column_names, ..self }),
    {
        let mut s = self;
        s.column_names = column_names;
        s
    }
}

/// Request for one page of table data.
#[derive(Debug, Clone)]
pub struct TableDataRequest {
    pub database: String,
    pub schema: Option<String>,
    pub table: String,
    /// Page number, from 1.
    pub page: usize,
    pub page_size: usize,
    pub filters: Vec<FilterCondition>,
    pub sorts: Vec<SortCondition>,
    /// Raw WHERE clause.
    pub where_clause: Option<String>,
    /// Raw ORDER BY clause.
    pub order_by_clause: Option<String>,
}

/// A raw clause as stored: an empty clause is none.
pub open spec fn clause_of(c: String) -> Option<String> {
    if c@.len() == 0 {
        None
    } else {
        Some(c)
    }
}

impl TableDataRequest {
    /// The first page of 100 rows, unfiltered and unsorted.
    pub fn new(database: String, table: String) -> (r: TableDataRequest)
        ensures
            r.database == database,
            r.table == table,
            r.schema is None,
            r.page == 1,
            r.page_size == 100,
            r.filters@.len() == 0,
            r.sorts@.len() == 0,
            r.where_clause is None,
            r.order_by_clause is None,
    {
        TableDataRequest {
            database,
            schema: None,
            table,
            page: 1,
            page_size: 100,
            filters: Vec::new(),
            sorts: Vec::new(),
            where_clause: None,
            order_by_clause: None,
        }
    }

    pub fn with_schema(self, schema: String) -> (r: TableDataRequest)
        ensures
            r == (TableDataRequest { schema: Some(schema), ..self }),
    {
        let mut s = self;
        s.schema = Some(schema);
        s
    }

    pub fn with_page(self, page: usize, page_size: usize) -> (r: TableDataRequest)
        ensures
            r == (TableDataRequest { page, page_size, ..self }),
    {
        let mut s = self;
        s.page = page;
        s.page_size = page_size;
        s
    }

    /// Adds a filter after the others.
    pub fn with_filter(self, filter: FilterCondition) -> (r: TableDataRequest)
        ensures
            r.filters@ == self.filters@.push(filter),
            r == (TableDataRequest { filters: r.filters, ..self }),
    {
        let mut s = self;
        s.filters.push(filter);
        s
    }

    /// Adds a sort after the others.
    pub fn with_sort(self, sort: SortCondition) -> (r: TableDataRequest)
        ensures
            r.sorts@ == self.sorts@.push(sort),
            r == (TableDataRequest { sorts: r.sorts, ..self }),
    {
        let mut s = self;
        s.sorts.push(sort);
        s
    }

    /// Sets the raw WHERE clause; an empty one clears it.
    pub fn with_where_clause(self, clause: String) -> (r: TableDataRequest)
        ensures
            r == (TableDataRequest { where_clause: clause_of(clause), ..self }),
    {
        let mut s = self;
        s.where_clause = if clause.as_str().is_empty() {
            None
        } else {
            Some(clause)
        };
        s
    }

    /// Sets the raw ORDER BY clause; an empty one clears it.
    pub fn with_order_by_clause(self, clause: String) -> (r: TableDataRequest)
        ensures
            r == (TableDataRequest { order_by_clause: clause_of(clause), ..self }),
    {
        let mut s = self;
        s.order_by_clause = if clause.as_str().is_empty() {
            None
        } else {
            Some(clause)
        };
        s
    }
}

// ---------------------------------------------------------------------------
// Table designer
// ---------------------------------------------------------------------------

/// Column definition of the table designer.
#[derive(Debug, Clone)]
pub struct ColumnDefinition {
    pub name: String,
    pub data_type: String,
    pub length: Option<u32>,
    pub precision: Option<u32>,
    pub scale: Option<u32>,
    pub is_nullable: bool,
    pub is_primary_key: bool,
    pub is_auto_increment: bool,
    pub is_unsigned: bool,
    pub default_value: Option<String>,
    pub comment: String,
    pub charset: Option<String>,
    pub collation: Option<String>,
}

impl ColumnDefinition {
    /// A nullable column with no type yet and nothing else set.
    pub fn new(name: String) -> (r: ColumnDefinition)
        ensures
            r.name == name,
            r.data_type@.len() == 0,
            r.length is None,
            r.precision is None,
            r.scale is None,
            r.is_nullable,
            !r.is_primary_key,
            !r.is_auto_increment,
            !r.is_unsigned,
            r.default_value is None,
            r.comment@.len() == 0,
            r.charset is None,
            r.collation is None,
    {
        ColumnDefinition {
            name,
            data_type: String::new(),
            length: None,
            precision: None,
            scale: None,
            is_nullable: true,
            is_primary_key: false,
            is_auto_increment: false,
            is_unsigned: false,
            default_value: None,
            comment: String::new(),
            charset: None,
            collation: None,
        }
    }

    pub fn data_type(self, data_type: String) -> (r: ColumnDefinition)
        ensures
            r == (ColumnDefinition { data_type, ..self }),
    {
        let mut s = self;
        s.data_type = data_type;
        s
    }

    pub fn length(self, length: u32) -> (r: ColumnDefinition)
        ensures
            r == (ColumnDefinition { length: Some(length), ..self }),
    {
        let mut s = self;
        s.length = Some(length);
        s
    }

    pub fn nullable(self, nullable: bool) -> (r: ColumnDefinition)
        ensures
            r == (ColumnDefinition { is_nullable: nullable, ..self }),
    {
        let mut s = self;
        s.is_nullable = nullable;
        s
    }

    pub fn primary_key(self, pk: bool) -> (r: ColumnDefinition)
        ensures
            r == (ColumnDefinition { is_primary_key: pk, ..self }),
    {
        let mut s = self;
        s.is_primary_key = pk;
        s
    }

    pub fn auto_increment(self, ai: bool) -> (r: ColumnDefinition)
        ensures
            r == (ColumnDefinition { is_auto_increment: ai, ..self }),
    {
        let mut s = self;
        s.is_auto_increment = ai;
        s
    }

    pub fn default_value(self, value: String) -> (r: ColumnDefinition)
        ensures
            r == (ColumnDefinition { default_value: Some(value), ..self }),
    {
        let mut s = self;
        s.default_value = Some(value);
        s
    }

    pub fn comment(self, comment: String) -> (r: ColumnDefinition)
        ensures
            r == (ColumnDefinition { comment, ..self }),
    {
        let mut s = self;
        s.comment = comment;
        s
    }
}

/// Index definition of the table designer.
#[derive(Debug, Clone)]
pub struct IndexDefinition {
    pub name: String,
    pub columns: Vec<String>,
    pub is_unique: bool,
    pub is_primary: bool,
    pub index_type: Option<String>,
    pub comment: String,
}

impl IndexDefinition {
    /// A plain index with no columns yet.
    pub fn new(name: String) -> (r: IndexDefinition)
        ensures
            r.name == name,
            r.columns@.len() == 0,
            !r.is_unique,
            !r.is_primary,
            r.index_type is None,
            r.comment@.len() == 0,
    {
        IndexDefinition {
            name,
            columns: Vec::new(),
            is_unique: false,
            is_primary: false,
            index_type: None,
            comment: String::new(),
        }
    }

    pub fn columns(self, columns: Vec<String>) -> (r: IndexDefinition)
        ensures
            r == (IndexDefinition { columns, ..self }),
    {
        let mut s = self;
        s.columns = columns;
        s
    }

    pub fn unique(self, unique: bool) -> (r: IndexDefinition)
        ensures
            r == (IndexDefinition { is_unique: unique, ..self }),
    {
        let mut s = self;
        s.is_unique = unique;
        s
    }

    pub fn primary(self, primary: bool) -> (r: IndexDefinition)
        ensures
            r == (IndexDefinition { is_primary: primary, ..self }),
    {
        let mut s = self;
        s.is_primary = primary;
        s
    }
}

/// Complete table design.
#[derive(Debug, Clone)]
pub struct TableDesign {
    pub database_name: String,
    pub table_name: String,
    pub columns: Vec<ColumnDefinition>,
    pub indexes: Vec<IndexDefinition>,
    pub foreign_keys: Vec<ForeignKeyDefinition>,
    pub options: TableOptions,
}

/// Names of the primary key columns, in column order.
pub open spec fn primary_key_names(cols: Seq<ColumnDefinition>) -> Seq<Seq<char>>
    decreases cols.len(),
{
    if cols.len() == 0 {
        Seq::empty()
    } else if cols.last().is_primary_key {
        primary_key_names(cols.drop_last()).push(cols.last().name@)
    } else {
        primary_key_names(cols.drop_last())
    }
}

impl TableDesign {
    /// An empty design for a table.
    pub fn new(database_name: String, table_name: String) -> (r: TableDesign)
        ensures
            r.database_name == database_name,
            r.table_name == table_name,
            r.columns@.len() == 0,
            r.indexes@.len() == 0,
            r.foreign_keys@.len() == 0,
            r.options.engine is None,
            r.options.charset is None,
            r.options.collation is None,
            r.options.comment@.len() == 0,
            r.options.auto_increment is None,
    {
        TableDesign {
            database_name,
            table_name,
            columns: Vec::new(),
            indexes: Vec::new(),
            foreign_keys: Vec::new(),
            options: TableOptions {
                engine: None,
                charset: None,
                collation: None,
                comment: String::new(),
                auto_increment: None,
            },
        }
    }

    /// Appends a column.
    pub fn add_column(&mut self, column: ColumnDefinition)
        ensures
            final(self).columns@ == old(self).columns@.push(column),
            *final(self) == (TableDesign { columns: final(self).columns, ..*old(self) }),
    {
        self.columns.push(column);
    }

    /// Appends an index.
    pub fn add_index(&mut self, index: IndexDefinition)
        ensures
            final(self).indexes@ == old(self).indexes@.push(index),
            *final(self) == (TableDesign { indexes: final(self).indexes, ..*old(self) }),
    {
        self.indexes.push(index);
    }

    /// Names of the primary key columns, in column order.
    pub fn primary_key_columns(&self) -> (r: Vec<&str>)
        ensures
            r@.map_values(|s: &str| s@) == primary_key_names(self.columns@),
    {
        let mut out: Vec<&str> = Vec::new();
        let mut i: usize = 0;
        while i < self.columns.len()
            invariant
                i <= self.columns.len(),
                out@.map_values(|s: &str| s@) == primary_key_names(self.columns@.subrange(0, i as int)),
            decreases self.columns.len() - i,
        {
            let ghost pre = self.columns@.subrange(0, i as int);
            let ghost post = self.columns@.subrange(0, i + 1);
            assert(post.drop_last() =~= pre);
            if self.columns[i].is_primary_key {
                out.push(self.columns[i].name.as_str());
            }
            assert(out@.map_values(|s: &str| s@) =~= primary_key_names(post));
            i += 1;
        }
        assert(self.columns@.subrange(0, self.columns@.len() as int) =~= self.columns@);
        out
    }
}

/// A column type read from its definition.
#[derive(Debug, Clone)]
pub struct ParsedColumnType {
    pub base_type: String,
    pub length: Option<u32>,
    pub scale: Option<u32>,
    pub enum_values: Option<String>,
    pub is_unsigned: bool,
    pub is_auto_increment: bool,
}

impl ParsedColumnType {
    /// A type with only its base name set.
    pub fn new(base_type: String) -> (r: ParsedColumnType)
        ensures
            r.base_type == base_type,
            r.length is None,
            r.scale is None,
            r.enum_values is None,
            !r.is_unsigned,
            !r.is_auto_increment,
    {
        ParsedColumnType {
            base_type,
            length: None,
            scale: None,
            enum_values: None,
            is_unsigned: false,
            is_auto_increment: false,
        }
    }

    pub fn with_length(self, length: u32) -> (r: ParsedColumnType)
        ensures
            r == (ParsedColumnType { length: Some(length), ..self }),
    {
        let mut s = self;
        s.length = Some(length);
        s
    }

    pub fn with_scale(self, scale: u32) -> (r: ParsedColumnType)
        ensures
            r == (ParsedColumnType { scale: Some(scale), ..self }),
    {
        let mut s = self;
        s.scale = Some(scale);
        s
    }

    pub fn with_enum_values(self, values: String) -> (r: ParsedColumnType)
        ensures
            r == (ParsedColumnType { enum_values: Some(values), ..self }),
    {
        let mut s = self;
        s.enum_values = Some(values);
        s
    }

    pub fn with_unsigned(self, unsigned: bool) -> (r: ParsedColumnType)
        ensures
            r == (ParsedColumnType { is_unsigned: unsigned, ..self }),
    {
        let mut s = self;
        s.is_unsigned = unsigned;
        s
    }

    pub fn with_auto_increment(self, auto_increment: bool) -> (r: ParsedColumnType)
        ensures
            r == (ParsedColumnType { is_auto_increment: auto_increment, ..self }),
    {
        let mut s = self;
        s.is_auto_increment = auto_increment;
        s
    }
}

// ---------------------------------------------------------------------------
// Records
// ---------------------------------------------------------------------------

/// Database information.
#[derive(Debug, Clone)]
pub struct DatabaseInfo {
    pub name: String,
    pub charset: Option<String>,
    pub collation: Option<String>,
    pub size: Option<String>,
    pub table_count: Option<i64>,
    pub comment: Option<String>,
}

/// Column information.
#[derive(Debug, Clone)]
pub struct ColumnInfo {
    pub name: String,
    pub data_type: String,
    pub is_nullable: bool,
    pub is_primary_key: bool,
    pub default_value: Option<String>,
    pub comment: Option<String>,
    pub charset: Option<String>,
    pub collation: Option<String>,
}

/// Index information.
#[derive(Debug, Clone)]
pub struct IndexInfo {
    pub name: String,
    pub columns: Vec<String>,
    pub is_unique: bool,
    pub index_type: Option<String>,
}

/// Table information.
#[derive(Debug, Clone)]
pub struct TableInfo {
    pub name: String,
    pub schema: Option<String>,
    pub comment: Option<String>,
    pub engine: Option<String>,
    pub row_count: Option<i64>,
    pub create_time: Option<String>,
    pub charset: Option<String>,
    pub collation: Option<String>,
}

/// View information.
#[derive(Debug, Clone)]
pub struct ViewInfo {
    pub name: String,
    pub schema: Option<String>,
    pub definition: Option<String>,
    pub comment: Option<String>,
}

/// Function information.
#[derive(Debug, Clone)]
pub struct FunctionInfo {
    pub name: String,
    pub return_type: Option<String>,
    pub parameters: Vec<String>,
    pub definition: Option<String>,
    pub comment: Option<String>,
}

/// Trigger information.
#[derive(Debug, Clone)]
pub struct TriggerInfo {
    pub name: String,
    pub table_name: String,
    pub event: String,
    pub timing: String,
    pub definition: Option<String>,
}

/// Sequence information.
#[derive(Debug, Clone)]
pub struct SequenceInfo {
    pub name: String,
    pub start_value: Option<i64>,
    pub increment: Option<i64>,
    pub min_value: Option<i64>,
    pub max_value: Option<i64>,
}

/// Check constraint information.
#[derive(Debug, Clone)]
pub struct CheckInfo {
    pub name: String,
    pub table_name: String,
    pub definition: Option<String>,
}

/// Request to create a database object.
#[derive(Debug, Clone)]
pub struct CreateDatabaseRequest {
    pub database_name: String,
    pub charset: Option<String>,
    pub collation: Option<String>,
}

/// Request to drop a database object.
#[derive(Debug, Clone)]
pub struct DropDatabaseRequest {
    pub database_name: String,
    pub if_exists: bool,
}

/// Request to alter a database object.
#[derive(Debug, Clone)]
pub struct AlterDatabaseRequest {
    pub database_name: String,
    pub charset: Option<String>,
    pub collation: Option<String>,
}

/// Request to create a database object.
#[derive(Debug, Clone)]
pub struct CreateTableRequest {
    pub database_name: String,
    pub table_name: String,
    pub columns: Vec<ColumnInfo>,
    pub if_not_exists: bool,
}

/// Request to drop a database object.
#[derive(Debug, Clone)]
pub struct DropTableRequest {
    pub database_name: String,
    pub table_name: String,
    pub if_exists: bool,
}

/// Request to rename a database object.
#[derive(Debug, Clone)]
pub struct RenameTableRequest {
    pub database_name: String,
    pub old_table_name: String,
    pub new_table_name: String,
}

/// Request to truncate a database object.
#[derive(Debug, Clone)]
pub struct TruncateTableRequest {
    pub database_name: String,
    pub table_name: String,
}

/// Request to add a database object.
#[derive(Debug, Clone)]
pub struct AddColumnRequest {
    pub database_name: String,
    pub table_name: String,
    pub column: ColumnInfo,
}

/// Request to drop a database object.
#[derive(Debug, Clone)]
pub struct DropColumnRequest {
    pub database_name: String,
    pub table_name: String,
    pub column_name: String,
}

/// Request to modify a database object.
#[derive(Debug, Clone)]
pub struct ModifyColumnRequest {
    pub database_name: String,
    pub table_name: String,
    pub column: ColumnInfo,
}

/// Request to create a database object.
#[derive(Debug, Clone)]
pub struct CreateIndexRequest {
    pub database_name: String,
    pub table_name: String,
    pub index: IndexInfo,
}

/// Request to drop a database object.
#[derive(Debug, Clone)]
pub struct DropIndexRequest {
    pub database_name: String,
    pub table_name: String,
    pub index_name: String,
}

/// Request to create a database object.
#[derive(Debug, Clone)]
pub struct CreateViewRequest {
    pub database_name: String,
    pub view_name: String,
    pub definition: String,
    pub or_replace: bool,
}

/// Request to drop a database object.
#[derive(Debug, Clone)]
pub struct DropViewRequest {
    pub database_name: String,
    pub view_name: String,
    pub if_exists: bool,
}

/// Request to create a database object.
#[derive(Debug, Clone)]
pub struct CreateFunctionRequest {
    pub database_name: String,
    pub definition: String,
}

/// Request to drop a database object.
#[derive(Debug, Clone)]
pub struct DropFunctionRequest {
    pub database_name: String,
    pub function_name: String,
    pub if_exists: bool,
}

/// Request to create a database object.
#[derive(Debug, Clone)]
pub struct CreateProcedureRequest {
    pub database_name: String,
    pub definition: String,
}

/// Request to drop a database object.
#[derive(Debug, Clone)]
pub struct DropProcedureRequest {
    pub database_name: String,
    pub procedure_name: String,
    pub if_exists: bool,
}

/// Request to create a database object.
#[derive(Debug, Clone)]
pub struct CreateTriggerRequest {
    pub database_name: String,
    pub definition: String,
}

/// Request to drop a database object.
#[derive(Debug, Clone)]
pub struct DropTriggerRequest {
    pub database_name: String,
    pub trigger_name: String,
    pub if_exists: bool,
}

/// Request to create a database object.
#[derive(Debug, Clone)]
pub struct CreateSequenceRequest {
    pub database_name: String,
    pub sequence: SequenceInfo,
}

/// Request to drop a database object.
#[derive(Debug, Clone)]
pub struct DropSequenceRequest {
    pub database_name: String,
    pub sequence_name: String,
    pub if_exists: bool,
}

/// Request to alter a database object.
#[derive(Debug, Clone)]
pub struct AlterSequenceRequest {
    pub database_name: String,
    pub sequence: SequenceInfo,
}

/// Column metadata for table data display.
#[derive(Debug, Clone)]
pub struct TableColumnMeta {
    pub name: String,
    pub db_type: String,
    pub field_type: FieldType,
    pub nullable: bool,
    pub is_primary_key: bool,
    pub index: usize,
}

/// A filter on one column.
#[derive(Debug, Clone)]
pub struct FilterCondition {
    pub column: String,
    pub operator: FilterOperator,
    pub value: String,
}

/// A sort on one column.
#[derive(Debug, Clone)]
pub struct SortCondition {
    pub column: String,
    pub direction: SortDirection,
}

/// One edited cell.
#[derive(Debug, Clone)]
pub struct TableCellChange {
    pub column_index: usize,
    pub column_name: String,
    pub old_value: String,
    pub new_value: String,
}

/// Edits to write back to a table.
#[derive(Debug, Clone)]
pub struct TableSaveRequest {
    pub database: String,
    pub schema: Option<String>,
    pub table: String,
    pub columns: Vec<ColumnInfo>,
    pub index_infos: Vec<IndexInfo>,
    pub changes: Vec<TableRowChange>,
}

/// Outcome of writing edits back.
#[derive(Debug, Clone)]
pub struct TableSaveResponse {
    pub success_count: usize,
    pub errors: Vec<String>,
}

/// Name and database type of a result column.
#[derive(Debug, Clone)]
pub struct QueryColumnMeta {
    pub name: String,
    pub db_type: String,
}

/// Rows returned by a query.
#[derive(Debug, Clone)]
pub struct QueryResult {
    pub sql: String,
    pub columns: Vec<String>,
    pub column_meta: Vec<QueryColumnMeta>,
    pub rows: Vec<Vec<Option<String>>>,
    pub elapsed_ms: u128,
}

/// One page of table data.
#[derive(Debug, Clone)]
pub struct TableDataResponse {
    pub query_result: QueryResult,
    pub total_count: usize,
    pub page: usize,
    pub page_size: usize,
    pub duration: u128,
}

/// Character set information.
#[derive(Debug, Clone)]
pub struct CharsetInfo {
    pub name: String,
    pub description: String,
    pub default_collation: String,
}

/// Collation information.
#[derive(Debug, Clone)]
pub struct CollationInfo {
    pub name: String,
    pub charset: String,
    pub is_default: bool,
}

/// Foreign key definition.
#[derive(Debug, Clone)]
pub struct ForeignKeyDefinition {
    pub name: String,
    pub columns: Vec<String>,
    pub ref_table: String,
    pub ref_columns: Vec<String>,
    pub on_delete: String,
    pub on_update: String,
}

/// Table options (engine, charset and so on).
#[derive(Debug, Clone)]
pub struct TableOptions {
    pub engine: Option<String>,
    pub charset: Option<String>,
    pub collation: Option<String>,
    pub comment: String,
    pub auto_increment: Option<u64>,
}
} // verus!
