//! Update checks: version comparison, choosing the download, naming the
//! downloaded file, and formatting download sizes.
use vstd::prelude::*;
use crate::text::{
    decimal, digit_char, u64_to_decimal, push_str, push_char, str_to_owned, chars_of, trim,
    trim_string, all_digits,
};
use crate::models::opt_view;
use crate::db_types::{seq_order, lemma_seq_order_antisym};

verus! {

// ---------------------------------------------------------------------------
// Download sizes
// ---------------------------------------------------------------------------

/// 2^53: one past the largest integer of a 53-bit mantissa.
pub open spec fn mantissa_limit() -> nat {
    9007199254740992
}

/// The power of two by which `v` has to be scaled down to fit a 53-bit
/// mantissa (1 for `v < 2^53`), searching from `p`.
pub open spec fn mantissa_scale(v: nat, p: nat) -> nat
    decreases v + 1 - p,
{
    if p == 0 {
        1
    } else if v < p * mantissa_limit() {
        p
    } else {
        mantissa_scale(v, 2 * p)
    }
}

/// `a / d` rounded to the nearest integer, ties to even.
pub open spec fn div_round_half_even(a: nat, d: nat) -> nat
    recommends
        d > 0,
{
    let q = a / d;
    let r = a % d;
    if 2 * r > d || (2 * r == d && q % 2 == 1) {
        q + 1
    } else {
        q
    }
}

/// The value of `v as f64`: `v` rounded to 53 significant bits, ties to even.
pub open spec fn as_f64(v: nat) -> nat {
    let p = mantissa_scale(v, 1);
    div_round_half_even(v, p) * p
}

/// `n / 10^k` written with `k` decimals (`k` is 1 or 2).
pub open spec fn fixed_point(n: nat, k: nat) -> Seq<char> {
    if k == 1 {
        decimal(n / 10) + "."@ + seq![digit_char(n % 10)]
    } else {
        decimal(n / 100) + "."@ + seq![digit_char((n / 10) % 10), digit_char(n % 10)]
    }
}

/// What `format_bytes` shows: whole bytes below 1 KiB, else tenths of KiB,
/// hundredths of MiB or hundredths of GiB of the size as a double, rounded
/// to the nearest, ties to even.
pub open spec fn format_bytes_spec(value: u64) -> Seq<char> {
    let f = as_f64(value as nat);
    if f >= 1073741824 {
        fixed_point(div_round_half_even(f * 100, 1073741824), 2) + " GB"@
    } else if f >= 1048576 {
        fixed_point(div_round_half_even(f * 100, 1048576), 2) + " MB"@
    } else if f >= 1024 {
        fixed_point(div_round_half_even(f * 10, 1024), 1) + " KB"@
    } else {
        decimal(f) + " B"@
    }
}

fn round_half_even(a: u128, d: u128) -> (r: u128)
    requires
        d > 0,
        a < 0x1_0000_0000_0000_0000_0000_0000,
    ensures
        r == div_round_half_even(a as nat, d as nat),
        r <= a / d + 1,
{
    let q = a / d;
    let r = a % d;
    if r > d - r || (r == d - r && q % 2 == 1) {
        q + 1
    } else {
        q
    }
}

/// Appends `n / 10^k` with `k` decimals.
fn push_fixed_point(out: &mut String, n: u128, k: u128)
    requires
        k == 1 || k == 2,
        n < 0x1_0000_0000_0000_0000,
    ensures
        final(out)@ == old(out)@ + fixed_point(n as nat, k as nat),
{
    if k == 1 {
        let whole = u64_to_decimal((n / 10) as u64);
        push_str(out, whole.as_str());
        push_str(out, ".");
        push_char(out, digit((n % 10) as u32));
    } else {
        let whole = u64_to_decimal((n / 100) as u64);
        push_str(out, whole.as_str());
        push_str(out, ".");
        push_char(out, digit(((n / 10) % 10) as u32));
        push_char(out, digit((n % 10) as u32));
    }
    proof {
        assert(final(out)@ =~= old(out)@ + fixed_point(n as nat, k as nat));
    }
}

fn digit(d: u32) -> (c: char)
    requires
        d < 10,
    ensures
        c == digit_char(d as nat),
{
    let b: u8 = 48u8 + (d as u8);
    b as char
}

/// A byte count as the update dialog shows it (`"0 B"`, `"1.0 KB"`,
/// `"3.25 MB"`, `"1.50 GB"`).
pub fn format_bytes(value: u64) -> (r: String)
    ensures
        r@ == format_bytes_spec(value),
{
    let v = value as u128;
    let mut p: u128 = 1;
    while v >= p * 9007199254740992
        invariant
            1 <= p <= 4096,
            v < 0x1_0000_0000_0000_0000,
            mantissa_scale(v as nat, p as nat) == mantissa_scale(v as nat, 1),
        decreases v + 1 - p,
    {
        p = p * 2;
    }
    let q = round_half_even(v, p);
    assert(q * p <= 0x1_0000_0000_0000_0000 * 4096) by (nonlinear_arith)
        requires
            q <= v / p + 1,
            v < 0x1_0000_0000_0000_0000,
            1 <= p <= 4096,
    {
        assert(v / p <= v);
    }
    let f = q * p;
    assert(f == as_f64(value as nat));
    let mut out = String::new();
    if f >= 1073741824 {
        let n = round_half_even(f * 100, 1073741824);
        assert(n < 0x1_0000_0000_0000_0000) by (nonlinear_arith)
            requires
                n <= f * 100 / 1073741824 + 1,
                f <= 0x1_0000_0000_0000_0000 * 4096,
        ;
        push_fixed_point(&mut out, n, 2);
        push_str(&mut out, " GB");
    } else if f >= 1048576 {
        let n = round_half_even(f * 100, 1048576);
        push_fixed_point(&mut out, n, 2);
        push_str(&mut out, " MB");
    } else if f >= 1024 {
        let n = round_half_even(f * 10, 1024);
        push_fixed_point(&mut out, n, 1);
        push_str(&mut out, " KB");
    } else {
        let whole = u64_to_decimal(f as u64);
        push_str(&mut out, whole.as_str());
        push_str(&mut out, " B");
    }
    out
}


// ---------------------------------------------------------------------------
// Versions
// ---------------------------------------------------------------------------

#[verifier::external_type_specification]
#[verifier::external_body]
pub struct ExVersion(semver::Version);

/// A semantic version as `semver` parsed it.
#[derive(Debug, PartialEq, Eq)]
pub struct SemVersion {
    major: u64,
    minor: u64,
    patch: u64,
    pre: String,
    build: String,
    raw: semver::Version,
}

impl View for SemVersion {
    type V = (u64, u64, u64, Seq<char>, Seq<char>);

    closed spec fn view(&self) -> (u64, u64, u64, Seq<char>, Seq<char>) {
        (self.major, self.minor, self.patch, self.pre@, self.build@)
    }
}

/// What `semver::Version::parse` gives for this text, as its parts.
pub uninterp spec fn semver_parse(s: Seq<char>) -> Option<(u64, u64, u64, Seq<char>, Seq<char>)>;

/// The dot-separated identifiers of a pre-release or build string, as
/// `str::split('.')` gives them (one empty identifier for the empty string).
pub open spec fn split_dots(s: Seq<char>) -> Seq<Seq<char>>
    decreases s.len(),
{
    if s.len() == 0 {
        seq![Seq::<char>::empty()]
    } else {
        let p = split_dots(s.drop_last());
        if s.last() == '.' {
            p.push(Seq::<char>::empty())
        } else {
            p.update(p.len() - 1, p.last().push(s.last()))
        }
    }
}

/// `s` without its leading zeros.
pub open spec fn trim_zeros(s: Seq<char>) -> Seq<char>
    decreases s.len(),
{
    if s.len() > 0 && s[0] == '0' {
        trim_zeros(s.drop_first())
    } else {
        s
    }
}

/// A sign (-1, 0, 1) comparing two numbers.
pub open spec fn sign_of(a: int, b: int) -> int {
    if a < b {
        -1
    } else if a > b {
        1
    } else {
        0
    }
}

/// How semver orders two pre-release identifiers: numeric ones by length,
/// then text; numeric before non-numeric; others as text.
pub open spec fn pre_ident_order(a: Seq<char>, b: Seq<char>) -> int {
    if all_digits(a) && all_digits(b) {
        if a.len() != b.len() {
            sign_of(a.len() as int, b.len() as int)
        } else {
            seq_order(a, b)
        }
    } else if all_digits(a) {
        -1
    } else if all_digits(b) {
        1
    } else {
        seq_order(a, b)
    }
}

/// How semver orders two build identifiers: numeric ones by length and
/// text without leading zeros, then by full length; numeric before
/// non-numeric; others as text.
pub open spec fn build_ident_order(a: Seq<char>, b: Seq<char>) -> int {
    if all_digits(a) && all_digits(b) {
        let (x, y) = (trim_zeros(a), trim_zeros(b));
        if x.len() != y.len() {
            sign_of(x.len() as int, y.len() as int)
        } else if seq_order(x, y) != 0 {
            seq_order(x, y)
        } else {
            sign_of(a.len() as int, b.len() as int)
        }
    } else if all_digits(a) {
        -1
    } else if all_digits(b) {
        1
    } else {
        seq_order(a, b)
    }
}

/// Identifier lists compared in turn; where one is a prefix of the other,
/// the longer is greater.
pub open spec fn ident_list_order(a: Seq<Seq<char>>, b: Seq<Seq<char>>, build: bool) -> int
    decreases a.len(),
{
    if a.len() == 0 {
        if b.len() == 0 {
            0
        } else {
            -1
        }
    } else if b.len() == 0 {
        1
    } else {
        let o = if build {
            build_ident_order(a[0], b[0])
        } else {
            pre_ident_order(a[0], b[0])
        };
        if o != 0 {
            o
        } else {
            ident_list_order(a.drop_first(), b.drop_first(), build)
        }
    }
}

/// How `semver::Prerelease::cmp` orders two pre-release strings (-1, 0 or
/// 1): equal strings are equal; no pre-release is greater than any; else
/// identifier by identifier.
pub open spec fn pre_cmp(a: Seq<char>, b: Seq<char>) -> int {
    if a == b {
        0
    } else if a.len() == 0 {
        1
    } else if b.len() == 0 {
        -1
    } else {
        ident_list_order(split_dots(a), split_dots(b), false)
    }
}

/// How `semver::BuildMetadata::cmp` orders two build strings (-1, 0 or 1).
pub open spec fn build_cmp(a: Seq<char>, b: Seq<char>) -> int {
    if a == b {
        0
    } else {
        ident_list_order(split_dots(a), split_dots(b), true)
    }
}

/// `a > b` in the order `semver::Version` derives: by major, minor and
/// patch, then pre-release, then build metadata.
pub open spec fn version_gt(a: (u64, u64, u64, Seq<char>, Seq<char>), b: (u64, u64, u64, Seq<char>, Seq<char>)) -> bool {
    if a.0 != b.0 {
        a.0 > b.0
    } else if a.1 != b.1 {
        a.1 > b.1
    } else if a.2 != b.2 {
        a.2 > b.2
    } else if pre_cmp(a.3, b.3) != 0 {
        pre_cmp(a.3, b.3) > 0
    } else {
        build_cmp(a.4, b.4) > 0
    }
}

/// Parses a version with `semver::Version::parse`.
#[verifier::external_body]
fn semver_version_parse(s: &str) -> (r: Option<SemVersion>)
    ensures
        match r {
            Some(v) => semver_parse(s@) == Some(v@),
            None => semver_parse(s@) is None,
        },
{
    match semver::Version::parse(s) {
        Ok(v) => Some(SemVersion {
            major: v.major,
            minor: v.minor,
            patch: v.patch,
            pre: v.pre.as_str().to_string(),
            build: v.build.as_str().to_string(),
            raw: v,
        }),
        Err(_) => None,
    }
}

/// A release version with `semver::Version::new`.
#[verifier::external_body]
fn semver_version_new(major: u64, minor: u64, patch: u64) -> (r: SemVersion)
    ensures
        r@ == (major, minor, patch, Seq::<char>::empty(), Seq::<char>::empty()),
{
    SemVersion {
        major,
        minor,
        patch,
        pre: String::new(),
        build: String::new(),
        raw: semver::Version::new(major, minor, patch),
    }
}

/// Compares with the `Ord` that `semver::Version` derives.
#[verifier::external_body]
fn semver_version_gt(a: &SemVersion, b: &SemVersion) -> (r: bool)
    ensures
        r == version_gt(a@, b@),
{
    a.raw > b.raw
}

impl SemVersion {
    /// A release version (no pre-release, no build metadata).
    pub fn new(major: u64, minor: u64, patch: u64) -> (r: SemVersion)
        ensures
            r@ == (major, minor, patch, Seq::<char>::empty(), Seq::<char>::empty()),
    {
        semver_version_new(major, minor, patch)
    }

    pub fn major(&self) -> (r: u64)
        ensures
            r == self@.0,
    {
        self.major
    }

    pub fn minor(&self) -> (r: u64)
        ensures
            r == self@.1,
    {
        self.minor
    }

    pub fn patch(&self) -> (r: u64)
        ensures
            r == self@.2,
    {
        self.patch
    }

    /// Whether `self` orders after `other`.
    pub fn is_newer_than(&self, other: &SemVersion) -> (r: bool)
        ensures
            r == version_gt(self@, other@),
    {
        semver_version_gt(self, other)
    }
}

/// The text `parse_version` hands to semver: trimmed, without one leading `v`.
pub open spec fn version_text(value: Seq<char>) -> Seq<char> {
    let t = trim(value);
    if t.len() > 0 && t[0] == 'v' {
        t.drop_first()
    } else {
        t
    }
}

/// Parses `v1.2.3` or `1.2.3` (surrounding whitespace allowed).
pub fn parse_version(value: &str) -> (r: Option<SemVersion>)
    ensures
        match r {
            Some(v) => semver_parse(version_text(value@)) == Some(v@),
            None => semver_parse(version_text(value@)) is None,
        },
{
    let t = trim_string(value);
    let cs = chars_of(t.as_str());
    let text = if cs.len() > 0 && cs[0] == 'v' {
        let r = crate::text::string_from_range(cs.as_slice(), 1, cs.len());
        assert(r@ =~= version_text(value@));
        r
    } else {
        t
    };
    semver_version_parse(text.as_str())
}

/// The version order is a strict order: never both ways, never reflexive.
pub proof fn law_version_order_release(a: (u64, u64, u64, Seq<char>, Seq<char>), b: (u64, u64, u64, Seq<char>, Seq<char>))
    requires
        a.3.len() == 0,
        b.3.len() == 0,
        a.4.len() == 0,
        b.4.len() == 0,
    ensures
        !version_gt(a, a),
        version_gt(a, b) ==> !version_gt(b, a),
        version_gt(a, b) <==> (a.0 > b.0 || (a.0 == b.0 && (a.1 > b.1 || (a.1 == b.1 && a.2 > b.2)))),
{
    assert(a.3 =~= b.3);
    assert(a.4 =~= b.4);
}

proof fn lemma_ident_list_antisym(a: Seq<Seq<char>>, b: Seq<Seq<char>>, build: bool)
    ensures
        ident_list_order(a, b, build) == -ident_list_order(b, a, build),
    decreases a.len(),
{
    if a.len() > 0 && b.len() > 0 {
        lemma_seq_order_antisym(a[0], b[0]);
        lemma_seq_order_antisym(trim_zeros(a[0]), trim_zeros(b[0]));
        lemma_ident_list_antisym(a.drop_first(), b.drop_first(), build);
    }
}

/// The version order is a strict order: no version is greater than
/// itself, and of two versions at most one is greater than the other.
pub proof fn law_version_order_strict(a: (u64, u64, u64, Seq<char>, Seq<char>), b: (u64, u64, u64, Seq<char>, Seq<char>))
    ensures
        !version_gt(a, a),
        version_gt(a, b) ==> !version_gt(b, a),
{
    lemma_ident_list_antisym(split_dots(a.3), split_dots(b.3), false);
    lemma_ident_list_antisym(split_dots(a.4), split_dots(b.4), true);
    if a.3.len() == 0 && b.3.len() == 0 {
        assert(a.3 =~= b.3);
    }
    assert(pre_cmp(a.3, b.3) == -pre_cmp(b.3, a.3));
    assert(build_cmp(a.4, b.4) == -build_cmp(b.4, a.4));
}

// ---------------------------------------------------------------------------
// Update check decision
// ---------------------------------------------------------------------------

/// The platform the application runs on.
#[derive(Debug, Clone, Copy, PartialEq, Eq, Structural)]
pub enum Platform {
    Windows,
    MacOs,
    Linux,
    Other,
}

/// Per-platform downloads of a release.
#[derive(Debug)]
pub struct UpdateDownloads {
    pub windows: Option<String>,
    pub macos: Option<String>,
    pub linux: Option<String>,
}

/// What the update endpoint answers.
#[derive(Debug)]
pub struct UpdateResponse {
    pub version: String,
    pub download_url: Option<String>,
    pub downloads: Option<UpdateDownloads>,
    pub release_notes: Option<String>,
}

/// What the update dialog shows.
#[derive(Debug)]
pub struct UpdateDialogInfo {
    pub current_version: String,
    pub latest_version: String,
    pub download_url: Option<String>,
    pub release_notes: Option<String>,
}

fn clone_opt(o: &Option<String>) -> (r: Option<String>)
    ensures
        r == *o,
{
    match o {
        Some(s) => Some(s.clone()),
        None => None,
    }
}

/// The download for this platform, if the response names one.
pub open spec fn platform_url(response: UpdateResponse, platform: Platform) -> Option<String> {
    match response.downloads {
        Some(d) => match platform {
            Platform::Windows => d.windows,
            Platform::MacOs => d.macos,
            Platform::Linux => d.linux,
            Platform::Other => None,
        },
        None => None,
    }
}

/// The platform's download, else the response's general download, else
/// the configured default.
pub open spec fn chosen_download(response: UpdateResponse, default_download_url: Option<String>, platform: Platform) -> Option<String> {
    if platform_url(response, platform) is Some {
        platform_url(response, platform)
    } else if response.download_url is Some {
        response.download_url
    } else {
        default_download_url
    }
}

pub fn select_download_url(response: &UpdateResponse, default_download_url: Option<String>, platform: Platform) -> (r: Option<String>)
    ensures
        r == chosen_download(*response, default_download_url, platform),
{
    let from_platform = match &response.downloads {
        Some(d) => match platform {
            Platform::Windows => clone_opt(&d.windows),
            Platform::MacOs => clone_opt(&d.macos),
            Platform::Linux => clone_opt(&d.linux),
            Platform::Other => None,
        },
        None => None,
    };
    if from_platform.is_some() {
        from_platform
    } else if response.download_url.is_some() {
        clone_opt(&response.download_url)
    } else {
        default_download_url
    }
}

/// Decides whether to offer an update: only when both versions parse and
/// the latest orders after the current one.
pub fn check_update(response: &UpdateResponse, current_version: &str, default_download_url: Option<String>, platform: Platform) -> (r: Option<UpdateDialogInfo>)
    ensures
        ({
            let latest = semver_parse(version_text(response.version@));
            let current = semver_parse(version_text(current_version@));
            match r {
                Some(info) => latest is Some && current is Some && version_gt(latest.unwrap(), current.unwrap())
                    && info.current_version@ == current_version@ && info.latest_version@ == response.version@
                    && info.download_url == chosen_download(*response, default_download_url, platform)
                    && info.release_notes == response.release_notes,
                None => !(latest is Some && current is Some && version_gt(latest.unwrap(), current.unwrap())),
            }
        }),
{
    let latest = match parse_version(response.version.as_str()) {
        Some(v) => v,
        None => return None,
    };
    let current = match parse_version(current_version) {
        Some(v) => v,
        None => return None,
    };
    if !latest.is_newer_than(&current) {
        return None;
    }
    let download_url = select_download_url(response, default_download_url, platform);
    Some(UpdateDialogInfo {
        current_version: str_to_owned(current_version),
        latest_version: response.version.clone(),
        download_url,
        release_notes: clone_opt(&response.release_notes),
    })
}

// ---------------------------------------------------------------------------
// Downloaded file
// ---------------------------------------------------------------------------

/// The path of the URI that `http::Uri::try_from` parses from the text, or
/// `None` where it does not parse.
pub uninterp spec fn uri_path(s: Seq<char>) -> Option<Seq<char>>;

/// Parses a URI with `http::Uri::try_from` and gives its path.
#[verifier::external_body]
fn http_uri_path(s: &str) -> (r: Option<String>)
    ensures
        opt_view(r) == uri_path(s@),
{
    match http::Uri::try_from(s) {
        Ok(uri) => Some(uri.path().to_string()),
        Err(_) => None,
    }
}

/// Index of the last `c` in `s`, or -1.
pub open spec fn last_index_of(s: Seq<char>, c: char) -> int
    decreases s.len(),
{
    if s.len() == 0 {
        -1
    } else if s.last() == c {
        s.len() - 1
    } else {
        last_index_of(s.drop_last(), c)
    }
}

/// The text after the last `/`.
pub open spec fn last_segment(path: Seq<char>) -> Seq<char> {
    path.subrange(last_index_of(path, '/') + 1, path.len() as int)
}

/// The extension of a file name as `Path::extension` sees it: the text after
/// the last dot, where that dot is not the first character; none for `.`,
/// `..` and the empty name.
pub open spec fn file_extension(name: Seq<char>) -> Option<Seq<char>> {
    let k = last_index_of(name, '.');
    if name.len() == 0 || name == "."@ || name == ".."@ || k <= 0 {
        None
    } else {
        Some(name.subrange(k + 1, name.len() as int))
    }
}

/// `s` with every `/` replaced by `-`.
pub open spec fn replace_slashes(s: Seq<char>) -> Seq<char> {
    s.map_values(|c: char| if c == '/' { '-' } else { c })
}

/// The extension the downloaded file keeps: the URL path's, else `exe` on
/// Windows, else none.
pub open spec fn download_extension(download_url: Seq<char>, platform: Platform) -> Seq<char> {
    let ext = match uri_path(download_url) {
        Some(p) => file_extension(last_segment(p)),
        None => None,
    };
    match ext {
        Some(e) => e,
        None => if platform == Platform::Windows {
            "exe"@
        } else {
            Seq::empty()
        },
    }
}

pub open spec fn download_file_name_spec(version: Seq<char>, download_url: Seq<char>, platform: Platform) -> Seq<char> {
    let base = "pig-update-"@ + replace_slashes(version);
    let ext = download_extension(download_url, platform);
    if ext.len() == 0 {
        base
    } else {
        base + "."@ + ext
    }
}

/// One past the index of the last `c` (0 where there is none).
fn last_index_exec(s: &Vec<char>, c: char) -> (r: usize)
    ensures
        r == last_index_of(s@, c) + 1,
        r <= s.len(),
{
    let mut i = s.len();
    assert(s@.subrange(0, s@.len() as int) =~= s@);
    while i > 0
        invariant
            i <= s.len(),
            last_index_of(s@, c) == last_index_of(s@.subrange(0, i as int), c),
        decreases i,
    {
        let ghost pre = s@.subrange(0, i as int);
        assert(pre.drop_last() =~= s@.subrange(0, i - 1));
        if s[i - 1] == c {
            return i;
        }
        i -= 1;
    }
    0
}

/// The name the downloaded update is saved under.
pub fn download_file_name(version: &str, download_url: &str, platform: Platform) -> (r: String)
    ensures
        r@ == download_file_name_spec(version@, download_url@, platform),
{
    let ext: Option<String> = match http_uri_path(download_url) {
        Some(path) => {
            let pc = chars_of(path.as_str());
            let start = last_index_exec(&pc, '/');
            let name = crate::text::string_from_range(pc.as_slice(), start, pc.len());
            let nc = chars_of(name.as_str());
            let dot = last_index_exec(&nc, '.');
            if nc.len() == 0 || crate::text::str_eq(name.as_str(), ".") || crate::text::str_eq(
                name.as_str(),
                "..",
            ) || dot <= 1 {
                None
            } else {
                Some(crate::text::string_from_range(nc.as_slice(), dot, nc.len()))
            }
        },
        None => None,
    };
    let ext = match ext {
        Some(e) => e,
        None => if platform == Platform::Windows {
            str_to_owned("exe")
        } else {
            String::new()
        },
    };
    let mut out = str_to_owned("pig-update-");
    let vc = chars_of(version);
    let ghost head = out@;
    let mut i: usize = 0;
    while i < vc.len()
        invariant
            i <= vc.len(),
            vc@ == version@,
            out@ == head + replace_slashes(vc@.subrange(0, i as int)),
        decreases vc.len() - i,
    {
        let c = if vc[i] == '/' { '-' } else { vc[i] };
        push_char(&mut out, c);
        assert(replace_slashes(vc@.subrange(0, i + 1)) =~= replace_slashes(vc@.subrange(0, i as int)).push(c));
        i += 1;
    }
    assert(vc@.subrange(0, vc@.len() as int) =~= version@);
    if !ext.as_str().is_empty() {
        push_str(&mut out, ".");
        push_str(&mut out, ext.as_str());
    }
    out
}

/// Whether an I/O error is the cross-device link error (`EXDEV`, 18) that a
/// rename across file systems fails with.
pub fn is_cross_device_link_error(raw_os_error: Option<i32>) -> (r: bool)
    ensures
        r == (raw_os_error == Some(18i32)),
{
    match raw_os_error {
        Some(code) => code == 18,
        None => false,
    }
}

} // verus!
