//! Splitting a SQL script into statements, one character at a time.
//!
//! The splitter tracks string literals (with `''` and backslash escapes),
//! line and block comments, PostgreSQL dollar quoting, parentheses and
//! `BEGIN ... END` blocks, and the client-side `DELIMITER` directive.
//! `step` is the specification of one character; `run` folds it over a
//! script and `split_statements` adds what the end of input flushes.
use vstd::prelude::*;
use crate::text::{
    lemma_trim_idempotent,
    ascii_upper, ascii_upper_char, char_is_alphanumeric, char_utf8_len, char_utf8_len_exec,
    chars_of, ends_with, is_ascii_alpha, is_ascii_alpha_char, is_ascii_ws, is_ascii_ws_char, is_ws,
    is_whitespace_char, lemma_utf8_len_push, skip_ws_from, slice_ends_with, slice_eq,
    slice_starts_with, starts_with, string_from_range, to_uppercase, trim, trim_end,
    trim_end_len_upto, unicode_alphanumeric, unicode_uppercase, utf8_len,
};

verus! {

// ---------------------------------------------------------------------------
// Model
// ---------------------------------------------------------------------------

/// Abstract state of the splitter.
pub struct SplitModel {
    pub buffer: Seq<char>,
    pub in_string: bool,
    pub string_char: char,
    pub escape_next: bool,
    pub prev_quote: bool,
    pub line_comment: bool,
    pub block_comment: bool,
    pub dollar_quote: Option<Seq<char>>,
    pub paren: nat,
    pub begin: nat,
    pub checked: nat,
    pub delimiter: Seq<char>,
    pub directive: bool,
    pub directive_at: nat,
}

pub open spec fn semicolon() -> Seq<char> {
    seq![';']
}

/// `DELIMITER`, upper case.
pub open spec fn delimiter_keyword() -> Seq<char> {
    seq!['D', 'E', 'L', 'I', 'M', 'I', 'T', 'E', 'R']
}

pub open spec fn begin_keyword() -> Seq<char> {
    seq!['B', 'E', 'G', 'I', 'N']
}

pub open spec fn end_keyword() -> Seq<char> {
    seq!['E', 'N', 'D']
}

pub open spec fn initial_model() -> SplitModel {
    SplitModel {
        buffer: Seq::empty(),
        in_string: false,
        string_char: '\0',
        escape_next: false,
        prev_quote: false,
        line_comment: false,
        block_comment: false,
        dollar_quote: None,
        paren: 0,
        begin: 0,
        checked: 0,
        delimiter: semicolon(),
        directive: false,
        directive_at: 0,
    }
}

/// Bounds that every reachable state keeps.
pub open spec fn model_wf(m: SplitModel) -> bool {
    &&& m.paren <= m.buffer.len()
    &&& m.begin <= m.checked
    &&& m.checked <= m.buffer.len()
    &&& m.delimiter.len() > 0
    &&& (m.directive ==> m.directive_at <= m.buffer.len())
}

pub open spec fn with_char(m: SplitModel, c: char) -> SplitModel {
    SplitModel { buffer: m.buffer.push(c), ..m }
}

pub open spec fn cleared(m: SplitModel) -> SplitModel {
    SplitModel { buffer: Seq::empty(), checked: 0, ..m }
}

pub open spec fn reset(m: SplitModel) -> SplitModel {
    SplitModel { buffer: Seq::empty(), checked: 0, paren: 0, begin: 0, directive: false, directive_at: 0, ..m }
}

// ---------------------------------------------------------------------------
// Comment-only text
// ---------------------------------------------------------------------------

/// Scanner behind `is_pure_comment`; modes: 0 between comments, 1 after `-`,
/// 2 inside `-- ...`, 3 after `/`, 4 inside `/* ... */` (`prev` is the
/// previous character there).
pub open spec fn pure_scan(s: Seq<char>, i: int, mode: int, prev: char) -> bool
    decreases s.len() - i,
{
    if i < 0 || i >= s.len() {
        mode != 1 && mode != 3
    } else {
        let c = s[i];
        if mode == 0 {
            if is_ws(c) {
                pure_scan(s, i + 1, 0, prev)
            } else if c == '-' {
                pure_scan(s, i + 1, 1, prev)
            } else if c == '/' {
                pure_scan(s, i + 1, 3, prev)
            } else {
                false
            }
        } else if mode == 1 {
            if c == '-' {
                pure_scan(s, i + 1, 2, prev)
            } else {
                false
            }
        } else if mode == 2 {
            if c == '\n' {
                pure_scan(s, i + 1, 0, prev)
            } else {
                pure_scan(s, i + 1, 2, prev)
            }
        } else if mode == 3 {
            if c == '*' {
                pure_scan(s, i + 1, 4, ' ')
            } else {
                false
            }
        } else {
            if prev == '*' && c == '/' {
                pure_scan(s, i + 1, 0, prev)
            } else {
                pure_scan(s, i + 1, 4, c)
            }
        }
    }
}

/// True when `s` holds only whitespace, `-- ...` line comments and
/// `/* ... */` block comments (an unterminated comment counts).
pub open spec fn is_pure_comment(s: Seq<char>) -> bool {
    pure_scan(trim(s), 0, 0, ' ')
}

/// A candidate statement is returned when it is not empty, is not a
/// `DELIMITER` directive and is not only comments.
pub open spec fn is_statement(s: Seq<char>) -> bool {
    &&& s.len() > 0
    &&& !starts_with(unicode_uppercase(s), delimiter_keyword())
    &&& !is_pure_comment(s)
}

// ---------------------------------------------------------------------------
// Pieces of `step`
// ---------------------------------------------------------------------------

/// Index of the last `$` in `b[..k]`, or -1.
pub open spec fn last_dollar_before(b: Seq<char>, k: int) -> int
    decreases k,
{
    if k <= 0 {
        -1
    } else if b[k - 1] == '$' {
        k - 1
    } else {
        last_dollar_before(b, k - 1)
    }
}

pub open spec fn is_tag_char(c: char) -> bool {
    unicode_alphanumeric(c) || c == '_'
}

/// The dollar-quote tag that `b` (which ends with `$`) has just closed, if any:
/// `$$` or `$name$` where `name` is alphanumeric or `_`.
pub open spec fn extract_dollar_tag(b: Seq<char>) -> Option<Seq<char>> {
    let last = b.len() - 1;
    if last <= 0 {
        None
    } else {
        let p = last_dollar_before(b, last);
        if p < 0 {
            None
        } else if forall|k: int| p + 1 <= k < last ==> is_tag_char(#[trigger] b[k]) {
            Some(b.subrange(p, last + 1))
        } else {
            None
        }
    }
}

/// Start of the run of ASCII whitespace, `;`, `,` and `$` that ends at `e`.
pub open spec fn trailing_sep_start(b: Seq<char>, e: int) -> int
    decreases e,
{
    if e <= 0 {
        0
    } else if is_ascii_ws(b[e - 1]) || b[e - 1] == ';' || b[e - 1] == ',' || b[e - 1] == '$' {
        trailing_sep_start(b, e - 1)
    } else {
        e
    }
}

/// Start of the run of ASCII letters that ends at `e`.
pub open spec fn alpha_start(b: Seq<char>, e: int) -> int
    decreases e,
{
    if e <= 0 {
        0
    } else if is_ascii_alpha(b[e - 1]) {
        alpha_start(b, e - 1)
    } else {
        e
    }
}

pub open spec fn ascii_upper_seq(w: Seq<char>) -> Seq<char> {
    w.map_values(|c: char| ascii_upper(c))
}

/// Looks at the last word of the buffer (once per position) and counts
/// `BEGIN` up and `END` down.
pub open spec fn update_begin(m: SplitModel) -> SplitModel {
    let b = m.buffer;
    let len = b.len();
    if len <= m.checked {
        m
    } else {
        let end = trailing_sep_start(b, len as int);
        if end == 0 || end <= m.checked {
            SplitModel { checked: len, ..m }
        } else {
            let start = alpha_start(b, end);
            let w = ascii_upper_seq(b.subrange(start, end));
            let begin = if w == begin_keyword() {
                m.begin + 1
            } else if w == end_keyword() {
                if m.begin > 0 {
                    (m.begin - 1) as nat
                } else {
                    0
                }
            } else {
                m.begin
            };
            SplitModel { begin: begin, checked: end as nat, ..m }
        }
    }
}

/// Emits the buffer when it ends (before trailing whitespace) with the
/// delimiter outside parentheses and `BEGIN` blocks.
pub open spec fn split_check(m: SplitModel) -> (SplitModel, Option<Seq<char>>) {
    if m.paren == 0 && m.begin == 0 {
        let tc = trim_end(m.buffer);
        if ends_with(tc, m.delimiter) {
            let stmt = trim(tc.subrange(0, tc.len() - m.delimiter.len()));
            if is_statement(stmt) {
                (cleared(m), Some(stmt))
            } else {
                (cleared(m), None)
            }
        } else {
            (m, None)
        }
    } else {
        (m, None)
    }
}

pub open spec fn ascii_ci_eq(a: Seq<char>, upper: Seq<char>) -> bool {
    a.len() == upper.len() && forall|i: int| 0 <= i < a.len() ==> ascii_upper(#[trigger] a[i])
        == upper[i]
}

/// The buffer is comments and whitespace followed by the word `DELIMITER`
/// (any ASCII case): a following blank starts the directive.
pub open spec fn starts_directive(b: Seq<char>) -> bool {
    b.len() >= 9 && ascii_ci_eq(b.subrange(b.len() - 9, b.len() as int), delimiter_keyword())
        && is_pure_comment(b.subrange(0, b.len() - 9))
}

/// End of the run of non-whitespace characters starting at `i`.
pub open spec fn token_end(s: Seq<char>, i: int) -> int
    decreases s.len() - i,
{
    if i < 0 || i >= s.len() {
        s.len() as int
    } else if is_ws(s[i]) {
        i
    } else {
        token_end(s, i + 1)
    }
}

/// The first whitespace-separated word of `s`, if there is one.
pub open spec fn first_token(s: Seq<char>) -> Option<Seq<char>> {
    let i = skip_ws_from(s, 0);
    let j = token_end(s, i);
    if i < j {
        Some(s.subrange(i, j))
    } else {
        None
    }
}

/// A character inside a `DELIMITER` line; the newline applies it.
pub open spec fn directive_char(m: SplitModel, c: char) -> SplitModel {
    let b = m.buffer.push(c);
    if c == '\n' {
        let d = match first_token(b.subrange(m.directive_at as int, b.len() as int)) {
            Some(t) => t,
            None => m.delimiter,
        };
        SplitModel { delimiter: d, ..reset(m) }
    } else {
        SplitModel { buffer: b, ..m }
    }
}

/// With a delimiter other than `;`, reaching it ends the statement
/// whatever the nesting.
pub open spec fn custom_split(m: SplitModel, c: char) -> (SplitModel, Option<Seq<char>>) {
    let b = m.buffer.push(c);
    let stmt = trim(b.subrange(0, b.len() - m.delimiter.len()));
    let r = reset(m);
    if is_statement(stmt) {
        (r, Some(stmt))
    } else {
        (r, None)
    }
}

/// A character outside strings, comments and dollar quotes.
pub open spec fn normal_step(m: SplitModel, c: char) -> (SplitModel, Option<Seq<char>>) {
    if m.directive {
        (directive_char(m, c), None)
    } else if is_ws(c) && starts_directive(m.buffer) {
        (SplitModel { directive: true, directive_at: m.buffer.len(), ..with_char(m, c) }, None)
    } else if m.delimiter != semicolon() && ends_with(m.buffer.push(c), m.delimiter) {
        custom_split(m, c)
    } else if c == '-' && m.buffer.len() > 0 && m.buffer.last() == '-' {
        (SplitModel { line_comment: true, ..with_char(m, c) }, None)
    } else if c == '-' {
        (with_char(m, c), None)
    } else if c == '*' && m.buffer.len() > 0 && m.buffer.last() == '/' {
        (SplitModel { block_comment: true, ..with_char(m, c) }, None)
    } else if c == '$' {
        let b = m.buffer.push(c);
        let dq = match extract_dollar_tag(b) {
            Some(t) => Some(t),
            None => m.dollar_quote,
        };
        (SplitModel { dollar_quote: dq, ..with_char(m, c) }, None)
    } else if c == '\'' || c == '"' {
        (SplitModel { in_string: true, string_char: c, ..with_char(m, c) }, None)
    } else if c == '(' {
        (SplitModel { paren: m.paren + 1, ..with_char(m, c) }, None)
    } else if c == ')' {
        let p = if m.paren > 0 {
            (m.paren - 1) as nat
        } else {
            0
        };
        (SplitModel { paren: p, ..with_char(m, c) }, None)
    } else {
        let m1 = with_char(m, c);
        let m2 = if is_ws(c) || c == ';' {
            update_begin(m1)
        } else {
            m1
        };
        split_check(m2)
    }
}

/// One character of input: the next state and the statement it completes.
pub open spec fn step(m: SplitModel, c: char) -> (SplitModel, Option<Seq<char>>) {
    if m.line_comment {
        (SplitModel { line_comment: c != '\n', ..with_char(m, c) }, None)
    } else if m.block_comment {
        let b = m.buffer.push(c);
        (
            SplitModel { block_comment: !(c == '/' && ends_with(b, seq!['*', '/'])), ..with_char(m, c) },
            None,
        )
    } else if m.dollar_quote.is_some() {
        let b = m.buffer.push(c);
        let closes = c == '$' && ends_with(b, m.dollar_quote.unwrap());
        (
            SplitModel {
                dollar_quote: if closes {
                    None
                } else {
                    m.dollar_quote
                },
                ..with_char(m, c)
            },
            None,
        )
    } else if m.in_string && m.escape_next {
        (SplitModel { escape_next: false, prev_quote: false, ..with_char(m, c) }, None)
    } else if m.in_string && c == '\\' {
        (SplitModel { escape_next: true, prev_quote: false, ..with_char(m, c) }, None)
    } else if m.in_string && c == m.string_char {
        (SplitModel { prev_quote: !m.prev_quote, ..with_char(m, c) }, None)
    } else if m.in_string && !m.prev_quote {
        (with_char(m, c), None)
    } else if m.in_string {
        normal_step(SplitModel { in_string: false, prev_quote: false, ..m }, c)
    } else {
        normal_step(m, c)
    }
}

/// True when the suffix of `b` that is `n` bytes long starts on a character
/// boundary.
pub open spec fn suffix_hits(b: Seq<char>, n: int) -> bool
    decreases b.len(),
{
    if n == 0 {
        true
    } else if n < 0 || b.len() == 0 {
        false
    } else {
        suffix_hits(b.drop_last(), n - char_utf8_len(b.last()))
    }
}

/// The byte-indexed tag check inside a dollar quote would slice the buffer
/// in the middle of a multi-byte character: that input is refused.
pub open spec fn step_faults(m: SplitModel, c: char) -> bool {
    &&& !m.line_comment
    &&& !m.block_comment
    &&& m.dollar_quote.is_some()
    &&& c == '$'
    &&& utf8_len(m.buffer.push(c)) >= utf8_len(m.dollar_quote.unwrap())
    &&& !suffix_hits(m.buffer.push(c), utf8_len(m.dollar_quote.unwrap()) as int)
}

// ---------------------------------------------------------------------------
// Whole inputs
// ---------------------------------------------------------------------------

pub open spec fn opt_seq(o: Option<Seq<char>>) -> Seq<Seq<char>> {
    match o {
        Some(s) => seq![s],
        None => Seq::empty(),
    }
}

/// The state after `input` and the statements it completed, in order.
pub open spec fn run(m: SplitModel, input: Seq<char>) -> (SplitModel, Seq<Seq<char>>)
    decreases input.len(),
{
    if input.len() == 0 {
        (m, Seq::empty())
    } else {
        let (m1, o) = step(m, input[0]);
        let (m2, out) = run(m1, input.drop_first());
        (m2, opt_seq(o) + out)
    }
}

/// Some step of `input` refuses its character.
pub open spec fn faults(m: SplitModel, input: Seq<char>) -> bool
    decreases input.len(),
{
    input.len() > 0 && (step_faults(m, input[0]) || faults(step(m, input[0]).0, input.drop_first()))
}

/// What the end of input returns from the buffer.
pub open spec fn flush(m: SplitModel) -> Option<Seq<char>> {
    if m.directive {
        None
    } else if is_statement(trim(m.buffer)) {
        Some(trim(m.buffer))
    } else {
        None
    }
}

/// The statements of a whole script, in order.
pub open spec fn split_statements(script: Seq<char>) -> Seq<Seq<char>> {
    run(initial_model(), script).1 + opt_seq(flush(run(initial_model(), script).0))
}

/// The script can be split without refusing a character.
pub open spec fn splits_cleanly(script: Seq<char>) -> bool {
    !faults(initial_model(), script)
}

// ---------------------------------------------------------------------------
// Lemmas on `run`
// ---------------------------------------------------------------------------

pub proof fn lemma_run_push(m: SplitModel, input: Seq<char>, c: char)
    ensures
        run(m, input.push(c)).0 == step(run(m, input).0, c).0,
        run(m, input.push(c)).1 == run(m, input).1 + opt_seq(step(run(m, input).0, c).1),
{
    let one = seq![c];
    lemma_run_concat(m, input, one);
    assert(input.push(c) =~= input + one);
    let m1 = run(m, input).0;
    assert(one.drop_first() =~= Seq::<char>::empty());
    assert(one[0] == c);
    reveal_with_fuel(run, 2);
    assert(run(m1, one).0 == step(m1, c).0);
    assert(run(m1, one).1 =~= opt_seq(step(m1, c).1) + Seq::<Seq<char>>::empty());
    assert(opt_seq(step(m1, c).1) + Seq::<Seq<char>>::empty() =~= opt_seq(step(m1, c).1));
}

pub proof fn lemma_run_concat(m: SplitModel, a: Seq<char>, b: Seq<char>)
    ensures
        run(m, a + b).0 == run(run(m, a).0, b).0,
        run(m, a + b).1 == run(m, a).1 + run(run(m, a).0, b).1,
        faults(m, a + b) == (faults(m, a) || faults(run(m, a).0, b)),
    decreases a.len(),
{
    if a.len() == 0 {
        assert(a + b =~= b);
        assert(run(m, a).1 + run(m, b).1 =~= run(m, b).1);
    } else {
        let (m1, o) = step(m, a[0]);
        assert((a + b).drop_first() =~= a.drop_first() + b);
        assert((a + b)[0] == a[0]);
        lemma_run_concat(m1, a.drop_first(), b);
        assert(opt_seq(o) + (run(m1, a.drop_first()).1 + run(run(m1, a.drop_first()).0, b).1)
            =~= (opt_seq(o) + run(m1, a.drop_first()).1) + run(run(m1, a.drop_first()).0, b).1);
    }
}


// ---------------------------------------------------------------------------
// Executable splitter state
// ---------------------------------------------------------------------------

pub open spec fn opt_view(r: Option<String>) -> Option<Seq<char>> {
    match r {
        Some(s) => Some(s@),
        None => None,
    }
}

pub open spec fn opt_vec_view(r: Option<Vec<char>>) -> Option<Seq<char>> {
    match r {
        Some(v) => Some(v@),
        None => None,
    }
}

/// Executable state of the splitter; its view is a `SplitModel`.
pub struct SplitState {
    buffer: Vec<char>,
    in_string: bool,
    string_char: char,
    escape_next: bool,
    prev_quote: bool,
    line_comment: bool,
    block_comment: bool,
    dollar_quote: Option<Vec<char>>,
    paren: usize,
    begin: usize,
    checked: usize,
    delimiter: Vec<char>,
    directive: bool,
    directive_at: usize,
}

impl View for SplitState {
    type V = SplitModel;

    closed spec fn view(&self) -> SplitModel {
        SplitModel {
            buffer: self.buffer@,
            in_string: self.in_string,
            string_char: self.string_char,
            escape_next: self.escape_next,
            prev_quote: self.prev_quote,
            line_comment: self.line_comment,
            block_comment: self.block_comment,
            dollar_quote: opt_vec_view(self.dollar_quote),
            paren: self.paren as nat,
            begin: self.begin as nat,
            checked: self.checked as nat,
            delimiter: self.delimiter@,
            directive: self.directive,
            directive_at: self.directive_at as nat,
        }
    }
}

fn keyword_delimiter() -> (r: Vec<char>)
    ensures
        r@ == delimiter_keyword(),
{
    let r = vec!['D', 'E', 'L', 'I', 'M', 'I', 'T', 'E', 'R'];
    assert(r@ =~= delimiter_keyword());
    r
}

/// `is_pure_comment(s[lo..hi])`.
#[verifier::loop_isolation(false)]
pub fn pure_comment_range(s: &[char], lo: usize, hi: usize) -> (r: bool)
    requires
        lo <= hi <= s.len(),
    ensures
        r == is_pure_comment(s@.subrange(lo as int, hi as int)),
{
    let (a, b) = crate::text::trim_range(s, lo, hi);
    let ghost t = s@.subrange(a as int, b as int);
    assert(trim(s@.subrange(lo as int, hi as int)) == t);
    let mut i = a;
    let mut mode: u8 = 0;
    let mut prev: char = ' ';
    while i < b
        invariant
            a <= i <= b <= s.len(),
            t == s@.subrange(a as int, b as int),
            mode <= 4,
            pure_scan(t, i - a, mode as int, prev) == pure_scan(t, 0, 0, ' '),
        decreases b - i,
    {
        let c = s[i];
        assert(t[i - a] == c);
        if mode == 0 {
            if is_whitespace_char(c) {
            } else if c == '-' {
                mode = 1;
            } else if c == '/' {
                mode = 3;
            } else {
                assert(!pure_scan(t, i - a, mode as int, prev));
                return false;
            }
        } else if mode == 1 {
            if c == '-' {
                mode = 2;
            } else {
                assert(!pure_scan(t, i - a, mode as int, prev));
                return false;
            }
        } else if mode == 2 {
            if c == '\n' {
                mode = 0;
            }
        } else if mode == 3 {
            if c == '*' {
                mode = 4;
                prev = ' ';
            } else {
                assert(!pure_scan(t, i - a, mode as int, prev));
                return false;
            }
        } else {
            if prev == '*' && c == '/' {
                mode = 0;
            } else {
                prev = c;
            }
        }
        i += 1;
    }
    mode != 1 && mode != 3
}

/// `is_statement(s[lo..hi])`.
pub fn statement_range(s: &[char], lo: usize, hi: usize) -> (r: bool)
    requires
        lo <= hi <= s.len(),
    ensures
        r == is_statement(s@.subrange(lo as int, hi as int)),
{
    if lo == hi {
        return false;
    }
    let text = string_from_range(s, lo, hi);
    let upper = to_uppercase(text.as_str());
    let upper_chars = chars_of(upper.as_str());
    let kw = keyword_delimiter();
    if slice_starts_with(upper_chars.as_slice(), kw.as_slice()) {
        return false;
    }
    !pure_comment_range(s, lo, hi)
}

/// Last `$` before position `k`.
fn last_dollar_exec(b: &[char], k: usize) -> (r: Option<usize>)
    requires
        k <= b.len(),
    ensures
        match r {
            Some(p) => p < k && last_dollar_before(b@, k as int) == p as int,
            None => last_dollar_before(b@, k as int) == -1,
        },
{
    let mut j = k;
    while j > 0 && b[j - 1] != '$'
        invariant
            j <= k <= b.len(),
            last_dollar_before(b@, j as int) == last_dollar_before(b@, k as int),
        decreases j,
    {
        j -= 1;
    }
    if j == 0 {
        None
    } else {
        Some(j - 1)
    }
}

/// `extract_dollar_tag(b)` for a buffer that ends with `$`.
#[verifier::loop_isolation(false)]
fn extract_dollar_tag_exec(b: &[char]) -> (r: Option<Vec<char>>)
    requires
        b.len() > 0,
    ensures
        opt_vec_view(r) == extract_dollar_tag(b@),
{
    let last = b.len() - 1;
    if last == 0 {
        return None;
    }
    let p = match last_dollar_exec(b, last) {
        Some(p) => p,
        None => return None,
    };
    let mut k = p + 1;
    while k < last
        invariant
            p < last < b.len(),
            p + 1 <= k <= last,
            forall|j: int| p + 1 <= j < k ==> is_tag_char(#[trigger] b@[j]),
        decreases last - k,
    {
        let c = b[k];
        if !(char_is_alphanumeric(c) || c == '_') {
            assert(!is_tag_char(b@[k as int]));
            assert(last_dollar_before(b@, last as int) == p as int);
            assert(!(forall|j: int| p + 1 <= j < last ==> is_tag_char(#[trigger] b@[j])));
            return None;
        }
        k += 1;
    }
    let mut tag: Vec<char> = Vec::new();
    let mut i = p;
    while i <= last
        invariant
            p <= i <= last + 1,
            last < b.len(),
            tag@ == b@.subrange(p as int, i as int),
        decreases last + 1 - i,
    {
        tag.push(b[i]);
        assert(b@.subrange(p as int, i + 1) =~= b@.subrange(p as int, i as int).push(b@[i as int]));
        i += 1;
    }
    Some(tag)
}

/// The first whitespace-separated word of `s[lo..hi]`, as bounds in `s`.
fn first_token_range(s: &[char], lo: usize, hi: usize) -> (r: Option<(usize, usize)>)
    requires
        lo <= hi <= s.len(),
    ensures
        match r {
            Some((a, b)) => lo <= a < b <= hi && first_token(s@.subrange(lo as int, hi as int))
                == Some(s@.subrange(a as int, b as int)),
            None => first_token(s@.subrange(lo as int, hi as int)) is None,
        },
{
    let ghost t = s@.subrange(lo as int, hi as int);
    let mut i = lo;
    while i < hi && is_whitespace_char(s[i])
        invariant
            lo <= i <= hi <= s.len(),
            t == s@.subrange(lo as int, hi as int),
            skip_ws_from(t, i - lo) == skip_ws_from(t, 0),
        decreases hi - i,
    {
        assert(t[i - lo] == s@[i as int]);
        i += 1;
    }
    proof {
        if i < hi {
            assert(t[i - lo] == s@[i as int]);
        }
        assert(skip_ws_from(t, i - lo) == i - lo);
    }
    let mut j = i;
    while j < hi && !is_whitespace_char(s[j])
        invariant
            lo <= i <= j <= hi <= s.len(),
            t == s@.subrange(lo as int, hi as int),
            token_end(t, j - lo) == token_end(t, i - lo),
        decreases hi - j,
    {
        assert(t[j - lo] == s@[j as int]);
        j += 1;
    }
    proof {
        if j < hi {
            assert(t[j - lo] == s@[j as int]);
        }
        assert(token_end(t, j - lo) == j - lo);
    }
    if i < j {
        assert(t.subrange(i - lo, j - lo) =~= s@.subrange(i as int, j as int));
        Some((i, j))
    } else {
        None
    }
}

impl SplitState {
    pub fn new() -> (r: SplitState)
        ensures
            r@ == initial_model(),
            model_wf(r@),
    {
        let r = SplitState {
            buffer: Vec::new(),
            in_string: false,
            string_char: '\0',
            escape_next: false,
            prev_quote: false,
            line_comment: false,
            block_comment: false,
            dollar_quote: None,
            paren: 0,
            begin: 0,
            checked: 0,
            delimiter: vec![';'],
            directive: false,
            directive_at: 0,
        };
        assert(r.delimiter@ =~= semicolon());
        assert(r@.buffer =~= Seq::<char>::empty());
        r
    }

    fn clear_buffer(&mut self)
        ensures
            final(self)@ == cleared(old(self)@),
    {
        self.buffer = Vec::new();
        self.checked = 0;
        assert(self.buffer@ =~= Seq::<char>::empty());
    }

    fn reset_all(&mut self)
        ensures
            final(self)@ == reset(old(self)@),
    {
        self.buffer = Vec::new();
        self.checked = 0;
        self.paren = 0;
        self.begin = 0;
        self.directive = false;
        self.directive_at = 0;
        assert(self.buffer@ =~= Seq::<char>::empty());
    }

    #[verifier::loop_isolation(false)]
    fn update_begin_depth(&mut self)
        requires
            model_wf(old(self)@),
        ensures
            model_wf(final(self)@),
            final(self)@ == update_begin(old(self)@),
    {
        let len = self.buffer.len();
        if len <= self.checked {
            return;
        }
        let mut end = len;
        while end > 0 && (is_ascii_ws_char(self.buffer[end - 1]) || self.buffer[end - 1] == ';'
            || self.buffer[end - 1] == ',' || self.buffer[end - 1] == '$')
            invariant
                end <= len == self.buffer.len(),
                trailing_sep_start(self.buffer@, end as int) == trailing_sep_start(
                    self.buffer@,
                    len as int,
                ),
            decreases end,
        {
            end -= 1;
        }
        if end == 0 || end <= self.checked {
            self.checked = len;
            return;
        }
        let mut start = end;
        while start > 0 && is_ascii_alpha_char(self.buffer[start - 1])
            invariant
                start <= end <= len == self.buffer.len(),
                alpha_start(self.buffer@, start as int) == alpha_start(self.buffer@, end as int),
            decreases start,
        {
            start -= 1;
        }
        let mut word: Vec<char> = Vec::new();
        let mut i = start;
        while i < end
            invariant
                start <= i <= end <= self.buffer.len(),
                word@ == ascii_upper_seq(self.buffer@.subrange(start as int, i as int)),
            decreases end - i,
        {
            word.push(ascii_upper_char(self.buffer[i]));
            assert(ascii_upper_seq(self.buffer@.subrange(start as int, i + 1)) =~= ascii_upper_seq(
                self.buffer@.subrange(start as int, i as int),
            ).push(ascii_upper(self.buffer@[i as int])));
            i += 1;
        }
        let kb = vec!['B', 'E', 'G', 'I', 'N'];
        let ke = vec!['E', 'N', 'D'];
        assert(kb@ =~= begin_keyword());
        assert(ke@ =~= end_keyword());
        if slice_eq(word.as_slice(), kb.as_slice()) {
            self.begin = self.begin + 1;
        } else if slice_eq(word.as_slice(), ke.as_slice()) {
            if self.begin > 0 {
                self.begin = self.begin - 1;
            }
        }
        self.checked = end;
    }

    #[verifier::loop_isolation(false)]
    fn split_check(&mut self) -> (r: Option<String>)
        requires
            model_wf(old(self)@),
            !old(self)@.directive,
        ensures
            model_wf(final(self)@),
            final(self)@ == split_check(old(self)@).0,
            opt_view(r) == split_check(old(self)@).1,
    {
        if !(self.paren == 0 && self.begin == 0) {
            return None;
        }
        let tl = crate::text::trim_end_len_exec(self.buffer.as_slice(), self.buffer.len());
        let ghost tc = trim_end(self.buffer@);
        proof {
            assert(self.buffer@.subrange(0, self.buffer@.len() as int) =~= self.buffer@);
            assert(tc =~= self.buffer@.subrange(0, tl as int));
        }
        let dl = self.delimiter.len();
        if dl > tl {
            return None;
        }
        let mut k: usize = 0;
        while k < dl
            invariant
                dl == self.delimiter.len(),
                dl <= tl <= self.buffer.len(),
                k <= dl,
                forall|j: int| 0 <= j < k ==> self.buffer@[tl - dl + j] == self.delimiter@[j],
            decreases dl - k,
        {
            if self.buffer[tl - dl + k] != self.delimiter[k] {
                assert(tc.subrange(tc.len() - dl, tc.len() as int)[k as int] != self.delimiter@[k as int]);
                return None;
            }
            k += 1;
        }
        assert(tc.subrange(tc.len() - dl, tc.len() as int) =~= self.delimiter@);
        let (a, b) = crate::text::trim_range(self.buffer.as_slice(), 0, tl - dl);
        proof {
            assert(tc.subrange(0, tc.len() - dl) =~= self.buffer@.subrange(0, tl - dl));
        }
        let ok = statement_range(self.buffer.as_slice(), a, b);
        if ok {
            let stmt = string_from_range(self.buffer.as_slice(), a, b);
            self.clear_buffer();
            Some(stmt)
        } else {
            self.clear_buffer();
            None
        }
    }

    /// `starts_directive` of the current buffer.
    #[verifier::loop_isolation(false)]
    fn at_directive_keyword(&self) -> (r: bool)
        ensures
            r == starts_directive(self.buffer@),
    {
        let len = self.buffer.len();
        if len < 9 {
            return false;
        }
        let kw = keyword_delimiter();
        let ghost suffix = self.buffer@.subrange(len - 9, len as int);
        let mut i: usize = 0;
        while i < 9
            invariant
                len == self.buffer.len(),
                len >= 9,
                kw@ == delimiter_keyword(),
                suffix == self.buffer@.subrange(len - 9, len as int),
                i <= 9,
                forall|j: int| 0 <= j < i ==> ascii_upper(#[trigger] suffix[j]) == kw@[j],
            decreases 9 - i,
        {
            if ascii_upper_char(self.buffer[len - 9 + i]) != kw[i] {
                assert(suffix[i as int] == self.buffer@[len - 9 + i]);
                return false;
            }
            i += 1;
        }
        pure_comment_range(self.buffer.as_slice(), 0, len - 9)
    }

    #[verifier::loop_isolation(false)]
    fn directive_step(&mut self, c: char)
        requires
            model_wf(old(self)@),
            old(self).directive,
        ensures
            model_wf(final(self)@),
            final(self)@ == directive_char(old(self)@, c),
    {
        self.buffer.push(c);
        if c == '\n' {
            let at = self.directive_at;
            let len = self.buffer.len();
            let tok = first_token_range(self.buffer.as_slice(), at, len);
            match tok {
                Some((a, b)) => {
                    let mut d: Vec<char> = Vec::new();
                    let mut i = a;
                    while i < b
                        invariant
                            a <= i <= b <= self.buffer.len(),
                            d@ == self.buffer@.subrange(a as int, i as int),
                        decreases b - i,
                    {
                        d.push(self.buffer[i]);
                        assert(self.buffer@.subrange(a as int, i + 1) =~= self.buffer@.subrange(
                            a as int,
                            i as int,
                        ).push(self.buffer@[i as int]));
                        i += 1;
                    }
                    self.delimiter = d;
                },
                None => {},
            }
            self.reset_all();
        }
    }

    fn custom_split_step(&mut self, c: char) -> (r: Option<String>)
        requires
            model_wf(old(self)@),
            ends_with(old(self)@.buffer.push(c), old(self)@.delimiter),
        ensures
            model_wf(final(self)@),
            final(self)@ == custom_split(old(self)@, c).0,
            opt_view(r) == custom_split(old(self)@, c).1,
    {
        let ghost m = self@;
        self.buffer.push(c);
        let cut = self.buffer.len() - self.delimiter.len();
        let (a, b) = crate::text::trim_range(self.buffer.as_slice(), 0, cut);
        let ok = statement_range(self.buffer.as_slice(), a, b);
        let out = if ok {
            Some(string_from_range(self.buffer.as_slice(), a, b))
        } else {
            None
        };
        self.reset_all();
        out
    }

    fn normal_step_exec(&mut self, c: char) -> (r: Option<String>)
        requires
            model_wf(old(self)@),
        ensures
            model_wf(final(self)@),
            final(self)@ == normal_step(old(self)@, c).0,
            opt_view(r) == normal_step(old(self)@, c).1,
    {
        if self.directive {
            self.directive_step(c);
            return None;
        }
        if is_whitespace_char(c) && self.at_directive_keyword() {
            let at = self.buffer.len();
            self.buffer.push(c);
            self.directive = true;
            self.directive_at = at;
            return None;
        }
        let semi = vec![';'];
        assert(semi@ =~= semicolon());
        if !slice_eq(self.delimiter.as_slice(), semi.as_slice()) {
            self.buffer.push(c);
            let hit = slice_ends_with(self.buffer.as_slice(), self.delimiter.as_slice());
            self.buffer.pop();
            proof {
                assert(self.buffer@ =~= old(self)@.buffer);
            }
            if hit {
                return self.custom_split_step(c);
            }
        }
        self.plain_step(c)
    }

    /// The branches of `normal_step` after the directive and custom delimiter.
    fn plain_step(&mut self, c: char) -> (r: Option<String>)
        requires
            model_wf(old(self)@),
            !old(self)@.directive,
            !(is_ws(c) && starts_directive(old(self)@.buffer)),
            !(old(self)@.delimiter != semicolon() && ends_with(
                old(self)@.buffer.push(c),
                old(self)@.delimiter,
            )),
        ensures
            model_wf(final(self)@),
            final(self)@ == normal_step(old(self)@, c).0,
            opt_view(r) == normal_step(old(self)@, c).1,
    {
        let n = self.buffer.len();
        if c == '-' && n > 0 && self.buffer[n - 1] == '-' {
            self.buffer.push(c);
            self.line_comment = true;
            return None;
        }
        if c == '-' {
            self.buffer.push(c);
            return None;
        }
        if c == '*' && n > 0 && self.buffer[n - 1] == '/' {
            self.buffer.push(c);
            self.block_comment = true;
            return None;
        }
        if c == '$' {
            self.buffer.push(c);
            let tag = extract_dollar_tag_exec(self.buffer.as_slice());
            match tag {
                Some(t) => {
                    self.dollar_quote = Some(t);
                },
                None => {},
            }
            return None;
        }
        self.plain_step_rest(c)
    }

    fn plain_step_rest(&mut self, c: char) -> (r: Option<String>)
        requires
            model_wf(old(self)@),
            !old(self)@.directive,
            !(is_ws(c) && starts_directive(old(self)@.buffer)),
            !(old(self)@.delimiter != semicolon() && ends_with(
                old(self)@.buffer.push(c),
                old(self)@.delimiter,
            )),
            c != '-',
            !(c == '*' && old(self)@.buffer.len() > 0 && old(self)@.buffer.last() == '/'),
            c != '$',
        ensures
            model_wf(final(self)@),
            final(self)@ == normal_step(old(self)@, c).0,
            opt_view(r) == normal_step(old(self)@, c).1,
    {
        if c == '\'' || c == '"' {
            self.buffer.push(c);
            self.in_string = true;
            self.string_char = c;
            return None;
        }
        if c == '(' {
            self.buffer.push(c);
            let n = self.buffer.len();
            assert(self.paren < n);
            self.paren = self.paren + 1;
            return None;
        }
        if c == ')' {
            self.buffer.push(c);
            if self.paren > 0 {
                self.paren = self.paren - 1;
            }
            return None;
        }
        self.buffer.push(c);
        if is_whitespace_char(c) || c == ';' {
            self.update_begin_depth();
        }
        self.split_check()
    }

    /// Feeds one character; returns the statement it completes, if any.
    pub fn process_char(&mut self, c: char) -> (r: Option<String>)
        requires
            model_wf(old(self)@),
        ensures
            model_wf(final(self)@),
            final(self)@ == step(old(self)@, c).0,
            opt_view(r) == step(old(self)@, c).1,
    {
        if self.line_comment {
            self.buffer.push(c);
            self.line_comment = c != '\n';
            return None;
        }
        if self.block_comment {
            self.buffer.push(c);
            let n = self.buffer.len();
            let closes = c == '/' && n >= 2 && self.buffer[n - 2] == '*';
            proof {
                let b = self.buffer@;
                if closes {
                    assert(b.subrange(b.len() - 2, b.len() as int) =~= seq!['*', '/']);
                } else if c == '/' {
                    if ends_with(b, seq!['*', '/']) {
                        assert(b.subrange(b.len() - 2, b.len() as int)[0] == '*');
                    }
                }
            }
            if closes {
                self.block_comment = false;
            }
            return None;
        }
        if self.dollar_quote.is_some() {
            self.buffer.push(c);
            let closes = match &self.dollar_quote {
                Some(tag) => c == '$' && slice_ends_with(self.buffer.as_slice(), tag.as_slice()),
                None => false,
            };
            if closes {
                self.dollar_quote = None;
            }
            return None;
        }
        if self.in_string && self.escape_next {
            self.buffer.push(c);
            self.escape_next = false;
            self.prev_quote = false;
            return None;
        }
        if self.in_string && c == '\\' {
            self.buffer.push(c);
            self.escape_next = true;
            self.prev_quote = false;
            return None;
        }
        if self.in_string && c == self.string_char {
            self.buffer.push(c);
            self.prev_quote = !self.prev_quote;
            return None;
        }
        if self.in_string && !self.prev_quote {
            self.buffer.push(c);
            return None;
        }
        if self.in_string {
            self.in_string = false;
            self.prev_quote = false;
        }
        self.normal_step_exec(c)
    }

    /// `step_faults(self@, c)`: the check that would refuse `c`.
    #[verifier::loop_isolation(false)]
    pub fn faults_on(&self, c: char) -> (r: bool)
        ensures
            r == step_faults(self@, c),
    {
        if self.line_comment || self.block_comment || c != '$' {
            return false;
        }
        match &self.dollar_quote {
            None => false,
            Some(tag) => {
                let mut n: u128 = 0;
                let mut t: usize = 0;
                while t < tag.len()
                    invariant
                        t <= tag.len(),
                        n == utf8_len(tag@.subrange(0, t as int)),
                        n <= 4 * t,
                    decreases tag.len() - t,
                {
                    proof {
                        lemma_utf8_len_push(tag@.subrange(0, t as int), tag@[t as int]);
                        assert(tag@.subrange(0, t + 1) =~= tag@.subrange(0, t as int).push(
                            tag@[t as int],
                        ));
                    }
                    n = n + char_utf8_len_exec(tag[t]) as u128;
                    t += 1;
                }
                assert(tag@.subrange(0, tag@.len() as int) =~= tag@);
                let ghost b = self.buffer@.push(c);
                proof {
                    lemma_utf8_len_push(self.buffer@, c);
                    assert(b.drop_last() =~= self.buffer@);
                }
                if n == 0 {
                    return false;
                }
                // the appended `$` is one byte
                let mut acc: u128 = 1;
                let mut k: usize = self.buffer.len();
                proof {
                    assert(self.buffer@.subrange(0, k as int) =~= self.buffer@);
                }
                while acc < n && k > 0
                    invariant
                        k <= self.buffer.len(),
                        b == self.buffer@.push(c),
                        1 <= acc <= n,
                        n <= 4 * tag.len(),
                        suffix_hits(self.buffer@.subrange(0, k as int), n - acc) == suffix_hits(
                            b,
                            n as int,
                        ),
                        utf8_len(self.buffer@.subrange(0, k as int)) + acc == utf8_len(b),
                    decreases k,
                {
                    let ch = self.buffer[k - 1];
                    let w = char_utf8_len_exec(ch) as u128;
                    let ghost bk = self.buffer@.subrange(0, k as int);
                    proof {
                        assert(bk.last() == ch);
                        assert(bk.drop_last() =~= self.buffer@.subrange(0, k - 1));
                        assert(bk =~= bk.drop_last().push(ch));
                        lemma_utf8_len_push(bk.drop_last(), ch);
                    }
                    if w > n - acc {
                        proof {
                            lemma_suffix_hits_short(bk.drop_last(), n - acc - w);
                        }
                        return true;
                    }
                    acc = acc + w;
                    k = k - 1;
                }
                proof {
                    if acc < n {
                        assert(self.buffer@.subrange(0, k as int) =~= Seq::<char>::empty());
                    }
                }
                false
            },
        }
    }

    /// What the end of input returns; the state is cleared.
    pub fn flush(&mut self) -> (r: Option<String>)
        requires
            model_wf(old(self)@),
        ensures
            opt_view(r) == flush(old(self)@),
            final(self)@ == reset(old(self)@),
            model_wf(final(self)@),
    {
        if self.directive {
            self.reset_all();
            return None;
        }
        let len = self.buffer.len();
        let (a, b) = crate::text::trim_range(self.buffer.as_slice(), 0, len);
        proof {
            assert(self.buffer@.subrange(0, len as int) =~= self.buffer@);
        }
        let out = if statement_range(self.buffer.as_slice(), a, b) {
            Some(string_from_range(self.buffer.as_slice(), a, b))
        } else {
            None
        };
        self.reset_all();
        out
    }
}

proof fn lemma_suffix_hits_short(b: Seq<char>, n: int)
    requires
        n < 0,
    ensures
        !suffix_hits(b, n),
{
}


// ---------------------------------------------------------------------------
// What the splitter returns
// ---------------------------------------------------------------------------

/// A statement as the splitter returns it: a statement with no
/// surrounding whitespace.
pub open spec fn well_cut(s: Seq<char>) -> bool {
    is_statement(s) && trim(s) == s
}

proof fn lemma_step_output(m: SplitModel, c: char)
    ensures
        step(m, c).1 matches Some(s) ==> well_cut(s),
{
    let (_, o) = step(m, c);
    if let Some(s) = o {
        lemma_trim_idempotent(s);
        // every statement that `step` returns is `trim` of something
        assert(exists|x: Seq<char>| s == trim(x));
        let x = choose|x: Seq<char>| s == trim(x);
        lemma_trim_idempotent(x);
    }
}

proof fn lemma_run_outputs(m: SplitModel, input: Seq<char>)
    ensures
        forall|i: int| 0 <= i < run(m, input).1.len() ==> well_cut(#[trigger] run(m, input).1[i]),
    decreases input.len(),
{
    if input.len() > 0 {
        let (m1, o) = step(m, input[0]);
        lemma_step_output(m, input[0]);
        lemma_run_outputs(m1, input.drop_first());
        let rest = run(m1, input.drop_first()).1;
        assert forall|i: int| 0 <= i < run(m, input).1.len() implies well_cut(#[trigger] run(m, input).1[i]) by {
            if o is Some && i == 0 {
                assert(run(m, input).1[0] == o.unwrap());
            } else if o is Some {
                assert(run(m, input).1[i] == rest[i - 1]);
            } else {
                assert(run(m, input).1[i] == rest[i]);
            }
        }
    }
}

/// Every statement the splitter returns is non-empty, has no surrounding
/// whitespace, is no `DELIMITER` directive and is not only comments.
pub proof fn law_statements_are_well_cut(script: Seq<char>)
    ensures
        forall|i: int| 0 <= i < split_statements(script).len() ==> well_cut(#[trigger] split_statements(script)[i]),
{
    let (m, out) = run(initial_model(), script);
    lemma_run_outputs(initial_model(), script);
    match flush(m) {
        Some(s) => {
            lemma_trim_idempotent(m.buffer);
        },
        None => {},
    }
    assert forall|i: int| 0 <= i < split_statements(script).len() implies well_cut(#[trigger] split_statements(script)[i]) by {
        if i < out.len() {
            assert(split_statements(script)[i] == out[i]);
        }
    }
}

/// Outside strings, comments, dollar quotes and `DELIMITER` directives,
/// with the standard `;` delimiter.
pub open spec fn plain_state(m: SplitModel) -> bool {
    &&& !m.in_string
    &&& !m.line_comment
    &&& !m.block_comment
    &&& m.dollar_quote is None
    &&& !m.directive
    &&& m.delimiter == semicolon()
}

proof fn lemma_line_comment_run(m: SplitModel, text: Seq<char>)
    requires
        m.line_comment,
        forall|i: int| 0 <= i < text.len() ==> text[i] != '\n',
    ensures
        run(m, text).1 == Seq::<Seq<char>>::empty(),
        run(m, text).0 == (SplitModel { buffer: m.buffer + text, ..m }),
    decreases text.len(),
{
    if text.len() == 0 {
        assert(m.buffer + text =~= m.buffer);
    } else {
        let m1 = step(m, text[0]).0;
        assert(m1 == with_char(m, text[0]));
        let rest = text.drop_first();
        assert forall|i: int| 0 <= i < rest.len() implies rest[i] != '\n' by {
            assert(rest[i] == text[i + 1]);
        }
        lemma_line_comment_run(m1, rest);
        assert(m1.buffer + rest =~= m.buffer + text);
        assert(opt_seq(step(m, text[0]).1) =~= Seq::<Seq<char>>::empty());
        assert(Seq::<Seq<char>>::empty() + Seq::<Seq<char>>::empty() =~= Seq::<Seq<char>>::empty());
    }
}

/// A `;` (or anything else) inside a `--` comment never ends a statement:
/// from a state outside strings, comments, dollar quotes and `DELIMITER`
/// directives, reading `--` and then any text up to a newline completes no
/// statement and keeps all of it in the statement being read; the newline
/// ends the comment.
pub proof fn law_line_comment_hides_delimiters(m: SplitModel, text: Seq<char>)
    requires
        plain_state(m),
        forall|i: int| 0 <= i < text.len() ==> text[i] != '\n',
    ensures
        plain_state(initial_model()),
        run(m, seq!['-', '-'] + text).1 == Seq::<Seq<char>>::empty(),
        run(m, seq!['-', '-'] + text).0.buffer == m.buffer + seq!['-', '-'] + text,
        run(m, seq!['-', '-'] + text + seq!['\n']).1 == Seq::<Seq<char>>::empty(),
        !run(m, seq!['-', '-'] + text + seq!['\n']).0.line_comment,
{
    let dd = seq!['-', '-'];
    assert(!is_ws('-'));
    let (m1, o1) = step(m, '-');
    assert(o1 is None);
    assert(m1.buffer == m.buffer.push('-'));
    let (m2, o2) = step(m1, '-');
    assert(o2 is None);
    assert(m2.line_comment);
    assert(m2 == (SplitModel { line_comment: true, buffer: m.buffer.push('-').push('-'), ..m }));
    assert(dd.drop_first() =~= seq!['-']);
    assert(seq!['-'].drop_first() =~= Seq::<char>::empty());
    assert(run(m1, Seq::<char>::empty()) == (m1, Seq::<Seq<char>>::empty()));
    assert(run(m2, Seq::<char>::empty()).0 == m2);
    assert(run(m1, seq!['-']).0 == m2);
    assert(run(m1, seq!['-']).1 =~= Seq::<Seq<char>>::empty());
    assert(run(m, dd).0 == m2);
    assert(run(m, dd).1 =~= Seq::<Seq<char>>::empty());
    lemma_run_concat(m, dd, text);
    lemma_line_comment_run(m2, text);
    assert(m2.buffer + text =~= m.buffer + dd + text);
    assert(run(m, dd).1 + run(m2, text).1 =~= Seq::<Seq<char>>::empty());
    let m3 = run(m2, text).0;
    lemma_run_concat(m, dd + text, seq!['\n']);
    assert(seq!['\n'].drop_first() =~= Seq::<char>::empty());
    assert(seq!['\n'][0] == '\n');
    assert(m3.line_comment);
    let (m4, o4) = step(m3, '\n');
    assert(o4 is None);
    assert(!m4.line_comment);
    assert(run(m4, Seq::<char>::empty()) == (m4, Seq::<Seq<char>>::empty()));
    assert(run(m3, seq!['\n']).0 == step(m3, '\n').0);
    assert(run(m3, seq!['\n']).1 =~= Seq::<Seq<char>>::empty());
    assert(Seq::<Seq<char>>::empty() + Seq::<Seq<char>>::empty() =~= Seq::<Seq<char>>::empty());
}

} // verus!
