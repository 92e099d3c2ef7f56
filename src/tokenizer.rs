//! The line classifier: one raw line in, one tagged line record out.
//!
//! A line is read as indentation, content and an optional trailing comment.
//! The comment starts at the first `#`; on a line that begins with `|` it
//! starts at the first `#` after the last `|`, so that cells may hold `#`.
//! Keywords match ASCII letters in either case. The content is then tried
//! against each kind in a fixed priority order, and free text is the fallback.
use vstd::prelude::*;

use crate::error::{Error, ErrorV};
use crate::types::{opt_view, texts_view, Text};

verus! {

/// A character of the Unicode White_Space property.
pub open spec fn is_ws(c: char) -> bool {
    ('\t' <= c && c <= '\r') || c == ' ' || c == '\u{85}' || c == '\u{A0}' || c == '\u{1680}'
        || ('\u{2000}' <= c && c <= '\u{200A}') || c == '\u{2028}' || c == '\u{2029}'
        || c == '\u{202F}' || c == '\u{205F}' || c == '\u{3000}'
}

/// What `char::is_alphanumeric` returns: the character is Alphabetic or
/// Numeric in Unicode.
pub uninterp spec fn alphanumeric(c: char) -> bool;

/// A character of a tag name: a Unicode letter or number, or `_`.
pub open spec fn is_word(c: char) -> bool {
    alphanumeric(c) || c == '_'
}

/// The first index from `i` that holds no whitespace (or the length).
pub open spec fn skip_ws(s: Text, i: int) -> int
    decreases s.len() - i,
{
    if 0 <= i < s.len() && is_ws(s[i]) {
        skip_ws(s, i + 1)
    } else {
        i
    }
}

/// The end of `s[lo..hi]` once trailing whitespace is dropped.
pub open spec fn trim_back(s: Text, lo: int, hi: int) -> int
    decreases hi - lo,
{
    if lo < hi && is_ws(s[hi - 1]) {
        trim_back(s, lo, hi - 1)
    } else {
        hi
    }
}

/// The first index from `i` that holds `c`, or the length.
pub open spec fn find_from(s: Text, c: char, i: int) -> int
    decreases s.len() - i,
{
    if i < 0 || i >= s.len() {
        s.len() as int
    } else if s[i] == c {
        i
    } else {
        find_from(s, c, i + 1)
    }
}

/// The last index below `hi` that holds `c`, or -1.
pub open spec fn rfind(s: Text, c: char, hi: int) -> int
    decreases hi,
{
    if hi <= 0 {
        -1
    } else if s[hi - 1] == c {
        hi - 1
    } else {
        rfind(s, c, hi - 1)
    }
}

/// The first index from `i` that holds no tag-name character.
pub open spec fn word_end(s: Text, i: int) -> int
    decreases s.len() - i,
{
    if 0 <= i < s.len() && is_word(s[i]) {
        word_end(s, i + 1)
    } else {
        i
    }
}

pub open spec fn trim(x: Text) -> Text {
    x.subrange(skip_ws(x, 0), trim_back(x, skip_ws(x, 0), x.len() as int))
}

pub open spec fn body_start(s: Text) -> int {
    skip_ws(s, 0)
}

pub open spec fn comment_start(s: Text) -> int {
    let b = body_start(s);
    if b < s.len() && s[b] == '|' {
        find_from(s, '#', rfind(s, '|', s.len() as int) + 1)
    } else {
        find_from(s, '#', b)
    }
}

/// The line without indentation, comment and trailing whitespace.
pub open spec fn content_of(s: Text) -> Text {
    s.subrange(body_start(s), trim_back(s, body_start(s), comment_start(s)))
}

/// The comment text after `#` and the whitespace that follows it.
pub open spec fn comment_of(s: Text) -> Option<Text> {
    let h = comment_start(s);
    if h < s.len() {
        Some(s.subrange(skip_ws(s, h + 1), s.len() as int))
    } else {
        None
    }
}

/// `a` equals the lower-case keyword character `k`, ignoring ASCII case.
pub open spec fn ci_eq(a: char, k: char) -> bool {
    a == k || ('a' <= k && k <= 'z' && (a as u32) + 32 == (k as u32))
}

pub open spec fn kw_at(c: Text, kw: Text) -> bool {
    kw.len() <= c.len() && forall|i: int| 0 <= i < kw.len() ==> ci_eq(#[trigger] c[i], kw[i])
}

pub open spec fn after_kw(c: Text, kw: Text) -> Text {
    c.subrange(skip_ws(c, kw.len() as int), c.len() as int)
}

pub open spec fn nonempty(x: Text) -> Option<Text> {
    if x.len() == 0 {
        None
    } else {
        Some(x)
    }
}

/// The text of a step line: the keyword, at least one space, then text.
pub open spec fn step_rest(c: Text, kw: Text) -> Option<Text> {
    if kw_at(c, kw) && kw.len() < c.len() && is_ws(c[kw.len() as int]) && skip_ws(
        c,
        kw.len() as int,
    ) < c.len() {
        Some(after_kw(c, kw))
    } else {
        None
    }
}

pub open spec fn lang_code(c: Text) -> Option<Text> {
    let r = after_kw(c, kw_language());
    if kw_at(c, kw_language()) && r.len() > 0 && forall|i: int| 0 <= i < r.len() ==> !is_ws(#[trigger] r[i]) {
        Some(r)
    } else {
        None
    }
}

/// Tag names of a line made only of `@name` tokens, from index `i` on.
pub open spec fn tags_acc(c: Text, i: int, acc: Seq<Text>) -> Option<Seq<Text>>
    decreases c.len() - i,
{
    if i < 0 || i >= c.len() || c[i] != '@' {
        None
    } else {
        let j = word_end(c, i + 1);
        let acc2 = acc.push(c.subrange(i + 1, j));
        if j == i + 1 {
            None
        } else if j >= c.len() {
            Some(acc2)
        } else if !is_ws(c[j]) {
            None
        } else {
            let k = skip_ws(c, j);
            if k <= i || k > c.len() {
                None
            } else {
                tags_acc(c, k, acc2)
            }
        }
    }
}

/// Trimmed cells of the inside of a table row, split on `|`.
pub open spec fn cells_acc(t: Text, i: int, start: int, acc: Seq<Text>) -> Seq<Text>
    decreases t.len() - i,
{
    if i >= t.len() {
        acc.push(trim(t.subrange(start, t.len() as int)))
    } else if t[i] == '|' {
        cells_acc(t, i + 1, i + 1, acc.push(trim(t.subrange(start, i))))
    } else {
        cells_acc(t, i + 1, start, acc)
    }
}

pub open spec fn is_delimiter(c: Text) -> bool {
    c == seq!['"', '"', '"'] || c == seq!['\'', '\'', '\'']
}

pub open spec fn is_table_row(c: Text) -> bool {
    c.len() >= 2 && c[0] == '|' && c[c.len() - 1] == '|'
}

pub open spec fn kw_language() -> Text {
    seq!['l', 'a', 'n', 'g', 'u', 'a', 'g', 'e', ':']
}

pub open spec fn kw_feature() -> Text {
    seq!['f', 'e', 'a', 't', 'u', 'r', 'e', ':']
}

pub open spec fn kw_background() -> Text {
    seq!['b', 'a', 'c', 'k', 'g', 'r', 'o', 'u', 'n', 'd', ':']
}

pub open spec fn kw_outline() -> Text {
    seq!['s', 'c', 'e', 'n', 'a', 'r', 'i', 'o', ' ', 'o', 'u', 't', 'l', 'i', 'n', 'e', ':']
}

pub open spec fn kw_scenario() -> Text {
    seq!['s', 'c', 'e', 'n', 'a', 'r', 'i', 'o', ':']
}

pub open spec fn kw_given() -> Text {
    seq!['g', 'i', 'v', 'e', 'n']
}

pub open spec fn kw_when() -> Text {
    seq!['w', 'h', 'e', 'n']
}

pub open spec fn kw_then() -> Text {
    seq!['t', 'h', 'e', 'n']
}

pub open spec fn kw_and() -> Text {
    seq!['a', 'n', 'd']
}

pub open spec fn kw_but() -> Text {
    seq!['b', 'u', 't']
}

pub open spec fn kw_examples() -> Text {
    seq!['e', 'x', 'a', 'm', 'p', 'l', 'e', 's', ':']
}

/// What a classified line is, without its position and comment.
pub ghost enum KindV {
    Empty,
    Language(Text),
    Tags(Seq<Text>),
    Feature(Option<Text>),
    Background,
    Scenario(Option<Text>),
    Outline(Option<Text>),
    Given(Text),
    When(Text),
    Then(Text),
    And(Text),
    But(Text),
    Examples,
    TableRow(Seq<Text>),
    DocString(Text),
    Other(Text),
}

/// The kind of a line's content, tried in priority order; `None` when no kind fits.
pub open spec fn kind_of(c: Text) -> Option<KindV> {
    if c.len() == 0 {
        Some(KindV::Empty)
    } else if lang_code(c) is Some {
        Some(KindV::Language(lang_code(c)->0))
    } else if tags_acc(c, 0, seq![]) is Some {
        Some(KindV::Tags(tags_acc(c, 0, seq![])->0))
    } else if kw_at(c, kw_feature()) {
        Some(KindV::Feature(nonempty(after_kw(c, kw_feature()))))
    } else if kw_at(c, kw_background()) {
        Some(KindV::Background)
    } else if kw_at(c, kw_outline()) {
        Some(KindV::Outline(nonempty(after_kw(c, kw_outline()))))
    } else if kw_at(c, kw_scenario()) {
        Some(KindV::Scenario(nonempty(after_kw(c, kw_scenario()))))
    } else if step_rest(c, kw_given()) is Some {
        Some(KindV::Given(step_rest(c, kw_given())->0))
    } else if step_rest(c, kw_when()) is Some {
        Some(KindV::When(step_rest(c, kw_when())->0))
    } else if step_rest(c, kw_then()) is Some {
        Some(KindV::Then(step_rest(c, kw_then())->0))
    } else if step_rest(c, kw_and()) is Some {
        Some(KindV::And(step_rest(c, kw_and())->0))
    } else if step_rest(c, kw_but()) is Some {
        Some(KindV::But(step_rest(c, kw_but())->0))
    } else if kw_at(c, kw_examples()) {
        Some(KindV::Examples)
    } else if is_table_row(c) {
        Some(KindV::TableRow(cells_acc(c.subrange(1, c.len() - 1), 0, 0, seq![])))
    } else if is_delimiter(c) {
        Some(KindV::DocString(c))
    } else if forall|i: int| 0 <= i < c.len() ==> #[trigger] c[i] != '#' {
        Some(KindV::Other(c))
    } else {
        None
    }
}

/// A classified line: indentation width, comment, kind.
pub type LineV = (nat, Option<Text>, KindV);

/// The record of a raw line, or `None` when its content fits no kind.
pub open spec fn classify(s: Text) -> Option<LineV> {
    match kind_of(content_of(s)) {
        Some(k) => Some((body_start(s) as nat, comment_of(s), k)),
        None => None,
    }
}

pub open spec fn cannot_classify_msg(s: Text) -> Text {
    "cannot classify line: "@ + s
}

/// A classified line. Each variant holds the indentation width and the
/// comment first, then its payload.
#[derive(Debug)]
pub enum Line {
    EmptyLine(usize, Option<String>),
    Language(usize, Option<String>, String),
    Tags(usize, Option<String>, Vec<String>),
    Feature(usize, Option<String>, Option<String>),
    Background(usize, Option<String>),
    Scenario(usize, Option<String>, Option<String>),
    ScenarioOutline(usize, Option<String>, Option<String>),
    GivenStep(usize, Option<String>, String),
    WhenStep(usize, Option<String>, String),
    ThenStep(usize, Option<String>, String),
    AndStep(usize, Option<String>, String),
    ButStep(usize, Option<String>, String),
    Examples(usize, Option<String>),
    TableRow(usize, Option<String>, Vec<String>),
    DocStringDelimiter(usize, Option<String>, String),
    Other(usize, Option<String>, String),
}

impl View for Line {
    type V = LineV;

    open spec fn view(&self) -> LineV {
        match self {
            Line::EmptyLine(n, c) => (*n as nat, opt_view(*c), KindV::Empty),
            Line::Language(n, c, x) => (*n as nat, opt_view(*c), KindV::Language(x@)),
            Line::Tags(n, c, x) => (*n as nat, opt_view(*c), KindV::Tags(texts_view(x@))),
            Line::Feature(n, c, x) => (*n as nat, opt_view(*c), KindV::Feature(opt_view(*x))),
            Line::Background(n, c) => (*n as nat, opt_view(*c), KindV::Background),
            Line::Scenario(n, c, x) => (*n as nat, opt_view(*c), KindV::Scenario(opt_view(*x))),
            Line::ScenarioOutline(n, c, x) => (*n as nat, opt_view(*c), KindV::Outline(opt_view(*x))),
            Line::GivenStep(n, c, x) => (*n as nat, opt_view(*c), KindV::Given(x@)),
            Line::WhenStep(n, c, x) => (*n as nat, opt_view(*c), KindV::When(x@)),
            Line::ThenStep(n, c, x) => (*n as nat, opt_view(*c), KindV::Then(x@)),
            Line::AndStep(n, c, x) => (*n as nat, opt_view(*c), KindV::And(x@)),
            Line::ButStep(n, c, x) => (*n as nat, opt_view(*c), KindV::But(x@)),
            Line::Examples(n, c) => (*n as nat, opt_view(*c), KindV::Examples),
            Line::TableRow(n, c, x) => (*n as nat, opt_view(*c), KindV::TableRow(texts_view(x@))),
            Line::DocStringDelimiter(n, c, x) => (*n as nat, opt_view(*c), KindV::DocString(x@)),
            Line::Other(n, c, x) => (*n as nat, opt_view(*c), KindV::Other(x@)),
        }
    }
}

fn is_ws_char(c: char) -> (r: bool)
    ensures
        r == is_ws(c),
{
    ('\t' <= c && c <= '\r') || c == ' ' || c == '\u{85}' || c == '\u{A0}' || c == '\u{1680}'
        || ('\u{2000}' <= c && c <= '\u{200A}') || c == '\u{2028}' || c == '\u{2029}'
        || c == '\u{202F}' || c == '\u{205F}' || c == '\u{3000}'
}

/// Relies on std's `char::is_alphanumeric`, whose result depends on the
/// character alone.
#[verifier::external_body]
fn is_alphanumeric_char(c: char) -> (r: bool)
    ensures
        r == alphanumeric(c),
{
    c.is_alphanumeric()
}

fn is_word_char(c: char) -> (r: bool)
    ensures
        r == is_word(c),
{
    is_alphanumeric_char(c) || c == '_'
}

fn skip_ws_at(s: &str, n: usize, i: usize) -> (r: usize)
    requires
        n == s@.len(),
        i <= n,
    ensures
        r as int == skip_ws(s@, i as int),
        i <= r <= n,
{
    let mut k = i;
    while k < n && is_ws_char(s.get_char(k))
        invariant
            n == s@.len(),
            i <= k <= n,
            skip_ws(s@, k as int) == skip_ws(s@, i as int),
        decreases n - k,
    {
        k = k + 1;
    }
    k
}

fn word_end_at(s: &str, n: usize, i: usize) -> (r: usize)
    requires
        n == s@.len(),
        i <= n,
    ensures
        r as int == word_end(s@, i as int),
        i <= r <= n,
{
    let mut k = i;
    while k < n && is_word_char(s.get_char(k))
        invariant
            n == s@.len(),
            i <= k <= n,
            word_end(s@, k as int) == word_end(s@, i as int),
        decreases n - k,
    {
        k = k + 1;
    }
    k
}

fn trim_back_at(s: &str, lo: usize, hi: usize) -> (r: usize)
    requires
        lo <= hi <= s@.len(),
    ensures
        r as int == trim_back(s@, lo as int, hi as int),
        lo <= r <= hi,
{
    let mut k = hi;
    while lo < k && is_ws_char(s.get_char(k - 1))
        invariant
            lo <= k <= hi <= s@.len(),
            trim_back(s@, lo as int, k as int) == trim_back(s@, lo as int, hi as int),
        decreases k,
    {
        k = k - 1;
    }
    k
}

fn find_from_at(s: &str, n: usize, c: char, i: usize) -> (r: usize)
    requires
        n == s@.len(),
        i <= n,
    ensures
        r as int == find_from(s@, c, i as int),
        i <= r <= n,
{
    let mut k = i;
    while k < n && s.get_char(k) != c
        invariant
            n == s@.len(),
            i <= k <= n,
            find_from(s@, c, k as int) == find_from(s@, c, i as int),
        decreases n - k,
    {
        k = k + 1;
    }
    k
}

/// One past the last index that holds `c` (0 when there is none).
fn rfind_after(s: &str, n: usize, c: char) -> (r: usize)
    requires
        n == s@.len(),
    ensures
        r as int == rfind(s@, c, n as int) + 1,
        r <= n,
        forall|j: int| r <= j < n ==> s@[j] != c,
{
    let mut k = n;
    while k > 0 && s.get_char(k - 1) != c
        invariant
            n == s@.len(),
            k <= n,
            rfind(s@, c, k as int) == rfind(s@, c, n as int),
            forall|j: int| k <= j < n ==> s@[j] != c,
        decreases k,
    {
        k = k - 1;
    }
    k
}

fn trim_str(x: &str) -> (r: String)
    ensures
        r@ == trim(x@),
{
    let n = x.unicode_len();
    let b = skip_ws_at(x, n, 0);
    let e = trim_back_at(x, b, n);
    x.substring_char(b, e).to_owned()
}

/// Does the content start with the keyword, ignoring ASCII case?
fn kw_at_exec(c: &str, n: usize, kw: &[char]) -> (r: bool)
    requires
        n == c@.len(),
    ensures
        r == kw_at(c@, kw@),
{
    if kw.len() > n {
        return false;
    }
    let mut i: usize = 0;
    while i < kw.len()
        invariant
            n == c@.len(),
            kw@.len() <= n,
            i <= kw@.len(),
            forall|j: int| 0 <= j < i ==> ci_eq(#[trigger] c@[j], kw@[j]),
        decreases kw@.len() - i,
    {
        let a = c.get_char(i);
        let k = kw[i];
        if !(a == k || ('a' <= k && k <= 'z' && (a as u32) + 32 == (k as u32))) {
            return false;
        }
        i = i + 1;
    }
    true
}

fn after_kw_exec(c: &str, n: usize, kwlen: usize) -> (r: String)
    requires
        n == c@.len(),
        kwlen <= n,
    ensures
        r@ == c@.subrange(skip_ws(c@, kwlen as int), n as int),
{
    let k = skip_ws_at(c, n, kwlen);
    c.substring_char(k, n).to_owned()
}

fn nonempty_exec(x: String) -> (r: Option<String>)
    ensures
        opt_view(r) == nonempty(x@),
{
    if x.unicode_len() == 0 {
        None
    } else {
        Some(x)
    }
}

fn step_rest_exec(c: &str, n: usize, kw: &[char]) -> (r: Option<String>)
    requires
        n == c@.len(),
    ensures
        opt_view(r) == step_rest(c@, kw@),
{
    if kw_at_exec(c, n, kw) && kw.len() < n && is_ws_char(c.get_char(kw.len())) {
        let k = skip_ws_at(c, n, kw.len());
        if k < n {
            return Some(c.substring_char(k, n).to_owned());
        }
    }
    None
}

fn lang_code_exec(c: &str, n: usize) -> (r: Option<String>)
    requires
        n == c@.len(),
    ensures
        opt_view(r) == lang_code(c@),
{
    let kw = ['l', 'a', 'n', 'g', 'u', 'a', 'g', 'e', ':'];
    assert(kw@ =~= kw_language());
    if !kw_at_exec(c, n, &kw) {
        return None;
    }
    let k = skip_ws_at(c, n, kw.len());
    let r = c.substring_char(k, n);
    assert(r@ == after_kw(c@, kw_language()));
    let m = n - k;
    if m == 0 {
        return None;
    }
    let mut i: usize = 0;
    while i < m
        invariant
            r@ == after_kw(c@, kw_language()),
            kw_at(c@, kw_language()),
            m == r@.len(),
            i <= m,
            forall|j: int| 0 <= j < i ==> !is_ws(#[trigger] r@[j]),
        decreases m - i,
    {
        if is_ws_char(r.get_char(i)) {
            assert(!(forall|j: int| 0 <= j < r@.len() ==> !is_ws(#[trigger] r@[j])));
            return None;
        }
        i = i + 1;
    }
    Some(r.to_owned())
}

fn tags_exec(c: &str, n: usize) -> (r: Option<Vec<String>>)
    requires
        n == c@.len(),
    ensures
        r matches Some(v) ==> tags_acc(c@, 0, seq![]) == Some(texts_view(v@)),
        r is None ==> tags_acc(c@, 0, seq![]) is None,
{
    let mut acc: Vec<String> = Vec::new();
    let mut i: usize = 0;
    assert(texts_view(acc@) =~= seq![]);
    loop
        invariant
            n == c@.len(),
            i <= n,
            tags_acc(c@, 0, seq![]) == tags_acc(c@, i as int, texts_view(acc@)),
        decreases n - i,
    {
        if i >= n || c.get_char(i) != '@' {
            return None;
        }
        let j = word_end_at(c, n, i + 1);
        if j == i + 1 {
            return None;
        }
        let ghost before = texts_view(acc@);
        let tag = c.substring_char(i + 1, j).to_owned();
        acc.push(tag);
        assert(texts_view(acc@) =~= before.push(c@.subrange(i + 1, j as int)));
        if j >= n {
            return Some(acc);
        }
        if !is_ws_char(c.get_char(j)) {
            return None;
        }
        let k = skip_ws_at(c, n, j);
        if k <= i {
            return None;
        }
        i = k;
    }
}

fn cells_exec(t: &str) -> (r: Vec<String>)
    ensures
        texts_view(r@) == cells_acc(t@, 0, 0, seq![]),
{
    let n = t.unicode_len();
    let mut acc: Vec<String> = Vec::new();
    let mut i: usize = 0;
    let mut start: usize = 0;
    assert(texts_view(acc@) =~= seq![]);
    while i < n
        invariant
            n == t@.len(),
            start <= i <= n,
            cells_acc(t@, 0, 0, seq![]) == cells_acc(t@, i as int, start as int, texts_view(acc@)),
        decreases n - i,
    {
        if t.get_char(i) == '|' {
            let ghost before = texts_view(acc@);
            let cell = trim_str(t.substring_char(start, i));
            acc.push(cell);
            assert(texts_view(acc@) =~= before.push(trim(t@.subrange(start as int, i as int))));
            start = i + 1;
        }
        i = i + 1;
    }
    let ghost before = texts_view(acc@);
    let cell = trim_str(t.substring_char(start, n));
    acc.push(cell);
    assert(texts_view(acc@) =~= before.push(trim(t@.subrange(start as int, n as int))));
    acc
}

/// The record for a line's content, given its indentation and comment.
fn classify_content(c: &str, indent: usize, comment: Option<String>) -> (r: Option<Line>)
    ensures
        r is None <==> kind_of(c@) is None,
        r matches Some(l) ==> l@ == (indent as nat, opt_view(comment), kind_of(c@)->0),
{
    let n = c.unicode_len();
    if n == 0 {
        return Some(Line::EmptyLine(indent, comment));
    }
    if let Some(code) = lang_code_exec(c, n) {
        return Some(Line::Language(indent, comment, code));
    }
    if let Some(tags) = tags_exec(c, n) {
        return Some(Line::Tags(indent, comment, tags));
    }
    let kw = ['f', 'e', 'a', 't', 'u', 'r', 'e', ':'];
    assert(kw@ =~= kw_feature());
    if kw_at_exec(c, n, &kw) {
        let rest = after_kw_exec(c, n, kw.len());
        return Some(Line::Feature(indent, comment, nonempty_exec(rest)));
    }
    let kw = ['b', 'a', 'c', 'k', 'g', 'r', 'o', 'u', 'n', 'd', ':'];
    assert(kw@ =~= kw_background());
    if kw_at_exec(c, n, &kw) {
        return Some(Line::Background(indent, comment));
    }
    let kw = ['s', 'c', 'e', 'n', 'a', 'r', 'i', 'o', ' ', 'o', 'u', 't', 'l', 'i', 'n', 'e', ':'];
    assert(kw@ =~= kw_outline());
    if kw_at_exec(c, n, &kw) {
        let rest = after_kw_exec(c, n, kw.len());
        return Some(Line::ScenarioOutline(indent, comment, nonempty_exec(rest)));
    }
    let kw = ['s', 'c', 'e', 'n', 'a', 'r', 'i', 'o', ':'];
    assert(kw@ =~= kw_scenario());
    if kw_at_exec(c, n, &kw) {
        let rest = after_kw_exec(c, n, kw.len());
        return Some(Line::Scenario(indent, comment, nonempty_exec(rest)));
    }
    let kw = ['g', 'i', 'v', 'e', 'n'];
    assert(kw@ =~= kw_given());
    if let Some(text) = step_rest_exec(c, n, &kw) {
        return Some(Line::GivenStep(indent, comment, text));
    }
    let kw = ['w', 'h', 'e', 'n'];
    assert(kw@ =~= kw_when());
    if let Some(text) = step_rest_exec(c, n, &kw) {
        return Some(Line::WhenStep(indent, comment, text));
    }
    let kw = ['t', 'h', 'e', 'n'];
    assert(kw@ =~= kw_then());
    if let Some(text) = step_rest_exec(c, n, &kw) {
        return Some(Line::ThenStep(indent, comment, text));
    }
    let kw = ['a', 'n', 'd'];
    assert(kw@ =~= kw_and());
    if let Some(text) = step_rest_exec(c, n, &kw) {
        return Some(Line::AndStep(indent, comment, text));
    }
    let kw = ['b', 'u', 't'];
    assert(kw@ =~= kw_but());
    if let Some(text) = step_rest_exec(c, n, &kw) {
        return Some(Line::ButStep(indent, comment, text));
    }
    let kw = ['e', 'x', 'a', 'm', 'p', 'l', 'e', 's', ':'];
    assert(kw@ =~= kw_examples());
    if kw_at_exec(c, n, &kw) {
        return Some(Line::Examples(indent, comment));
    }
    if n >= 2 && c.get_char(0) == '|' && c.get_char(n - 1) == '|' {
        let cells = cells_exec(c.substring_char(1, n - 1));
        return Some(Line::TableRow(indent, comment, cells));
    }
    if n == 3 {
        let a = c.get_char(0);
        if (a == '"' || a == '\'') && c.get_char(1) == a && c.get_char(2) == a {
            assert(c@ =~= seq![a, a, a]);
            return Some(Line::DocStringDelimiter(indent, comment, c.to_owned()));
        }
    }
    assert(!is_delimiter(c@)) by {
        if is_delimiter(c@) {
            assert(c@[0] == c@[1] && c@[1] == c@[2]);
        }
    }
    assert(kind_of(c@) == (if (forall|j: int| 0 <= j < c@.len() ==> #[trigger] c@[j] != '#') {
        Some(KindV::Other(c@))
    } else {
        None
    }));
    let mut i: usize = 0;
    while i < n
        invariant
            n == c@.len(),
            i <= n,
            forall|j: int| 0 <= j < i ==> #[trigger] c@[j] != '#',
            kind_of(c@) == (if (forall|j: int| 0 <= j < c@.len() ==> #[trigger] c@[j] != '#') {
                Some(KindV::Other(c@))
            } else {
                None
            }),
        decreases n - i,
    {
        if c.get_char(i) == '#' {
            assert(c@[i as int] == '#');
            return None;
        }
        i = i + 1;
    }
    Some(Line::Other(indent, comment, c.to_owned()))
}

/// Classifies one raw line of a feature file.
pub fn parse_line(line: &str) -> (r: Result<Line, Error>)
    ensures
        r matches Ok(l) ==> classify(line@) == Some(l@),
        r matches Err(e) ==> classify(line@) is None && e@ == ErrorV::Misc(
            cannot_classify_msg(line@),
        ),
{
    let n = line.unicode_len();
    let b = skip_ws_at(line, n, 0);
    let h = if b < n && line.get_char(b) == '|' {
        let p = rfind_after(line, n, '|');
        find_from_at(line, n, '#', p)
    } else {
        find_from_at(line, n, '#', b)
    };
    assert(h as int == comment_start(line@));
    let e = trim_back_at(line, b, h);
    let c = line.substring_char(b, e);
    let comment = if h < n {
        let k = skip_ws_at(line, n, h + 1);
        Some(line.substring_char(k, n).to_owned())
    } else {
        None
    };
    assert(opt_view(comment) == comment_of(line@));
    match classify_content(c, b, comment) {
        Some(l) => Ok(l),
        None => {
            let mut m = "cannot classify line: ".to_owned();
            m.append(line);
            Err(Error::Misc(m))
        },
    }
}

} // verus!
