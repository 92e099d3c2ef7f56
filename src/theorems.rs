//! Facts about the grammar, proved from the transition function.
use vstd::prelude::*;

use crate::error::ErrorV;
use crate::parser::{
    can_attach, flush, init_spec, wf, msg_no_feature, msg_tags, msg_unterminated, parse_spec,
    run, step_spec, ModeV, ParserV, State,
};
use crate::tokenizer::{classify, KindV};
use crate::types::{ArgV, FeatureV, StepKind, StepV, Text};

verus! {

/// The kind of a raw line, or `None` when it cannot be classified.
pub open spec fn line_kind(raw: Text) -> Option<KindV> {
    match classify(raw) {
        Some(l) => Some(l.2),
        None => None,
    }
}

/// The kind a Given, When or Then line stores.
pub open spec fn explicit_kind(k: KindV) -> Option<StepKind> {
    match k {
        KindV::Given(_) => Some(StepKind::Given),
        KindV::When(_) => Some(StepKind::When),
        KindV::Then(_) => Some(StepKind::Then),
        _ => None,
    }
}

/// Lines fed one by one from state `p`, numbered from `n`.
pub open spec fn feed_lines(p: ParserV, n: nat, lines: Seq<Text>) -> Result<ParserV, ErrorV>
    decreases lines.len(),
{
    if lines.len() == 0 {
        Ok(p)
    } else {
        match step_spec(p, n, lines[0]) {
            Ok(q) => feed_lines(q, n + 1, lines.drop_first()),
            Err(e) => Err(e),
        }
    }
}

/// A state right after a step line that a doc-string or table may follow.
pub open spec fn ready_for_argument(p: ParserV) -> bool {
    can_attach(p) && p.pending is None && p.mode is Idle
}

/// The last step of the block with its argument replaced.
pub open spec fn with_last_arg(steps: Seq<StepV>, a: ArgV) -> Seq<StepV> {
    steps.update(steps.len() - 1, StepV { arg: a, ..steps.last() })
}

/// An And or But step right after a Given, When or Then step is stored with
/// that step's kind.
pub proof fn lemma_and_but_take_previous_kind(
    p: ParserV,
    n: nat,
    first: Text,
    second: Text,
)
    requires
        !(p.mode is DocString),
        step_spec(p, n, first) is Ok,
        line_kind(first) matches Some(k) && explicit_kind(k) is Some,
        line_kind(second) matches Some(k) && (k is And || k is But),
    ensures
        feed_lines(p, n, seq![first, second]) matches Ok(r) && r.block.steps.len() >= 1
            && r.block.steps.last().kind == explicit_kind(line_kind(first)->0)->0,
{
    reveal_with_fuel(feed_lines, 3);
    let q = step_spec(p, n, first)->Ok_0;
    assert(seq![first, second].drop_first() =~= seq![second]);
    assert(seq![second].drop_first() =~= Seq::<Text>::empty());
    assert(q.last_kind == explicit_kind(line_kind(first)->0));
    assert(q.state != State::Header && q.pending is None && q.mode is Idle);
}

/// Parsing depends on the file name and the lines alone: the same input parsed
/// twice gives equal document trees, or equal errors.
pub proof fn lemma_parse_is_deterministic(
    f1: Text,
    lines1: Seq<Text>,
    f2: Text,
    lines2: Seq<Text>,
)
    requires
        f1 == f2,
        lines1 == lines2,
    ensures
        parse_spec(f1, lines1) == parse_spec(f2, lines2),
{
}

/// A step followed by an opening delimiter, two lines and the same delimiter
/// gets the two lines, joined by a newline and verbatim, as its argument,
/// whatever kind of line they would be outside the doc-string.
pub proof fn lemma_doc_string_round_trip(
    p: ParserV,
    n: nat,
    open: Text,
    a: Text,
    b: Text,
    close: Text,
    d: Text,
)
    requires
        ready_for_argument(p),
        line_kind(open) == Some(KindV::DocString(d)),
        line_kind(a) != Some(KindV::DocString(d)),
        line_kind(b) != Some(KindV::DocString(d)),
        line_kind(close) == Some(KindV::DocString(d)),
    ensures
        feed_lines(p, n, seq![open, a, b, close]) matches Ok(r) && r.mode is Idle
            && r.block.steps == with_last_arg(
            p.block.steps,
            ArgV::MultiLine(a + seq!['\n'] + b),
        ),
{
    reveal_with_fuel(feed_lines, 5);
    reveal_with_fuel(crate::parser::join_lines, 3);
    let ls = seq![open, a, b, close];
    assert(ls.drop_first() =~= seq![a, b, close]);
    assert(seq![a, b, close].drop_first() =~= seq![b, close]);
    assert(seq![b, close].drop_first() =~= seq![close]);
    assert(seq![close].drop_first() =~= Seq::<Text>::empty());
    assert(seq![a, b].drop_last() =~= seq![a]);
    let p1 = step_spec(p, n, open)->Ok_0;
    assert(p1.mode == ModeV::DocString(d, n, seq![]));
    let p2 = step_spec(p1, n + 1, a)->Ok_0;
    assert(seq![].push(a) =~= seq![a]);
    assert(p2.mode == ModeV::DocString(d, n, seq![a]));
    let p3 = step_spec(p2, n + 2, b)->Ok_0;
    assert(seq![a].push(b) =~= seq![a, b]);
    assert(p3.mode == ModeV::DocString(d, n, seq![a, b]));
}

/// A step followed by two table rows gets a table of those two rows, in order.
pub proof fn lemma_table_round_trip(
    p: ParserV,
    n: nat,
    first: Text,
    second: Text,
    r1: Seq<Text>,
    r2: Seq<Text>,
)
    requires
        ready_for_argument(p),
        line_kind(first) == Some(KindV::TableRow(r1)),
        line_kind(second) == Some(KindV::TableRow(r2)),
    ensures
        feed_lines(p, n, seq![first, second]) matches Ok(r) && r.block.steps == with_last_arg(
            p.block.steps,
            ArgV::Table(seq![r1, r2]),
        ),
{
    reveal_with_fuel(feed_lines, 3);
    assert(seq![first, second].drop_first() =~= seq![second]);
    assert(seq![second].drop_first() =~= Seq::<Text>::empty());
    let p1 = step_spec(p, n, first)->Ok_0;
    assert(p1.mode is StepTable);
    assert(p1.block.steps.last().arg == ArgV::Table(seq![r1]));
    assert(seq![r1].push(r2) =~= seq![r1, r2]);
}

proof fn lemma_blank_run(f: Text, lines: Seq<Text>, i: int)
    requires
        0 <= i <= lines.len(),
        forall|j: int| 0 <= j < lines.len() ==> line_kind(#[trigger] lines[j]) == Some(KindV::Empty),
    ensures
        run(init_spec(f), lines, i) == Ok::<ParserV, ErrorV>(init_spec(f)),
    decreases lines.len() - i,
{
    if i < lines.len() {
        assert(line_kind(lines[i]) == Some(KindV::Empty));
        assert(step_spec(init_spec(f), (i + 1) as nat, lines[i]) == Ok::<ParserV, ErrorV>(init_spec(f)));
        lemma_blank_run(f, lines, i + 1);
    }
}

/// A file with no lines, or only blank and comment lines, declares no Feature
/// and is refused.
pub proof fn lemma_blank_file_refused(f: Text, lines: Seq<Text>)
    requires
        forall|j: int| 0 <= j < lines.len() ==> line_kind(#[trigger] lines[j]) == Some(KindV::Empty),
    ensures
        parse_spec(f, lines) == Err::<FeatureV, ErrorV>(
            ErrorV::Parse(f, lines.len(), msg_no_feature()),
        ),
{
    lemma_blank_run(f, lines, 0);
}

/// Running a file is running all its lines but the last, then the last.
pub proof fn lemma_run_last(p: ParserV, lines: Seq<Text>, i: int)
    requires
        0 <= i < lines.len(),
    ensures
        run(p, lines, i) == match run(p, lines.drop_last(), i) {
            Ok(q) => step_spec(q, lines.len() as nat, lines.last()),
            Err(e) => Err(e),
        },
    decreases lines.len() - i,
{
    if i + 1 < lines.len() {
        assert(lines.drop_last()[i] == lines[i]);
        match step_spec(p, (i + 1) as nat, lines[i]) {
            Ok(q) => lemma_run_last(q, lines, i + 1),
            Err(e) => {},
        }
    } else {
        match step_spec(p, (i + 1) as nat, lines[i]) {
            Ok(q) => {
                assert(run(q, lines, i + 1) == Ok::<ParserV, ErrorV>(q));
            },
            Err(e) => {},
        }
    }
}

/// A Tags line as the last line of a file is refused: no declaration follows it.
pub proof fn lemma_trailing_tags_refused(f: Text, lines: Seq<Text>)
    requires
        lines.len() > 0,
        run(init_spec(f), lines.drop_last(), 0) matches Ok(p) && !(p.mode is DocString),
        line_kind(lines.last()) matches Some(k) && k is Tags,
    ensures
        parse_spec(f, lines) matches Err(ErrorV::Parse(_, n, msg)) && n == lines.len() && msg
            == msg_tags(),
{
    lemma_run_last(init_spec(f), lines, 0);
}

/// While a doc-string is open, its opening line is a delimiter line of the file.
proof fn lemma_open_line(f: Text, lines: Seq<Text>)
    requires
        run(init_spec(f), lines, 0) is Ok,
    ensures
        run(init_spec(f), lines, 0)->Ok_0.mode matches ModeV::DocString(d, o, _) ==> 1 <= o
            <= lines.len() && line_kind(lines[o - 1]) == Some(KindV::DocString(d)),
    decreases lines.len(),
{
    if lines.len() > 0 {
        lemma_run_last(init_spec(f), lines, 0);
        let pre = lines.drop_last();
        lemma_open_line(f, pre);
        let p = run(init_spec(f), pre, 0)->Ok_0;
        let q = run(init_spec(f), lines, 0)->Ok_0;
        if let ModeV::DocString(d, o, _) = q.mode {
            if let ModeV::DocString(d0, o0, _) = p.mode {
                assert(pre[o0 - 1] == lines[o0 - 1]);
            } else {
                assert(o == lines.len());
            }
        }
    }
}

/// A file that ends inside a doc-string is refused as an unterminated
/// multi-line argument, at the line of its opening delimiter.
pub proof fn lemma_unterminated_doc_string(f: Text, lines: Seq<Text>)
    requires
        run(init_spec(f), lines, 0) matches Ok(p) && p.mode is DocString,
    ensures
        parse_spec(f, lines) matches Err(ErrorV::Parse(_, o, msg)) && msg == msg_unterminated()
            && 1 <= o <= lines.len() && (line_kind(lines[o - 1]) matches Some(k) && k is DocString),
{
    lemma_open_line(f, lines);
}

#[verifier::rlimit(50)]
/// In a Scenario Outline, two Examples blocks of one row each give two more
/// tables, each holding only its own row.
pub proof fn lemma_two_examples_blocks(
    p: ParserV,
    n: nat,
    ex1: Text,
    row1: Text,
    ex2: Text,
    row2: Text,
    r1: Seq<Text>,
    r2: Seq<Text>,
)
    requires
        p.state == State::ScenarioOutline,
        p.pending is None,
        !(p.mode is DocString),
        line_kind(ex1) == Some(KindV::Examples),
        line_kind(ex2) == Some(KindV::Examples),
        line_kind(row1) == Some(KindV::TableRow(r1)),
        line_kind(row2) == Some(KindV::TableRow(r2)),
    ensures
        feed_lines(p, n, seq![ex1, row1, ex2, row2]) matches Ok(r) && r.block.examples
            == p.block.examples.push(seq![r1]).push(seq![r2]),
{
    reveal_with_fuel(feed_lines, 5);
    let ls = seq![ex1, row1, ex2, row2];
    assert(ls.drop_first() =~= seq![row1, ex2, row2]);
    assert(seq![row1, ex2, row2].drop_first() =~= seq![ex2, row2]);
    assert(seq![ex2, row2].drop_first() =~= seq![row2]);
    assert(seq![row2].drop_first() =~= Seq::<Text>::empty());
    let e = p.block.examples;
    assert(step_spec(p, n, ex1) is Ok);
    let p1 = step_spec(p, n, ex1)->Ok_0;
    assert(p1.block.examples == e.push(seq![]) && p1.mode is ExamplesTable && p1.pending is None);
    assert(step_spec(p1, n + 1, row1) is Ok);
    let p2 = step_spec(p1, n + 1, row1)->Ok_0;
    assert(p2.block.examples =~= e.push(seq![r1]));
    assert(p2.state == State::ScenarioOutline && p2.pending is None && p2.mode is ExamplesTable);
    assert(step_spec(p2, n + 2, ex2) is Ok);
    let p3 = step_spec(p2, n + 2, ex2)->Ok_0;
    assert(p3.block.examples == e.push(seq![r1]).push(seq![]) && p3.mode is ExamplesTable && p3.pending is None);
    assert(step_spec(p3, n + 3, row2) is Ok);
    let p4 = step_spec(p3, n + 3, row2)->Ok_0;
    assert(p4.block.examples =~= e.push(seq![r1]).push(seq![r2]));
}

/// Some step of `ss` has line number `n` and kind `k`.
pub open spec fn steps_have(ss: Seq<StepV>, n: nat, k: StepKind) -> bool {
    exists|j: int| 0 <= j < ss.len() && (#[trigger] ss[j]).lineno == n && ss[j].kind == k
}

/// The document holds a step with line number `n` and kind `k`, in its
/// Background or in one of its scenarios.
pub open spec fn tree_has_step(f: FeatureV, n: nat, k: StepKind) -> bool {
    (f.background matches Some(bs) && steps_have(bs, n, k)) || exists|i: int|
        0 <= i < f.items.len() && steps_have((#[trigger] f.items[i]).steps, n, k)
}

/// The state holds such a step, stored or in the block under construction.
pub open spec fn holds_step(p: ParserV, n: nat, k: StepKind) -> bool {
    tree_has_step(p.feature, n, k) || (p.state != State::Header && steps_have(p.block.steps, n, k))
}

/// The transition keeps the invariant of the parse state.
pub proof fn lemma_step_wf(p: ParserV, m: nat, raw: Text)
    requires
        wf(p),
        step_spec(p, m, raw) is Ok,
    ensures
        wf(step_spec(p, m, raw)->Ok_0),
{
}

proof fn lemma_flush_keeps(p: ParserV, n: nat, k: StepKind)
    requires
        wf(p),
        holds_step(p, n, k),
    ensures
        tree_has_step(flush(p), n, k),
{
    let f = flush(p);
    if tree_has_step(p.feature, n, k) {
        if p.feature.background matches Some(bs) && steps_have(bs, n, k) {
            assert(f.background == p.feature.background);
        } else {
            let i = choose|i: int|
                0 <= i < p.feature.items.len() && steps_have((#[trigger] p.feature.items[i]).steps, n, k);
            assert(f.items[i] == p.feature.items[i]);
        }
    } else if p.state == State::Background {
        assert(f.background == Some(p.block.steps));
    } else {
        assert(f.items[p.feature.items.len() as int] == p.block);
    }
}

/// A step, once read, stays in the state through any accepted line.
pub proof fn lemma_step_keeps(p: ParserV, m: nat, raw: Text, n: nat, k: StepKind)
    requires
        wf(p),
        step_spec(p, m, raw) is Ok,
        holds_step(p, n, k),
    ensures
        holds_step(step_spec(p, m, raw)->Ok_0, n, k),
{
    let q = step_spec(p, m, raw)->Ok_0;
    if tree_has_step(p.feature, n, k) {
        assert(q.feature.background == p.feature.background || p.feature.background is None);
        assert(p.feature.items.len() <= q.feature.items.len());
        assert(forall|i: int| 0 <= i < p.feature.items.len() ==> q.feature.items[i] == p.feature.items[i]);
        if p.feature.background matches Some(bs) && steps_have(bs, n, k) {
        } else {
            let i = choose|i: int|
                0 <= i < p.feature.items.len() && steps_have((#[trigger] p.feature.items[i]).steps, n, k);
            assert(q.feature.items[i] == p.feature.items[i]);
        }
    } else {
        let j = choose|j: int|
            0 <= j < p.block.steps.len() && (#[trigger] p.block.steps[j]).lineno == n
                && p.block.steps[j].kind == k;
        if q.block.steps.len() >= p.block.steps.len() && q.state == p.state {
            assert(q.block.steps[j].lineno == n && q.block.steps[j].kind == k);
        } else {
            lemma_flush_keeps(p, n, k);
            assert(q.feature == flush(p));
        }
    }
}

/// Running lines `a..` is running lines `a..b`, then lines `b..`.
pub proof fn lemma_run_split(p: ParserV, lines: Seq<Text>, a: int, b: int)
    requires
        0 <= a <= b <= lines.len(),
    ensures
        run(p, lines, a) == match run(p, lines.take(b), a) {
            Ok(q) => run(q, lines, b),
            Err(e) => Err(e),
        },
    decreases b - a,
{
    if a < b {
        assert(lines.take(b)[a] == lines[a]);
        match step_spec(p, (a + 1) as nat, lines[a]) {
            Ok(q) => lemma_run_split(q, lines, a + 1, b),
            Err(e) => {},
        }
    }
}

proof fn lemma_run_wf(p: ParserV, lines: Seq<Text>, a: int)
    requires
        wf(p),
        0 <= a,
        run(p, lines, a) is Ok,
    ensures
        wf(run(p, lines, a)->Ok_0),
    decreases lines.len() - a,
{
    if a < lines.len() {
        lemma_step_wf(p, (a + 1) as nat, lines[a]);
        lemma_run_wf(step_spec(p, (a + 1) as nat, lines[a])->Ok_0, lines, a + 1);
    }
}

proof fn lemma_run_keeps(p: ParserV, lines: Seq<Text>, a: int, n: nat, k: StepKind)
    requires
        wf(p),
        0 <= a,
        run(p, lines, a) is Ok,
        holds_step(p, n, k),
    ensures
        holds_step(run(p, lines, a)->Ok_0, n, k),
    decreases lines.len() - a,
{
    if a < lines.len() {
        lemma_step_wf(p, (a + 1) as nat, lines[a]);
        lemma_step_keeps(p, (a + 1) as nat, lines[a], n, k);
        lemma_run_keeps(step_spec(p, (a + 1) as nat, lines[a])->Ok_0, lines, a + 1, n, k);
    }
}

/// In a file that parses, an And or But step at line `i + 2` that directly
/// follows a Given, When or Then step at line `i + 1` (outside any doc-string)
/// stands in the document with that step's kind.
pub proof fn lemma_and_but_kind_in_document(f: Text, lines: Seq<Text>, i: int)
    requires
        0 <= i,
        i + 1 < lines.len(),
        line_kind(lines[i]) matches Some(k) && explicit_kind(k) is Some,
        line_kind(lines[i + 1]) matches Some(k) && (k is And || k is But),
        run(init_spec(f), lines.take(i), 0) matches Ok(p) && !(p.mode is DocString),
        parse_spec(f, lines) is Ok,
    ensures
        tree_has_step(
            parse_spec(f, lines)->Ok_0,
            (i + 2) as nat,
            explicit_kind(line_kind(lines[i])->0)->0,
        ),
{
    let kd = explicit_kind(line_kind(lines[i])->0)->0;
    let p0 = init_spec(f);
    assert(wf(p0));
    lemma_run_split(p0, lines, 0, i);
    let p = run(p0, lines.take(i), 0)->Ok_0;
    lemma_run_wf(p0, lines.take(i), 0);
    let pf = run(p0, lines, 0)->Ok_0;
    assert(run(p, lines, i) == Ok::<ParserV, ErrorV>(pf));
    let q1 = step_spec(p, (i + 1) as nat, lines[i])->Ok_0;
    lemma_step_wf(p, (i + 1) as nat, lines[i]);
    let q2 = step_spec(q1, (i + 2) as nat, lines[i + 1])->Ok_0;
    lemma_and_but_take_previous_kind(p, (i + 1) as nat, lines[i], lines[i + 1]);
    reveal_with_fuel(feed_lines, 3);
    assert(seq![lines[i], lines[i + 1]].drop_first() =~= seq![lines[i + 1]]);
    assert(seq![lines[i + 1]].drop_first() =~= Seq::<Text>::empty());
    assert(q2.block.steps.last().kind == kd);
    assert(q2.block.steps.last().lineno == (i + 2) as nat);
    assert(q2.state != State::Header);
    assert(holds_step(q2, (i + 2) as nat, kd)) by {
        let j = q2.block.steps.len() - 1;
        assert(q2.block.steps[j].lineno == (i + 2) as nat && q2.block.steps[j].kind == kd);
    }
    assert(step_spec(p, (i + 1) as nat, lines[i]) is Ok);
    assert(run(p, lines, i) == run(q1, lines, i + 1));
    assert(step_spec(q1, (i + 2) as nat, lines[i + 1]) is Ok);
    assert(run(q1, lines, i + 1) == run(q2, lines, i + 2));
    lemma_step_wf(q1, (i + 2) as nat, lines[i + 1]);
    assert(run(q2, lines, i + 2) == Ok::<ParserV, ErrorV>(pf));
    lemma_run_keeps(q2, lines, i + 2, (i + 2) as nat, kd);
    lemma_run_wf(q2, lines, i + 2);
    lemma_flush_keeps(pf, (i + 2) as nat, kd);
}

} // verus!
