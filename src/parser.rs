//! The grammar state machine: a fold of raw lines into a `Feature`.
//!
//! `step_spec` is the transition on one line and `finish_spec` the end of
//! input; `parse_spec` folds both over a file. `Parser` runs the same steps
//! on executable values and is proved to agree with them at each line.
use vstd::prelude::*;

use crate::error::{Error, ErrorV};
use crate::tokenizer::{classify, cannot_classify_msg, parse_line, KindV, Line};
use crate::types::{
    opt_view, steps_view, table_view, tables_view, texts_view, ArgV, Feature, FeatureItem,
    FeatureV, ItemV, Scenario, ScenarioOutline, Step, StepArg, StepKind, StepV, Table,
    Text,
};

verus! {

/// The structural block being filled.
#[derive(Clone, Copy, Debug, PartialEq, Eq, Structural)]
pub enum State {
    Header,
    Background,
    Scenario,
    ScenarioOutline,
}

/// What the lines that follow are captured into.
#[derive(Debug)]
pub enum Mode {
    Idle,
    /// Rows go to the table argument of the last step.
    StepTable,
    /// Rows go to the last Examples table.
    ExamplesTable,
    /// Delimiter, line of the opening delimiter, lines captured so far.
    DocString(String, usize, Vec<String>),
}

pub ghost enum ModeV {
    Idle,
    StepTable,
    ExamplesTable,
    DocString(Text, nat, Seq<Text>),
}

/// The Background, Scenario or Scenario Outline under construction.
#[derive(Debug)]
pub struct Block {
    pub outline: bool,
    pub lineno: usize,
    pub tags: Vec<String>,
    pub name: Option<String>,
    pub description: Option<String>,
    pub steps: Vec<Step>,
    pub examples: Vec<Table>,
}

pub ghost struct ParserV {
    pub feature: FeatureV,
    pub declared: bool,
    pub state: State,
    pub block: ItemV,
    pub pending: Option<Seq<Text>>,
    pub tags_line: nat,
    pub last_kind: Option<StepKind>,
    pub mode: ModeV,
}

/// The parse state of one file.
#[derive(Debug)]
pub struct Parser {
    feature: Feature,
    declared: bool,
    state: State,
    block: Block,
    pending: Option<Vec<String>>,
    tags_line: usize,
    last_kind: Option<StepKind>,
    mode: Mode,
}

impl View for Mode {
    type V = ModeV;

    open spec fn view(&self) -> ModeV {
        match self {
            Mode::Idle => ModeV::Idle,
            Mode::StepTable => ModeV::StepTable,
            Mode::ExamplesTable => ModeV::ExamplesTable,
            Mode::DocString(d, n, b) => ModeV::DocString(d@, *n as nat, texts_view(b@)),
        }
    }
}

impl View for Block {
    type V = ItemV;

    open spec fn view(&self) -> ItemV {
        ItemV {
            outline: self.outline,
            lineno: self.lineno as nat,
            tags: texts_view(self.tags@),
            name: opt_view(self.name),
            description: opt_view(self.description),
            steps: steps_view(self.steps@),
            examples: tables_view(self.examples@),
        }
    }
}

impl View for Parser {
    type V = ParserV;

    closed spec fn view(&self) -> ParserV {
        ParserV {
            feature: self.feature@,
            declared: self.declared,
            state: self.state,
            block: self.block@,
            pending: match self.pending {
                Some(t) => Some(texts_view(t@)),
                None => None,
            },
            tags_line: self.tags_line as nat,
            last_kind: self.last_kind,
            mode: self.mode@,
        }
    }
}

pub open spec fn state_name(s: State) -> Text {
    match s {
        State::Header => "Header"@,
        State::Background => "Background"@,
        State::Scenario => "Scenario"@,
        State::ScenarioOutline => "Scenario Outline"@,
    }
}

pub open spec fn msg_unhandled(s: State) -> Text {
    "unhandled line in state "@ + state_name(s)
}

pub open spec fn msg_tags() -> Text {
    "tags not followed by a taggable declaration"@
}

pub open spec fn msg_no_feature() -> Text {
    "no Feature declared"@
}

pub open spec fn msg_unterminated() -> Text {
    "unterminated multi-line argument"@
}

pub open spec fn msg_language() -> Text {
    "unexpected language directive"@
}

pub open spec fn msg_free_text() -> Text {
    "unexpected free text"@
}

pub open spec fn msg_duplicate() -> Text {
    "duplicate Feature declaration"@
}

pub open spec fn msg_no_kind() -> Text {
    "And/But with no preceding step kind"@
}

pub open spec fn fault(p: ParserV, n: nat, msg: Text) -> Result<ParserV, ErrorV> {
    Err(ErrorV::Parse(p.feature.filename, n, msg))
}

/// Lines joined with a newline between each two.
pub open spec fn join_lines(ls: Seq<Text>) -> Text
    decreases ls.len(),
{
    if ls.len() == 0 {
        seq![]
    } else if ls.len() == 1 {
        ls[0]
    } else {
        join_lines(ls.drop_last()) + seq!['\n'] + ls.last()
    }
}

/// Free text added to a description, newline-joined.
pub open spec fn append_text(d: Option<Text>, t: Text) -> Option<Text> {
    match d {
        Some(x) => Some(x + seq!['\n'] + t),
        None => Some(t),
    }
}

pub open spec fn tags_or_empty(o: Option<Seq<Text>>) -> Seq<Text> {
    match o {
        Some(t) => t,
        None => seq![],
    }
}

pub open spec fn empty_block(outline: bool, n: nat, tags: Seq<Text>, name: Option<Text>) -> ItemV {
    ItemV {
        outline,
        lineno: n,
        tags,
        name,
        description: None,
        steps: seq![],
        examples: seq![],
    }
}

pub open spec fn new_step(n: nat, kind: StepKind, text: Text) -> StepV {
    StepV { lineno: n, kind, text, arg: ArgV::NoArg }
}

/// The block with the argument of its last step replaced.
pub open spec fn set_last_arg(b: ItemV, a: ArgV) -> ItemV {
    ItemV { steps: b.steps.update(b.steps.len() - 1, StepV { arg: a, ..b.steps.last() }), ..b }
}

pub open spec fn add_row(a: ArgV, row: Seq<Text>) -> ArgV {
    match a {
        ArgV::Table(t) => ArgV::Table(t.push(row)),
        _ => ArgV::Table(seq![row]),
    }
}

/// The feature with the block under construction stored in it.
pub open spec fn flush(p: ParserV) -> FeatureV {
    match p.state {
        State::Header => p.feature,
        State::Background => FeatureV { background: Some(p.block.steps), ..p.feature },
        _ => FeatureV { items: p.feature.items.push(p.block), ..p.feature },
    }
}

/// A table row or a doc-string may start on the last step.
pub open spec fn can_attach(p: ParserV) -> bool {
    p.state != State::Header && p.block.steps.len() > 0 && p.block.steps.last().arg
        == ArgV::NoArg
}

pub open spec fn push_step(p: ParserV, s: StepV) -> ParserV {
    ParserV {
        block: ItemV { steps: p.block.steps.push(s), ..p.block },
        last_kind: Some(s.kind),
        mode: ModeV::Idle,
        ..p
    }
}

pub open spec fn open_block(p: ParserV, n: nat, outline: bool, name: Option<Text>) -> ParserV {
    ParserV {
        feature: flush(p),
        state: if outline {
            State::ScenarioOutline
        } else {
            State::Scenario
        },
        block: empty_block(outline, n, tags_or_empty(p.pending), name),
        pending: None,
        last_kind: None,
        mode: ModeV::Idle,
        ..p
    }
}

pub open spec fn is_taggable(k: KindV) -> bool {
    k is Empty || k is Feature || k is Scenario || k is Outline
}

/// The transition on a classified line while no doc-string is open.
///
/// Pending tags must be followed by a Feature, Scenario or Scenario Outline;
/// blank and comment lines may stand between. Blank and comment lines leave
/// a table capture open. A table row or a doc-string starts on the last step
/// only while that step has no argument yet; any other line closes a table.
pub open spec fn on_kind(p: ParserV, n: nat, k: KindV) -> Result<ParserV, ErrorV> {
    let q = ParserV { mode: ModeV::Idle, ..p };
    if p.pending is Some && !is_taggable(k) {
        fault(p, n, msg_tags())
    } else {
        match k {
            KindV::Empty => Ok(p),
            KindV::Language(code) => if p.state == State::Header && !p.declared {
                Ok(ParserV { feature: FeatureV { language: Some(code), ..p.feature }, ..q })
            } else {
                fault(p, n, msg_language())
            },
            KindV::Tags(ts) => Ok(ParserV { pending: Some(ts), tags_line: n, ..q }),
            KindV::Feature(name) => if p.declared {
                fault(p, n, msg_duplicate())
            } else {
                Ok(
                    ParserV {
                        feature: FeatureV { name, tags: tags_or_empty(p.pending), ..p.feature },
                        declared: true,
                        pending: None,
                        ..q
                    },
                )
            },
            KindV::Background => if p.declared && p.state == State::Header {
                Ok(
                    ParserV {
                        state: State::Background,
                        block: empty_block(false, n, seq![], None),
                        last_kind: None,
                        ..q
                    },
                )
            } else {
                fault(p, n, msg_unhandled(p.state))
            },
            KindV::Scenario(name) => if p.declared {
                Ok(open_block(q, n, false, name))
            } else {
                fault(p, n, msg_unhandled(p.state))
            },
            KindV::Outline(name) => if p.declared {
                Ok(open_block(q, n, true, name))
            } else {
                fault(p, n, msg_unhandled(p.state))
            },
            KindV::Other(t) => if p.state == State::Header && p.declared {
                Ok(
                    ParserV {
                        feature: FeatureV {
                            description: append_text(p.feature.description, t),
                            ..p.feature
                        },
                        ..q
                    },
                )
            } else if (p.state == State::Scenario || p.state == State::ScenarioOutline)
                && p.block.steps.len() == 0 && p.block.examples.len() == 0 {
                Ok(
                    ParserV {
                        block: ItemV {
                            description: append_text(p.block.description, t),
                            ..p.block
                        },
                        ..q
                    },
                )
            } else {
                fault(p, n, msg_free_text())
            },
            KindV::Given(t) => if p.state != State::Header {
                Ok(push_step(q, new_step(n, StepKind::Given, t)))
            } else {
                fault(p, n, msg_unhandled(p.state))
            },
            KindV::When(t) => if p.state != State::Header {
                Ok(push_step(q, new_step(n, StepKind::When, t)))
            } else {
                fault(p, n, msg_unhandled(p.state))
            },
            KindV::Then(t) => if p.state != State::Header {
                Ok(push_step(q, new_step(n, StepKind::Then, t)))
            } else {
                fault(p, n, msg_unhandled(p.state))
            },
            KindV::And(t) | KindV::But(t) => if p.state == State::Header {
                fault(p, n, msg_unhandled(p.state))
            } else {
                match p.last_kind {
                    Some(kd) => Ok(push_step(q, new_step(n, kd, t))),
                    None => fault(p, n, msg_no_kind()),
                }
            },
            KindV::Examples => if p.state == State::ScenarioOutline {
                Ok(
                    ParserV {
                        block: ItemV { examples: p.block.examples.push(seq![]), ..p.block },
                        mode: ModeV::ExamplesTable,
                        ..p
                    },
                )
            } else {
                fault(p, n, msg_unhandled(p.state))
            },
            KindV::TableRow(cells) => match p.mode {
                ModeV::StepTable => Ok(
                    ParserV {
                        block: set_last_arg(p.block, add_row(p.block.steps.last().arg, cells)),
                        ..p
                    },
                ),
                ModeV::ExamplesTable => Ok(
                    ParserV {
                        block: ItemV {
                            examples: p.block.examples.update(
                                p.block.examples.len() - 1,
                                p.block.examples.last().push(cells),
                            ),
                            ..p.block
                        },
                        ..p
                    },
                ),
                _ => if can_attach(p) {
                    Ok(
                        ParserV {
                            block: set_last_arg(p.block, ArgV::Table(seq![cells])),
                            mode: ModeV::StepTable,
                            ..p
                        },
                    )
                } else {
                    fault(p, n, msg_unhandled(p.state))
                },
            },
            KindV::DocString(d) => if can_attach(p) {
                Ok(ParserV { mode: ModeV::DocString(d, n, seq![]), ..p })
            } else {
                fault(p, n, msg_unhandled(p.state))
            },
        }
    }
}

/// Does the raw line close a doc-string opened with `d`?
pub open spec fn closes(raw: Text, d: Text) -> bool {
    match classify(raw) {
        Some(l) => l.2 == KindV::DocString(d),
        None => false,
    }
}

/// The transition on raw line number `n`.
pub open spec fn step_spec(p: ParserV, n: nat, raw: Text) -> Result<ParserV, ErrorV> {
    match p.mode {
        ModeV::DocString(d, open, buf) => if closes(raw, d) {
            Ok(
                ParserV {
                    block: set_last_arg(p.block, ArgV::MultiLine(join_lines(buf))),
                    mode: ModeV::Idle,
                    ..p
                },
            )
        } else {
            Ok(ParserV { mode: ModeV::DocString(d, open, buf.push(raw)), ..p })
        },
        _ => match classify(raw) {
            Some(l) => on_kind(p, n, l.2),
            None => fault(p, n, cannot_classify_msg(raw)),
        },
    }
}

/// The end of input after `total` lines.
pub open spec fn finish_spec(p: ParserV, total: nat) -> Result<FeatureV, ErrorV> {
    match p.mode {
        ModeV::DocString(_, open, _) => Err(
            ErrorV::Parse(p.feature.filename, open, msg_unterminated()),
        ),
        _ => if p.pending is Some {
            Err(ErrorV::Parse(p.feature.filename, p.tags_line, msg_tags()))
        } else if !p.declared {
            Err(ErrorV::Parse(p.feature.filename, total, msg_no_feature()))
        } else {
            Ok(flush(p))
        },
    }
}

pub open spec fn init_spec(filename: Text) -> ParserV {
    ParserV {
        feature: FeatureV {
            filename,
            name: None,
            language: None,
            description: None,
            tags: seq![],
            background: None,
            items: seq![],
        },
        declared: false,
        state: State::Header,
        block: empty_block(false, 0, seq![], None),
        pending: None,
        tags_line: 0,
        last_kind: None,
        mode: ModeV::Idle,
    }
}

/// The state after lines `i..` (numbered from `i + 1`), or the first error.
pub open spec fn run(p: ParserV, lines: Seq<Text>, i: int) -> Result<ParserV, ErrorV>
    decreases lines.len() - i,
{
    if i < 0 || i >= lines.len() {
        Ok(p)
    } else {
        match step_spec(p, (i + 1) as nat, lines[i]) {
            Ok(q) => run(q, lines, i + 1),
            Err(e) => Err(e),
        }
    }
}

/// The document of a whole file, or the error at its first offending line.
pub open spec fn parse_spec(filename: Text, lines: Seq<Text>) -> Result<FeatureV, ErrorV> {
    match run(init_spec(filename), lines, 0) {
        Ok(p) => finish_spec(p, lines.len()),
        Err(e) => Err(e),
    }
}

/// The invariant of the parse state.
pub open spec fn wf(p: ParserV) -> bool {
    &&& p.mode is StepTable ==> p.block.steps.len() > 0
    &&& p.mode is DocString ==> p.block.steps.len() > 0
    &&& p.mode is ExamplesTable ==> p.block.examples.len() > 0
    &&& p.state == State::Scenario ==> !p.block.outline && p.block.examples.len() == 0
    &&& p.state == State::ScenarioOutline ==> p.block.outline
    &&& (p.state == State::Header || p.state == State::Background) ==> p.feature.background is None
}

pub open spec fn result_view(r: Result<Feature, Error>) -> Result<FeatureV, ErrorV> {
    match r {
        Ok(f) => Ok(f@),
        Err(e) => Err(e@),
    }
}

fn state_name_exec(s: State) -> (r: &'static str)
    ensures
        r@ == state_name(s),
{
    match s {
        State::Header => "Header",
        State::Background => "Background",
        State::Scenario => "Scenario",
        State::ScenarioOutline => "Scenario Outline",
    }
}

fn unhandled_msg(s: State) -> (r: String)
    ensures
        r@ == msg_unhandled(s),
{
    let mut m = "unhandled line in state ".to_owned();
    m.append(state_name_exec(s));
    m
}

fn new_block(outline: bool, n: usize, tags: Vec<String>, name: Option<String>) -> (r: Block)
    ensures
        r@ == empty_block(outline, n as nat, texts_view(tags@), opt_view(name)),
{
    let r = Block {
        outline,
        lineno: n,
        tags,
        name,
        description: None,
        steps: Vec::new(),
        examples: Vec::new(),
    };
    assert(steps_view(r.steps@) =~= seq![]);
    assert(tables_view(r.examples@) =~= seq![]);
    r
}

/// Lines joined with a newline between each two.
fn join_exec(ls: &Vec<String>) -> (r: String)
    ensures
        r@ == join_lines(texts_view(ls@)),
{
    proof {
        reveal_strlit("\n");
    }
    let mut acc = String::new();
    let mut i: usize = 0;
    assert(texts_view(ls@).take(0) =~= seq![]);
    while i < ls.len()
        invariant
            i <= ls@.len(),
            acc@ == join_lines(texts_view(ls@).take(i as int)),
        decreases ls@.len() - i,
    {
        let ghost prev = texts_view(ls@).take(i as int);
        let ghost next = texts_view(ls@).take(i + 1);
        let ghost acc0 = acc@;
        if i > 0 {
            acc.append("\n");
            proof {
                reveal_strlit("\n");
            }
            assert("\n"@ =~= seq!['\n']);
        }
        acc.append(ls[i].as_str());
        assert(next.last() == ls@[i as int]@);
        assert(next.drop_last() =~= prev);
        if i == 0 {
            assert(acc@ =~= next[0]);
        } else {
            assert(acc@ =~= acc0 + seq!['\n'] + next.last());
        }
        i = i + 1;
    }
    assert(texts_view(ls@).take(ls@.len() as int) =~= texts_view(ls@));
    acc
}

fn append_desc(d: Option<String>, t: String) -> (r: Option<String>)
    ensures
        opt_view(r) == append_text(opt_view(d), t@),
{
    proof {
        reveal_strlit("\n");
    }
    match d {
        Some(mut x) => {
            x.append("\n");
            x.append(t.as_str());
            Some(x)
        },
        None => Some(t),
    }
}

fn set_last_arg_exec(b: &mut Block, arg: StepArg)
    requires
        old(b).steps@.len() > 0,
    ensures
        final(b)@ == set_last_arg(old(b)@, arg@),
{
    let ghost old_steps = steps_view(b.steps@);
    let s = b.steps.pop().unwrap();
    let Step { lineno, kind, definition, arg: _ } = s;
    b.steps.push(Step { lineno, kind, definition, arg });
    assert(steps_view(b.steps@) =~= old_steps.update(
        old_steps.len() - 1,
        StepV { arg: arg@, ..old_steps.last() },
    ));
}

fn add_row_exec(b: &mut Block, cells: Vec<String>)
    requires
        old(b).steps@.len() > 0,
    ensures
        final(b)@ == set_last_arg(old(b)@, add_row(old(b)@.steps.last().arg, texts_view(cells@))),
{
    let ghost old_steps = steps_view(b.steps@);
    let ghost row = texts_view(cells@);
    let s = b.steps.pop().unwrap();
    let Step { lineno, kind, definition, arg } = s;
    let new_arg = match arg {
        StepArg::Table(mut t) => {
            let ghost before = table_view(t);
            t.push(cells);
            assert(table_view(t) =~= before.push(row));
            StepArg::Table(t)
        },
        _ => {
            let mut t: Table = Vec::new();
            t.push(cells);
            assert(table_view(t) =~= seq![row]);
            StepArg::Table(t)
        },
    };
    b.steps.push(Step { lineno, kind, definition, arg: new_arg });
    assert(steps_view(b.steps@) =~= old_steps.update(
        old_steps.len() - 1,
        StepV { arg: add_row(old_steps.last().arg, row), ..old_steps.last() },
    ));
}

fn add_example_row(b: &mut Block, cells: Vec<String>)
    requires
        old(b).examples@.len() > 0,
    ensures
        final(b)@ == (ItemV {
            examples: old(b)@.examples.update(
                old(b)@.examples.len() - 1,
                old(b)@.examples.last().push(texts_view(cells@)),
            ),
            ..old(b)@
        }),
{
    let ghost old_ex = tables_view(b.examples@);
    let mut t = b.examples.pop().unwrap();
    let ghost before = table_view(t);
    t.push(cells);
    assert(table_view(t) =~= before.push(texts_view(cells@)));
    b.examples.push(t);
    assert(tables_view(b.examples@) =~= old_ex.update(
        old_ex.len() - 1,
        old_ex.last().push(texts_view(cells@)),
    ));
}

impl Parser {
    /// The state before the first line of `filename`.
    pub fn new(filename: &str) -> (r: Parser)
        ensures
            r@ == init_spec(filename@),
            wf(r@),
    {
        let feature = Feature {
            filename: filename.to_owned(),
            name: None,
            language: None,
            description: None,
            tags: Vec::new(),
            background: None,
            items: Vec::new(),
        };
        let no_tags: Vec<String> = Vec::new();
        assert(texts_view(no_tags@) =~= seq![]);
        let r = Parser {
            feature,
            declared: false,
            state: State::Header,
            block: new_block(false, 0, no_tags, None),
            pending: None,
            tags_line: 0,
            last_kind: None,
            mode: Mode::Idle,
        };
        assert(texts_view(r.feature.tags@) =~= seq![]);
        assert(r.feature.items@.map_values(|i: FeatureItem| i@) =~= seq![]);
        r
    }

    fn fault(&self, n: usize, msg: String) -> (r: Error)
        ensures
            r@ == ErrorV::Parse(self@.feature.filename, n as nat, msg@),
    {
        Error::ParseError(self.feature.filename.clone(), n, msg)
    }

    /// Stores the block under construction in the feature and starts `next`.
    fn flush_block(&mut self, next: Block)
        requires
            wf(old(self)@),
        ensures
            final(self)@ == (ParserV { feature: flush(old(self)@), block: next@, ..old(self)@ }),
    {
        let mut b = next;
        std::mem::swap(&mut self.block, &mut b);
        let ghost items = self.feature@.items;
        match self.state {
            State::Header => {},
            State::Background => {
                self.feature.background = Some(b.steps);
            },
            State::Scenario => {
                assert(tables_view(b.examples@) =~= seq![]);
                let item = FeatureItem::Scenario(
                    Scenario {
                        lineno: b.lineno,
                        tags: b.tags,
                        name: b.name,
                        description: b.description,
                        steps: b.steps,
                    },
                );
                self.feature.items.push(item);
                assert(self.feature.items@.map_values(|i: FeatureItem| i@) =~= items.push(
                    b@,
                ));
            },
            State::ScenarioOutline => {
                let item = FeatureItem::ScenarioOutline(
                    ScenarioOutline {
                        lineno: b.lineno,
                        tags: b.tags,
                        name: b.name,
                        description: b.description,
                        steps: b.steps,
                        examples: b.examples,
                    },
                );
                self.feature.items.push(item);
                assert(self.feature.items@.map_values(|i: FeatureItem| i@) =~= items.push(
                    b@,
                ));
            },
        }
    }

    fn take_tags(&mut self) -> (r: Vec<String>)
        ensures
            texts_view(r@) == tags_or_empty(old(self)@.pending),
            final(self)@ == (ParserV { pending: None, ..old(self)@ }),
    {
        match self.pending.take() {
            Some(t) => t,
            None => {
                let t: Vec<String> = Vec::new();
                assert(texts_view(t@) =~= seq![]);
                t
            },
        }
    }

    fn open_block_exec(&mut self, n: usize, outline: bool, name: Option<String>)
        requires
            wf(old(self)@),
            old(self)@.mode is Idle,
        ensures
            final(self)@ == open_block(old(self)@, n as nat, outline, opt_view(name)),
            wf(final(self)@),
    {
        let tags = self.take_tags();
        let b = new_block(outline, n, tags, name);
        self.flush_block(b);
        self.state = if outline {
            State::ScenarioOutline
        } else {
            State::Scenario
        };
        self.last_kind = None;
        self.mode = Mode::Idle;
    }

    fn add_step(&mut self, n: usize, kind: StepKind, text: String) -> (r: Result<(), Error>)
        requires
            wf(old(self)@),
        ensures
            old(self)@.state != State::Header ==> r is Ok && final(self)@ == push_step(
                old(self)@,
                new_step(n as nat, kind, text@),
            ),
            old(self)@.state == State::Header ==> (r matches Err(e) && e@ == ErrorV::Parse(
                old(self)@.feature.filename,
                n as nat,
                msg_unhandled(old(self)@.state),
            )),
            old(self)@.state == State::Header ==> final(self)@ == old(self)@,
    {
        if self.state == State::Header {
            return Err(self.fault(n, unhandled_msg(self.state)));
        }
        let ghost steps = steps_view(self.block.steps@);
        self.block.steps.push(Step { lineno: n, kind, definition: text, arg: StepArg::NoArg });
        assert(steps_view(self.block.steps@) =~= steps.push(new_step(n as nat, kind, text@)));
        self.last_kind = Some(kind);
        self.mode = Mode::Idle;
        Ok(())
    }

    /// The transition on a classified line while no doc-string is open.
    fn on_line(&mut self, n: usize, line: Line) -> (r: Result<(), Error>)
        requires
            wf(old(self)@),
            !(old(self)@.mode is DocString),
        ensures
            match on_kind(old(self)@, n as nat, line@.2) {
                Ok(q) => r is Ok && final(self)@ == q && wf(q),
                Err(e) => r matches Err(x) && x@ == e && final(self)@ == old(self)@,
            },
    {
        let taggable = match &line {
            Line::EmptyLine(..) | Line::Feature(..) | Line::Scenario(..) | Line::ScenarioOutline(
                ..,
            ) => true,
            _ => false,
        };
        if self.pending.is_some() && !taggable {
            return Err(self.fault(n, "tags not followed by a taggable declaration".to_owned()));
        }
        let in_step_table = match &self.mode {
            Mode::StepTable => true,
            _ => false,
        };
        let in_examples = match &self.mode {
            Mode::ExamplesTable => true,
            _ => false,
        };
        match line {
            Line::EmptyLine(..) => Ok(()),
            Line::Language(_, _, code) => {
                if self.state == State::Header && !self.declared {
                    self.feature.language = Some(code);
                    self.mode = Mode::Idle;
                    Ok(())
                } else {
                    Err(self.fault(n, "unexpected language directive".to_owned()))
                }
            },
            Line::Tags(_, _, tags) => {
                self.pending = Some(tags);
                self.tags_line = n;
                self.mode = Mode::Idle;
                Ok(())
            },
            Line::Feature(_, _, name) => {
                if self.declared {
                    return Err(self.fault(n, "duplicate Feature declaration".to_owned()));
                }
                let tags = self.take_tags();
                self.feature.name = name;
                self.feature.tags = tags;
                self.declared = true;
                self.mode = Mode::Idle;
                Ok(())
            },
            Line::Background(..) => {
                if self.declared && self.state == State::Header {
                    let no_tags: Vec<String> = Vec::new();
                    assert(texts_view(no_tags@) =~= seq![]);
                    self.block = new_block(false, n, no_tags, None);
                    self.state = State::Background;
                    self.last_kind = None;
                    self.mode = Mode::Idle;
                    Ok(())
                } else {
                    Err(self.fault(n, unhandled_msg(self.state)))
                }
            },
            Line::Scenario(_, _, name) => {
                if self.declared {
                    self.mode = Mode::Idle;
                    self.open_block_exec(n, false, name);
                    Ok(())
                } else {
                    Err(self.fault(n, unhandled_msg(self.state)))
                }
            },
            Line::ScenarioOutline(_, _, name) => {
                if self.declared {
                    self.mode = Mode::Idle;
                    self.open_block_exec(n, true, name);
                    Ok(())
                } else {
                    Err(self.fault(n, unhandled_msg(self.state)))
                }
            },
            Line::Other(_, _, text) => {
                if self.state == State::Header && self.declared {
                    let d = self.feature.description.take();
                    self.feature.description = append_desc(d, text);
                    self.mode = Mode::Idle;
                    Ok(())
                } else if (self.state == State::Scenario || self.state == State::ScenarioOutline)
                    && self.block.steps.len() == 0 && self.block.examples.len() == 0 {
                    let d = self.block.description.take();
                    self.block.description = append_desc(d, text);
                    self.mode = Mode::Idle;
                    Ok(())
                } else {
                    Err(self.fault(n, "unexpected free text".to_owned()))
                }
            },
            Line::GivenStep(_, _, text) => self.add_step(n, StepKind::Given, text),
            Line::WhenStep(_, _, text) => self.add_step(n, StepKind::When, text),
            Line::ThenStep(_, _, text) => self.add_step(n, StepKind::Then, text),
            Line::AndStep(_, _, text) | Line::ButStep(_, _, text) => {
                if self.state == State::Header {
                    return Err(self.fault(n, unhandled_msg(self.state)));
                }
                match self.last_kind {
                    Some(kind) => self.add_step(n, kind, text),
                    None => Err(self.fault(n, "And/But with no preceding step kind".to_owned())),
                }
            },
            Line::Examples(..) => {
                if self.state == State::ScenarioOutline {
                    let ghost ex = tables_view(self.block.examples@);
                    let t: Table = Vec::new();
                    assert(table_view(t) =~= seq![]);
                    self.block.examples.push(t);
                    assert(tables_view(self.block.examples@) =~= ex.push(seq![]));
                    self.mode = Mode::ExamplesTable;
                    Ok(())
                } else {
                    Err(self.fault(n, unhandled_msg(self.state)))
                }
            },
            Line::TableRow(_, _, cells) => {
                if in_step_table {
                    add_row_exec(&mut self.block, cells);
                    Ok(())
                } else if in_examples {
                    add_example_row(&mut self.block, cells);
                    Ok(())
                } else if self.can_attach_exec() {
                    let mut t: Table = Vec::new();
                    t.push(cells);
                    assert(table_view(t) =~= seq![texts_view(t@[0]@)]);
                    set_last_arg_exec(&mut self.block, StepArg::Table(t));
                    self.mode = Mode::StepTable;
                    Ok(())
                } else {
                    Err(self.fault(n, unhandled_msg(self.state)))
                }
            },
            Line::DocStringDelimiter(_, _, d) => {
                if self.can_attach_exec() {
                    let buf: Vec<String> = Vec::new();
                    assert(texts_view(buf@) =~= seq![]);
                    self.mode = Mode::DocString(d, n, buf);
                    Ok(())
                } else {
                    Err(self.fault(n, unhandled_msg(self.state)))
                }
            },
        }
    }

    /// The transition on a raw line while a doc-string is open.
    fn feed_doc(&mut self, n: usize, raw: &str) -> (r: Result<(), Error>)
        requires
            wf(old(self)@),
            old(self)@.mode is DocString,
        ensures
            r is Ok,
            step_spec(old(self)@, n as nat, raw@) == Ok::<ParserV, ErrorV>(final(self)@),
            wf(final(self)@),
    {
        let mut m = Mode::Idle;
        std::mem::swap(&mut self.mode, &mut m);
        match m {
            Mode::DocString(d, open, mut buf) => {
                let close = match parse_line(raw) {
                    Ok(Line::DocStringDelimiter(_, _, d2)) => d2 == d,
                    _ => false,
                };
                if close {
                    let text = join_exec(&buf);
                    set_last_arg_exec(&mut self.block, StepArg::MultiLine(text));
                } else {
                    let ghost before = texts_view(buf@);
                    buf.push(raw.to_owned());
                    assert(texts_view(buf@) =~= before.push(raw@));
                    self.mode = Mode::DocString(d, open, buf);
                }
                Ok(())
            },
            _ => Ok(()),
        }
    }

    /// Takes raw line number `lineno` (from 1) of the file. A refused line
    /// leaves the state as it was.
    pub fn feed(&mut self, lineno: usize, raw: &str) -> (r: Result<(), Error>)
        requires
            wf(old(self)@),
        ensures
            wf(final(self)@),
            match step_spec(old(self)@, lineno as nat, raw@) {
                Ok(q) => r is Ok && final(self)@ == q,
                Err(e) => r matches Err(x) && x@ == e && final(self)@ == old(self)@,
            },
    {
        let in_doc = match &self.mode {
            Mode::DocString(..) => true,
            _ => false,
        };
        if in_doc {
            return self.feed_doc(lineno, raw);
        }
        match parse_line(raw) {
            Ok(line) => self.on_line(lineno, line),
            Err(_) => {
                let mut m = "cannot classify line: ".to_owned();
                m.append(raw);
                Err(self.fault(lineno, m))
            },
        }
    }

    /// Ends the input after `total` lines.
    pub fn finish(self, total: usize) -> (r: Result<Feature, Error>)
        requires
            wf(self@),
        ensures
            result_view(r) == finish_spec(self@, total as nat),
    {
        let mut p = self;
        let open = match &p.mode {
            Mode::DocString(_, open, _) => Some(*open),
            _ => None,
        };
        if let Some(line) = open {
            return Err(p.fault(line, "unterminated multi-line argument".to_owned()));
        }
        if p.pending.is_some() {
            return Err(p.fault(p.tags_line, "tags not followed by a taggable declaration".to_owned()));
        }
        if !p.declared {
            return Err(p.fault(total, "no Feature declared".to_owned()));
        }
        let no_tags: Vec<String> = Vec::new();
        p.flush_block(new_block(false, 0, no_tags, None));
        Ok(p.feature)
    }

    fn can_attach_exec(&self) -> (r: bool)
        ensures
            r == can_attach(self@),
    {
        if self.state == State::Header || self.block.steps.len() == 0 {
            return false;
        }
        match &self.block.steps[self.block.steps.len() - 1].arg {
            StepArg::NoArg => true,
            _ => false,
        }
    }
}

/// Parses the lines of one feature file; `filename` serves the diagnostics.
pub fn parse(filename: &str, lines: &Vec<String>) -> (r: Result<Feature, Error>)
    ensures
        result_view(r) == parse_spec(filename@, texts_view(lines@)),
{
    let ghost ls = texts_view(lines@);
    let mut p = Parser::new(filename);
    let mut i: usize = 0;
    while i < lines.len()
        invariant
            i <= lines@.len(),
            ls == texts_view(lines@),
            wf(p@),
            run(init_spec(filename@), ls, 0) == run(p@, ls, i as int),
        decreases lines@.len() - i,
    {
        assert(ls[i as int] == lines@[i as int]@);
        match p.feed(i + 1, lines[i].as_str()) {
            Ok(()) => {},
            Err(e) => {
                return Err(e);
            },
        }
        i = i + 1;
    }
    p.finish(lines.len())
}

} // verus!
