//! The document tree produced by a successful parse, and its mathematical view.
use vstd::prelude::*;

verus! {

/// The resolved kind of a step; `And` and `But` never survive as a kind.
#[derive(Clone, Copy, Debug, PartialEq, Eq, Structural)]
pub enum StepKind {
    Given,
    When,
    Then,
}

/// Rows of trimmed cells; the first row is conventionally the header.
pub type Table = Vec<Vec<String>>;

pub type Steps = Vec<Step>;

pub type Features = Vec<Feature>;

#[derive(Clone, Debug)]
pub enum StepArg {
    NoArg,
    MultiLine(String),
    Table(Table),
}

#[derive(Clone, Debug)]
pub struct Step {
    pub lineno: usize,
    pub kind: StepKind,
    pub definition: String,
    pub arg: StepArg,
}

#[derive(Clone, Debug)]
pub struct Scenario {
    pub lineno: usize,
    pub tags: Vec<String>,
    pub name: Option<String>,
    pub description: Option<String>,
    pub steps: Steps,
}

#[derive(Clone, Debug)]
pub struct ScenarioOutline {
    pub lineno: usize,
    pub tags: Vec<String>,
    pub name: Option<String>,
    pub description: Option<String>,
    pub steps: Steps,
    pub examples: Vec<Table>,
}

#[derive(Clone, Debug)]
pub enum FeatureItem {
    Scenario(Scenario),
    ScenarioOutline(ScenarioOutline),
}

#[derive(Clone, Debug)]
pub struct Feature {
    pub filename: String,
    pub name: Option<String>,
    pub language: Option<String>,
    pub description: Option<String>,
    pub tags: Vec<String>,
    pub background: Option<Steps>,
    pub items: Vec<FeatureItem>,
}

/// Text as a sequence of characters.
pub type Text = Seq<char>;

pub type TableV = Seq<Seq<Text>>;

pub ghost enum ArgV {
    NoArg,
    MultiLine(Text),
    Table(TableV),
}

pub ghost struct StepV {
    pub lineno: nat,
    pub kind: StepKind,
    pub text: Text,
    pub arg: ArgV,
}

/// A scenario or an outline; `examples` stays empty for a plain scenario.
pub ghost struct ItemV {
    pub outline: bool,
    pub lineno: nat,
    pub tags: Seq<Text>,
    pub name: Option<Text>,
    pub description: Option<Text>,
    pub steps: Seq<StepV>,
    pub examples: Seq<TableV>,
}

pub ghost struct FeatureV {
    pub filename: Text,
    pub name: Option<Text>,
    pub language: Option<Text>,
    pub description: Option<Text>,
    pub tags: Seq<Text>,
    pub background: Option<Seq<StepV>>,
    pub items: Seq<ItemV>,
}

pub open spec fn opt_view(o: Option<String>) -> Option<Text> {
    match o {
        Some(s) => Some(s@),
        None => None,
    }
}

pub open spec fn texts_view(v: Seq<String>) -> Seq<Text> {
    v.map_values(|s: String| s@)
}

pub open spec fn table_view(t: Table) -> TableV {
    t@.map_values(|r: Vec<String>| texts_view(r@))
}

pub open spec fn tables_view(v: Seq<Table>) -> Seq<TableV> {
    v.map_values(|t: Table| table_view(t))
}

pub open spec fn steps_view(s: Seq<Step>) -> Seq<StepV> {
    s.map_values(|x: Step| x@)
}

pub open spec fn opt_steps_view(o: Option<Steps>) -> Option<Seq<StepV>> {
    match o {
        Some(s) => Some(steps_view(s@)),
        None => None,
    }
}

impl View for StepArg {
    type V = ArgV;

    open spec fn view(&self) -> ArgV {
        match self {
            StepArg::NoArg => ArgV::NoArg,
            StepArg::MultiLine(s) => ArgV::MultiLine(s@),
            StepArg::Table(t) => ArgV::Table(table_view(*t)),
        }
    }
}

impl View for Step {
    type V = StepV;

    open spec fn view(&self) -> StepV {
        StepV {
            lineno: self.lineno as nat,
            kind: self.kind,
            text: self.definition@,
            arg: self.arg@,
        }
    }
}

impl View for FeatureItem {
    type V = ItemV;

    open spec fn view(&self) -> ItemV {
        match self {
            FeatureItem::Scenario(s) => ItemV {
                outline: false,
                lineno: s.lineno as nat,
                tags: texts_view(s.tags@),
                name: opt_view(s.name),
                description: opt_view(s.description),
                steps: steps_view(s.steps@),
                examples: Seq::empty(),
            },
            FeatureItem::ScenarioOutline(s) => ItemV {
                outline: true,
                lineno: s.lineno as nat,
                tags: texts_view(s.tags@),
                name: opt_view(s.name),
                description: opt_view(s.description),
                steps: steps_view(s.steps@),
                examples: tables_view(s.examples@),
            },
        }
    }
}

impl View for Feature {
    type V = FeatureV;

    open spec fn view(&self) -> FeatureV {
        FeatureV {
            filename: self.filename@,
            name: opt_view(self.name),
            language: opt_view(self.language),
            description: opt_view(self.description),
            tags: texts_view(self.tags@),
            background: opt_steps_view(self.background),
            items: self.items@.map_values(|i: FeatureItem| i@),
        }
    }
}

} // verus!
