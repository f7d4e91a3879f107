//! A derivation: the text it arrives at and the steps that led there.
use vstd::prelude::*;

verus! {

/// The name of a rule, such as `1.3.1`.
pub type Rule = &'static str;

/// What a step holds, as mathematical values.
pub ghost struct StepView {
    pub rule: Seq<char>,
    pub result: Seq<char>,
}

/// What a derivation holds, as mathematical values.
pub ghost struct PrakriyaView {
    pub text: Seq<char>,
    pub history: Seq<StepView>,
}

/// One step of a derivation: the rule that was applied and the text after it.
#[derive(Debug)]
pub struct Step {
    rule: Rule,
    result: String,
}

impl DeepView for Step {
    type V = StepView;

    closed spec fn deep_view(&self) -> StepView {
        StepView { rule: self.rule@, result: self.result@ }
    }
}

impl Step {
    /// A step that applied `rule` and arrived at `result`.
    pub fn new(rule: Rule, result: String) -> (res: Step)
        ensures
            res.deep_view() == (StepView { rule: rule@, result: result@ }),
    {
        Step { rule, result }
    }

    /// The rule that this step applied.
    pub fn rule(&self) -> (res: Rule)
        ensures
            res@ == self.deep_view().rule,
    {
        self.rule
    }

    /// The text that this step arrived at.
    pub fn result(&self) -> (res: &String)
        ensures
            res@ == self.deep_view().result,
    {
        &self.result
    }
}

/// A derivation of one word.
#[derive(Debug)]
pub struct Prakriya {
    text: String,
    history: Vec<Step>,
}

impl DeepView for Prakriya {
    type V = PrakriyaView;

    closed spec fn deep_view(&self) -> PrakriyaView {
        PrakriyaView { text: self.text@, history: self.history.deep_view() }
    }
}

impl Prakriya {
    /// A derivation that arrived at `text` by the steps of `history`.
    pub fn new(text: String, history: Vec<Step>) -> (res: Prakriya)
        ensures
            res.deep_view() == (PrakriyaView { text: text@, history: history.deep_view() }),
    {
        Prakriya { text, history }
    }

    /// The word that was derived.
    pub fn text(&self) -> (res: &str)
        ensures
            res@ == self.deep_view().text,
    {
        self.text.as_str()
    }

    /// The steps of the derivation, first to last.
    pub fn history(&self) -> (res: &Vec<Step>)
        ensures
            res.deep_view() == self.deep_view().history,
    {
        &self.history
    }
}

} // verus!
