//! The derivations of a root in the shape that a web page is given.
use vstd::prelude::*;
use crate::args::{Dhatu, DhatuView, Sanadi};
use crate::dhatupatha::{parse_text, Dhatupatha};
use crate::errors::DhatupathaError;
use crate::prakriya::{Prakriya, PrakriyaView, Rule, Step, StepView};

verus! {

/// A lightweight `Step` with nothing but what a page shows.
#[derive(Debug)]
pub struct WebStep {
    pub rule: Rule,
    pub result: String,
}

impl DeepView for WebStep {
    type V = StepView;

    open spec fn deep_view(&self) -> StepView {
        StepView { rule: self.rule@, result: self.result@ }
    }
}

/// A lightweight `Prakriya` with nothing but what a page shows.
#[derive(Debug)]
pub struct WebPrakriya {
    pub text: String,
    pub history: Vec<WebStep>,
}

impl DeepView for WebPrakriya {
    type V = PrakriyaView;

    open spec fn deep_view(&self) -> PrakriyaView {
        PrakriyaView { text: self.text@, history: self.history.deep_view() }
    }
}

/// Turns the steps of a derivation into their lightweight form, one for one and in order.
pub fn to_web_history(history: &[Step]) -> (res: Vec<WebStep>)
    ensures
        res.deep_view() == history.deep_view(),
{
    let mut res: Vec<WebStep> = Vec::new();
    let mut i: usize = 0;
    while i < history.len()
        invariant
            i <= history.len(),
            res.deep_view() =~= history.deep_view().take(i as int),
        decreases history.len() - i,
    {
        let step = &history[i];
        let ghost before = res.deep_view();
        res.push(WebStep { rule: step.rule(), result: step.result().clone() });
        i += 1;
        assert(res.deep_view() =~= before.push(step.deep_view()));
    }
    assert(history.deep_view().take(i as int) =~= history.deep_view());
    res
}

/// Turns derivations into their lightweight form, one for one and in order.
pub fn to_web_prakriyas(prakriyas: &[Prakriya]) -> (res: Vec<WebPrakriya>)
    ensures
        res.deep_view() == prakriyas.deep_view(),
{
    let mut res: Vec<WebPrakriya> = Vec::new();
    let mut i: usize = 0;
    while i < prakriyas.len()
        invariant
            i <= prakriyas.len(),
            res.deep_view() =~= prakriyas.deep_view().take(i as int),
        decreases prakriyas.len() - i,
    {
        let p = &prakriyas[i];
        let ghost before = res.deep_view();
        let text = p.text().to_owned();
        let history = to_web_history(p.history().as_slice());
        res.push(WebPrakriya { text, history });
        i += 1;
        assert(res.deep_view() =~= before.push(p.deep_view()));
    }
    assert(prakriyas.deep_view().take(i as int) =~= prakriyas.deep_view());
    res
}

/// The roots that a page can ask derivations of.
pub struct Vidyut {
    dhatupatha: Dhatupatha,
}

impl View for Vidyut {
    type V = Map<Seq<char>, DhatuView>;

    closed spec fn view(&self) -> Map<Seq<char>, DhatuView> {
        self.dhatupatha@
    }
}

/// The root `dhatu` as a derivation starts from it: with the sanadi suffix, where one is asked
/// for.
pub open spec fn with_optional_sanadi(dhatu: DhatuView, sanadi: Option<Sanadi>) -> DhatuView {
    match sanadi {
        Some(s) => DhatuView { sanadi: Some(s), ..dhatu },
        None => dhatu,
    }
}

impl Vidyut {
    /// Reads the root list `dhatupatha`, which must be valid.
    pub fn init(dhatupatha: &str) -> (res: Vidyut)
        requires
            parse_text(dhatupatha@) is Ok,
        ensures
            parse_text(dhatupatha@) == Ok::<Map<Seq<char>, DhatuView>, DhatupathaError>(res@),
    {
        Vidyut { dhatupatha: Dhatupatha::from_text(dhatupatha).unwrap() }
    }

    /// Reads the root list `dhatupatha`, or says why it is not valid.
    pub fn try_init(dhatupatha: &str) -> (res: Result<Vidyut, DhatupathaError>)
        ensures
            parse_text(dhatupatha@) == match res {
                Ok(v) => Ok::<Map<Seq<char>, DhatuView>, DhatupathaError>(v@),
                Err(e) => Err(e),
            },
    {
        match Dhatupatha::from_text(dhatupatha) {
            Ok(d) => Ok(Vidyut { dhatupatha: d }),
            Err(e) => Err(e),
        }
    }

    /// The root that derivations for `code` start from: the root of that code, with the sanadi
    /// suffix where one is given. `None` where the list has no such code.
    pub fn find_dhatu(&self, code: &str, sanadi: Option<Sanadi>) -> (res: Option<Dhatu>)
        ensures
            match res {
                Some(dhatu) => self@.contains_key(code@) && dhatu@ == with_optional_sanadi(
                    self@[code@],
                    sanadi,
                ),
                None => !self@.contains_key(code@),
            },
    {
        match self.dhatupatha.get(code) {
            Some(dhatu) => match sanadi {
                Some(s) => Some(dhatu.with_sanadi(s)),
                None => Some(dhatu.clone()),
            },
            None => None,
        }
    }
}

} // verus!
