//! The root record and the tags it carries.
use vstd::prelude::*;
use crate::errors::DhatupathaError;

verus! {

/// A named subset of a gana whose roots follow rules of their own.
#[derive(Clone, Copy, Debug, PartialEq, Eq, Structural)]
pub enum Antargana {
    /// The roots from `kuw` onward within gana 6.
    Kutadi,
    /// The roots from `citi` to `kusma` within gana 10.
    Akusmiya,
}

/// A suffix that derives a new root from a plain one.
#[derive(Clone, Copy, Debug, PartialEq, Eq, Structural)]
pub enum Sanadi {
    /// The desiderative.
    San,
    /// The intensive.
    Yan,
    /// The causative.
    Nic,
}

/// What a [`Dhatu`] holds, as mathematical values.
pub ghost struct DhatuView {
    pub upadesha: Seq<char>,
    pub gana: u8,
    pub antargana: Option<Antargana>,
    pub sanadi: Option<Sanadi>,
}

/// The record that `build` makes of valid fields: no sanadi is set.
pub open spec fn plain_dhatu(
    upadesha: Seq<char>,
    gana: u8,
    antargana: Option<Antargana>,
) -> DhatuView {
    DhatuView { upadesha, gana, antargana, sanadi: None }
}

/// What `build` returns for the given fields: an empty upadesha is refused.
pub open spec fn build_spec(upadesha: Seq<char>, gana: u8, antargana: Option<Antargana>) -> Result<
    DhatuView,
    DhatupathaError,
> {
    if upadesha.len() == 0 {
        Err(DhatupathaError::BuildFailure)
    } else {
        Ok(plain_dhatu(upadesha, gana, antargana))
    }
}

/// The outcome of making a root, with the root taken by its view.
pub open spec fn built(res: Result<Dhatu, DhatupathaError>) -> Result<DhatuView, DhatupathaError> {
    match res {
        Ok(d) => Ok(d@),
        Err(e) => Err(e),
    }
}

/// A verbal root: its spelling in the root list, its gana, and the tags that apply to it.
///
/// A value of this type always has a spelling of at least one character.
#[derive(Debug, PartialEq, Eq)]
pub struct Dhatu {
    upadesha: String,
    gana: u8,
    antargana: Option<Antargana>,
    sanadi: Option<Sanadi>,
}

impl View for Dhatu {
    type V = DhatuView;

    closed spec fn view(&self) -> DhatuView {
        DhatuView {
            upadesha: self.upadesha@,
            gana: self.gana,
            antargana: self.antargana,
            sanadi: self.sanadi,
        }
    }
}

impl Clone for Dhatu {
    fn clone(&self) -> (res: Dhatu)
        ensures
            res@ == self@,
    {
        proof {
            use_type_invariant(self);
        }
        Dhatu {
            upadesha: self.upadesha.clone(),
            gana: self.gana,
            antargana: self.antargana,
            sanadi: self.sanadi,
        }
    }
}

impl Dhatu {
    #[verifier::type_invariant]
    spec fn well_formed(&self) -> bool {
        self.upadesha@.len() > 0
    }

    /// Makes a root of its spelling, its gana and its antargana, if it has one.
    ///
    /// Fails with `BuildFailure` exactly when the spelling is empty.
    pub fn build(upadesha: &str, gana: u8, antargana: Option<Antargana>) -> (res: Result<
        Dhatu,
        DhatupathaError,
    >)
        ensures
            built(res) == build_spec(upadesha@, gana, antargana),
    {
        if upadesha.is_empty() {
            Err(DhatupathaError::BuildFailure)
        } else {
            Ok(Dhatu { upadesha: upadesha.to_owned(), gana, antargana, sanadi: None })
        }
    }

    /// The spelling of the root as the root list gives it.
    pub fn upadesha(&self) -> (res: &String)
        ensures
            res@ == self@.upadesha,
            res@.len() > 0,
    {
        proof {
            use_type_invariant(self);
        }
        &self.upadesha
    }

    /// The gana of the root.
    pub fn gana(&self) -> (res: u8)
        ensures
            res == self@.gana,
    {
        self.gana
    }

    /// The antargana of the root, if it lies in one.
    pub fn antargana(&self) -> (res: Option<Antargana>)
        ensures
            res == self@.antargana,
    {
        self.antargana
    }

    /// The sanadi suffix that was added to the root, if any.
    pub fn sanadi(&self) -> (res: Option<Sanadi>)
        ensures
            res == self@.sanadi,
    {
        self.sanadi
    }

    /// The same root with the given sanadi suffix added; nothing else changes.
    pub fn with_sanadi(&self, sanadi: Sanadi) -> (res: Dhatu)
        ensures
            res@ == (DhatuView { sanadi: Some(sanadi), ..self@ }),
    {
        proof {
            use_type_invariant(self);
        }
        Dhatu {
            upadesha: self.upadesha.clone(),
            gana: self.gana,
            antargana: self.antargana,
            sanadi: Some(sanadi),
        }
    }
}

} // verus!
