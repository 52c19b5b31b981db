//! The boundary promise: a single-assignment completion slot.
//!
//! One is created per non-blocking call and handed to the scheduled unit
//! of work, which resolves it exactly once, with either a success payload
//! or a failure description. A second resolution is refused and leaves
//! the first untouched, whichever order the attempts arrive in.

use vstd::prelude::*;

verus! {

/// What a promise was resolved with.
#[derive(Debug)]
pub enum Resolution {
    /// The encoded success payload delivered to the host future.
    Fulfilled { payload: Vec<u8> },
    /// The failure description the host exception is built from.
    Failed { error_message: Vec<u8> },
}

/// Mathematical model of a `Resolution`.
pub enum ResolutionModel {
    Fulfilled { payload: Seq<u8> },
    Failed { error_message: Seq<u8> },
}

impl View for Resolution {
    type V = ResolutionModel;

    open spec fn view(&self) -> ResolutionModel {
        match self {
            Resolution::Fulfilled { payload } => ResolutionModel::Fulfilled { payload: payload@ },
            Resolution::Failed { error_message } => ResolutionModel::Failed {
                error_message: error_message@,
            },
        }
    }
}

/// What resolving a promise in state `s` with `outcome` leads to: the new
/// state, and whether the resolution was accepted.
pub open spec fn spec_resolve(s: Option<ResolutionModel>, outcome: ResolutionModel) -> (
    Option<ResolutionModel>,
    bool,
) {
    match s {
        None => (Some(outcome), true),
        Some(_) => (s, false),
    }
}

/// A promise accepts at most one resolution: once an attempt has been
/// accepted, every later attempt is refused and changes nothing.
pub proof fn lemma_resolve_at_most_once(
    s: Option<ResolutionModel>,
    first: ResolutionModel,
    second: ResolutionModel,
)
    ensures
        spec_resolve(s, first).1 ==> {
            let after = spec_resolve(s, first).0;
            &&& !spec_resolve(after, second).1
            &&& spec_resolve(after, second).0 == after
        },
{
}

/// The native-side resolver of one host-visible future.
pub struct BoundaryPromise {
    resolution: Option<Resolution>,
}

impl View for BoundaryPromise {
    type V = Option<ResolutionModel>;

    closed spec fn view(&self) -> Option<ResolutionModel> {
        match self.resolution {
            Some(ref r) => Some(r@),
            None => None,
        }
    }
}

impl BoundaryPromise {
    /// A fresh, pending promise.
    pub fn create() -> (p: Self)
        ensures
            p@ is None,
    {
        BoundaryPromise { resolution: None }
    }

    /// Whether the promise has been resolved.
    pub fn is_resolved(&self) -> (b: bool)
        ensures
            b == (self@ is Some),
    {
        match self.resolution {
            Some(_) => true,
            None => false,
        }
    }

    /// Delivers a success payload; reports whether it was accepted.
    pub fn resolve_success(&mut self, payload: Vec<u8>) -> (accepted: bool)
        ensures
            ({
                let (after, ok) = spec_resolve(
                    old(self)@,
                    ResolutionModel::Fulfilled { payload: payload@ },
                );
                accepted == ok && final(self)@ == after
            }),
    {
        self.resolve(Resolution::Fulfilled { payload })
    }

    /// Delivers a failure description; reports whether it was accepted.
    pub fn resolve_failure(&mut self, error_message: Vec<u8>) -> (accepted: bool)
        ensures
            ({
                let (after, ok) = spec_resolve(
                    old(self)@,
                    ResolutionModel::Failed { error_message: error_message@ },
                );
                accepted == ok && final(self)@ == after
            }),
    {
        self.resolve(Resolution::Failed { error_message })
    }

    /// Attempts to resolve with `outcome`.
    fn resolve(&mut self, outcome: Resolution) -> (accepted: bool)
        ensures
            ({
                let (after, ok) = spec_resolve(old(self)@, outcome@);
                accepted == ok && final(self)@ == after
            }),
    {
        match self.resolution {
            Some(_) => false,
            None => {
                self.resolution = Some(outcome);
                true
            },
        }
    }

    /// The resolution, if any, read back out.
    pub fn resolution(&self) -> (r: &Option<Resolution>)
        ensures
            match r {
                Some(res) => self@ == Some(res@),
                None => self@ is None,
            },
    {
        &self.resolution
    }
}

} // verus!
