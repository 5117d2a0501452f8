use vstd::prelude::*;

use itertools::Itertools;

use crate::args::ArgsError;
use crate::config::ConfigParseError;
use crate::dot::{DotfileError, ManagedDotfile};

verus! {

/// The `Ok` values of a sequence of results, in order.
pub open spec fn oks<T, E>(v: Seq<Result<T, E>>) -> Seq<T>
    decreases v.len(),
{
    if v.len() == 0 {
        Seq::empty()
    } else {
        match v.last() {
            Ok(x) => oks(v.drop_last()).push(x),
            Err(_) => oks(v.drop_last()),
        }
    }
}

/// The `Err` values of a sequence of results, in order.
pub open spec fn errs<T, E>(v: Seq<Result<T, E>>) -> Seq<E>
    decreases v.len(),
{
    if v.len() == 0 {
        Seq::empty()
    } else {
        match v.last() {
            Ok(_) => errs(v.drop_last()),
            Err(e) => errs(v.drop_last()).push(e),
        }
    }
}

/// Relies on itertools' `Itertools::partition_result`: the `Ok` values and
/// the `Err` values, each list in the order of the input.
#[verifier::external_body]
fn partition_results<T, E>(v: Vec<Result<T, E>>) -> (r: (Vec<T>, Vec<E>))
    ensures
        r.0@ == oks(v@),
        r.1@ == errs(v@),
{
    v.into_iter().partition_result()
}

/// The configured pairs sorted for a sync pass.
pub struct Sorted {
    /// Pairs to copy, in the configured order. A pair whose scans met
    /// faults is among them: its partial trees are copied, and the faults
    /// are reported beside it.
    pub ready: Vec<ManagedDotfile>,
    /// Mappings whose pair could not be built, in the configured order.
    pub failed: Vec<DotfileError>,
}

/// Sorts the outcomes of building each configured pair into the pairs to
/// copy and the mappings that failed. Each list keeps the configured order.
pub fn sort_dotfiles(dotfiles: Vec<Result<ManagedDotfile, DotfileError>>) -> (r: Sorted)
    ensures
        r.ready@ == oks(dotfiles@),
        r.failed@ == errs(dotfiles@),
{
    let (ready, failed) = partition_results(dotfiles);
    Sorted { ready, failed }
}

/// What ends a run before any pair is copied.
#[derive(Debug, PartialEq, Eq)]
pub enum ManagerError {
    /// The configuration could not be read.
    ConfigParseError(ConfigParseError),
    /// The command line could not be read.
    ArgsError(ArgsError),
}

impl ManagerError {
    pub open spec fn text(&self) -> Seq<char> {
        match self {
            ManagerError::ConfigParseError(e) => e.text(),
            ManagerError::ArgsError(a) => a.message@,
        }
    }

    /// The error as text.
    pub fn describe(&self) -> (r: String)
        ensures
            r@ == self.text(),
    {
        match self {
            ManagerError::ConfigParseError(e) => e.describe(),
            ManagerError::ArgsError(a) => a.message.clone(),
        }
    }
}

} // verus!
