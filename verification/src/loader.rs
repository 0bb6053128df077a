//! The whole-document loader: one load fetches two documents — the character
//! builds and the ranking calculations for a user — and delivers a single
//! combined result to a polling consumer.  Either both documents arrive or
//! the load as a whole is reported failed; no partial success exists.

use vstd::prelude::*;
use crate::cache::FetchError;

verus! {

/// A whole load's single combined failure.
#[derive(Clone, Copy, PartialEq, Eq, Structural, Debug)]
pub enum LoadError {
    /// The character-build document could not be fetched.
    BuildsFailed(FetchError),
    /// The ranking-calculations document could not be fetched.
    CalculationsFailed(FetchError),
    /// Neither document could be fetched.
    BothFailed(FetchError, FetchError),
}

/// Merges the outcomes of the two document fetches of one load into its
/// single result: the pair of documents exactly when both fetches succeeded,
/// and otherwise one combined error naming every fetch that failed — a
/// partial success is never returned.
pub fn combine_documents<A, B>(
    builds: Result<A, FetchError>,
    calculations: Result<B, FetchError>,
) -> (r: Result<(A, B), LoadError>)
    ensures
        r is Ok <==> (builds is Ok && calculations is Ok),
        builds is Ok && calculations is Ok ==> r == Result::<(A, B), LoadError>::Ok(
            (builds->Ok_0, calculations->Ok_0),
        ),
        builds is Err && calculations is Ok ==> r == Result::<(A, B), LoadError>::Err(
            LoadError::BuildsFailed(builds->Err_0),
        ),
        builds is Ok && calculations is Err ==> r == Result::<(A, B), LoadError>::Err(
            LoadError::CalculationsFailed(calculations->Err_0),
        ),
        builds is Err && calculations is Err ==> r == Result::<(A, B), LoadError>::Err(
            LoadError::BothFailed(builds->Err_0, calculations->Err_0),
        ),
{
    match (builds, calculations) {
        (Ok(a), Ok(b)) => Ok((a, b)),
        (Err(e), Ok(_)) => Err(LoadError::BuildsFailed(e)),
        (Ok(_), Err(e)) => Err(LoadError::CalculationsFailed(e)),
        (Err(e1), Err(e2)) => Err(LoadError::BothFailed(e1, e2)),
    }
}

/// What the polling consumer knows of the one load in flight.  The fetches
/// themselves run elsewhere; the consumer drives this state with the calls
/// below, each a single non-blocking step.
pub struct LoaderState<A, B> {
    /// Whether a load is in flight and its single result still awaited.
    pub loading: bool,
    /// The combined error of the last failed load, shown until a retry.
    pub error: Option<LoadError>,
    /// The two documents of the last successful load.
    pub documents: Option<(A, B)>,
}

impl<A, B> LoaderState<A, B> {
    /// The state before any load was requested.
    pub fn new() -> (s: LoaderState<A, B>)
        ensures
            !s.loading,
            s.error is None,
            s.documents is None,
    {
        LoaderState { loading: false, error: None, documents: None }
    }

    /// A load (or retry) was requested: await its result, and stop showing
    /// the previous error.  Documents already shown stay until the result
    /// arrives.
    pub fn start_load(&mut self)
        ensures
            final(self).loading,
            final(self).error is None,
            final(self).documents == old(self).documents,
    {
        self.loading = true;
        self.error = None;
    }

    /// Delivery of the one combined result.  It is consumed exactly when a
    /// load was awaited: a stale delivery — after a reset, or a second
    /// delivery — changes nothing.  A success replaces the documents and
    /// clears any error; a failure keeps the old documents and records the
    /// error.  Returns whether the result was consumed.
    pub fn on_result(&mut self, r: Result<(A, B), LoadError>) -> (consumed: bool)
        ensures
            consumed == old(self).loading,
            !old(self).loading ==> *final(self) == *old(self),
            old(self).loading ==> !final(self).loading,
            old(self).loading && r is Ok ==> final(self).documents == Some(r->Ok_0)
                && final(self).error is None,
            old(self).loading && r is Err ==> final(self).error == Some(r->Err_0)
                && final(self).documents == old(self).documents,
    {
        if !self.loading {
            return false;
        }
        self.loading = false;
        match r {
            Ok(docs) => {
                self.documents = Some(docs);
                self.error = None;
            },
            Err(e) => {
                self.error = Some(e);
            },
        }
        true
    }

    /// Forget everything, as on logout.  A result still in flight will find
    /// `loading` false and be discarded by `on_result`.
    pub fn reset(&mut self)
        ensures
            !final(self).loading,
            final(self).error is None,
            final(self).documents is None,
    {
        self.loading = false;
        self.error = None;
        self.documents = None;
    }
}

} // verus!
