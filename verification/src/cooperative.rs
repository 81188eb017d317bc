//! The synchronized load, step by step.
//!
//! Where a source cannot be called and waited for, as with sources that
//! suspend, the caller makes the calls and a [`SyncSession`] decides which:
//! it names the next step, takes the result, and names the step after that.
//! The steps are those of [`crate::repository::LectureRepository`]: the
//! sources are asked in their order until one answers, then the answer is
//! saved to every writable source.

use crate::datasource::ErrorKind;
use crate::datasource::LoadResult;
use crate::datasource::SaveResult;
use crate::datasource::SourceError;
use crate::datasource::SourceErrorView;
use crate::entities::DegreeView;
use crate::entities::Lecture;
use crate::entities::LectureView;
use crate::entities::StaticDegree;
use crate::repository::Place;
use crate::repository::SaveFailure;
use crate::repository::SaveFailureView;
use crate::repository::NO_SOURCE;
use vstd::prelude::*;

verus! {

/// What the caller of a session does next.
#[derive(Clone, Copy, Debug, PartialEq, Eq, Structural)]
pub enum SyncStep {
    /// Load from this source and hand the result to `loaded`.
    Load(Place),
    /// Save the answer to this writable source and hand the result to `saved`.
    Save(usize),
    /// Nothing more: take the outcome.
    Done,
}

/// A synchronized load in progress.
pub struct SyncSession {
    degree: StaticDegree,
    writable: usize,
    read_only: usize,
    step: SyncStep,
    answer: Option<Vec<Lecture>>,
    failures: Vec<SaveFailure>,
}

/// What a [`SyncSession`] holds, as plain values.
pub struct SessionView {
    pub degree: DegreeView,
    /// Number of writable sources.
    pub writable: nat,
    /// Number of read-only sources.
    pub read_only: nat,
    pub step: SyncStep,
    /// The first answer, once a source gave one.
    pub answer: Option<Seq<LectureView>>,
    /// The saves that failed, in the order of the sources.
    pub failures: Seq<SaveFailureView>,
}

/// The source at place `k` of the order of asking, as a step; `Done` behind
/// the last source.
pub open spec fn asked(k: int, writable: nat, read_only: nat) -> SyncStep {
    if 0 <= k < writable {
        SyncStep::Load(Place::Writable(k as usize))
    } else if writable <= k < writable + read_only {
        SyncStep::Load(Place::ReadOnly((k - writable) as usize))
    } else {
        SyncStep::Done
    }
}

/// The step after the source `place` had no answer.
pub open spec fn step_after_miss(place: Place, writable: nat, read_only: nat) -> SyncStep {
    asked(crate::repository::rank(place, writable as int) + 1, writable, read_only)
}

/// The save to the writable source `i`, as a step; `Done` behind the last
/// writable source.
pub open spec fn save_to(i: int, writable: nat) -> SyncStep {
    if 0 <= i < writable {
        SyncStep::Save(i as usize)
    } else {
        SyncStep::Done
    }
}

/// Whether `step` names a source that there is.
pub open spec fn in_range(step: SyncStep, writable: nat, read_only: nat) -> bool {
    match step {
        SyncStep::Load(Place::Writable(i)) => i < writable,
        SyncStep::Load(Place::ReadOnly(i)) => i < read_only,
        SyncStep::Save(i) => i < writable,
        SyncStep::Done => true,
    }
}

/// The session for `degree` at its start.
pub open spec fn begun(degree: DegreeView, writable: nat, read_only: nat) -> SessionView {
    SessionView {
        degree,
        writable,
        read_only,
        step: asked(0, writable, read_only),
        answer: None,
        failures: Seq::empty(),
    }
}

/// The session after the load that it asked for gave `outcome`: the
/// lectures, or `None` for a failure. A session that asked for no load is
/// as before.
pub open spec fn after_load(session: SessionView, outcome: Option<Seq<LectureView>>) -> SessionView {
    match session.step {
        SyncStep::Load(place) => match outcome {
            Some(lectures) => SessionView {
                step: save_to(0, session.writable),
                answer: Some(lectures),
                ..session
            },
            None => SessionView {
                step: step_after_miss(place, session.writable, session.read_only),
                ..session
            },
        },
        _ => session,
    }
}

/// The session after the save that it asked for gave `outcome`: `None`, or
/// the failure. A session that asked for no save is as before.
pub open spec fn after_save(session: SessionView, outcome: Option<SourceErrorView>) -> SessionView {
    match session.step {
        SyncStep::Save(i) => SessionView {
            step: save_to(i + 1, session.writable),
            failures: match outcome {
                Some(error) => session.failures.push(
                    SaveFailureView { source: i, degree_id: session.degree.id, error },
                ),
                None => session.failures,
            },
            ..session
        },
        _ => session,
    }
}

/// The failure of a load that no source answered.
pub open spec fn no_source(degree: DegreeView) -> SourceErrorView {
    SourceErrorView {
        kind: ErrorKind::NoSource,
        degree_id: degree.id,
        message: NO_SOURCE@ + degree.name,
    }
}

impl View for SyncSession {
    type V = SessionView;

    closed spec fn view(&self) -> SessionView {
        SessionView {
            degree: self.degree@,
            writable: self.writable as nat,
            read_only: self.read_only as nat,
            step: self.step,
            answer: self.answer.deep_view(),
            failures: self.failures.deep_view(),
        }
    }
}

impl SyncSession {
    /// The step names a source that there is.
    #[verifier::type_invariant]
    pub closed spec fn well_formed(&self) -> bool {
        in_range(self.step, self.writable as nat, self.read_only as nat)
    }

    /// A session for `degree` over `writable` writable and `read_only`
    /// read-only sources.
    pub fn begin(degree: &StaticDegree, writable: usize, read_only: usize) -> (session: Self)
        ensures
            session@ == begun(degree@, writable as nat, read_only as nat),
    {
        let step = if writable > 0 {
            SyncStep::Load(Place::Writable(0))
        } else if read_only > 0 {
            SyncStep::Load(Place::ReadOnly(0))
        } else {
            SyncStep::Done
        };
        let session = SyncSession {
            degree: *degree,
            writable,
            read_only,
            step,
            answer: None,
            failures: Vec::new(),
        };
        assert(session.failures.deep_view() =~= Seq::<SaveFailureView>::empty());
        session
    }

    /// What to do next.
    pub fn step(&self) -> (step: SyncStep)
        ensures
            step == self@.step,
            in_range(step, self@.writable, self@.read_only),
    {
        proof {
            use_type_invariant(self);
        }
        self.step
    }

    /// The answer, once a source gave one: what to save.
    pub fn lectures(&self) -> (answer: Option<&Vec<Lecture>>)
        ensures
            answer.deep_view() == self@.answer,
    {
        self.answer.as_ref()
    }

    /// Takes the result of the load that the session asked for.
    pub fn loaded(&mut self, result: LoadResult)
        ensures
            final(self)@ == after_load(
                old(self)@,
                match result {
                    Ok(lectures) => Some(lectures.deep_view()),
                    Err(_) => None,
                },
            ),
    {
        proof {
            use_type_invariant(&*self);
        }
        match self.step {
            SyncStep::Load(place) => match result {
                Ok(lectures) => {
                    self.answer = Some(lectures);
                    self.step = if self.writable > 0 {
                        SyncStep::Save(0)
                    } else {
                        SyncStep::Done
                    };
                },
                Err(_) => {
                    self.step = match place {
                        Place::Writable(i) => if i + 1 < self.writable {
                            SyncStep::Load(Place::Writable(i + 1))
                        } else if self.read_only > 0 {
                            SyncStep::Load(Place::ReadOnly(0))
                        } else {
                            SyncStep::Done
                        },
                        Place::ReadOnly(i) => if i + 1 < self.read_only {
                            SyncStep::Load(Place::ReadOnly(i + 1))
                        } else {
                            SyncStep::Done
                        },
                    };
                },
            },
            _ => {},
        }
    }

    /// Takes the result of the save that the session asked for.
    pub fn saved(&mut self, result: SaveResult)
        ensures
            final(self)@ == after_save(
                old(self)@,
                match result {
                    Ok(_) => None,
                    Err(error) => Some(error@),
                },
            ),
    {
        proof {
            use_type_invariant(&*self);
        }
        match self.step {
            SyncStep::Save(i) => {
                match result {
                    Ok(_) => {},
                    Err(error) => {
                        let ghost before = self.failures.deep_view();
                        let failure = SaveFailure {
                            source: i,
                            degree_id: String::from_str(self.degree.id),
                            error,
                        };
                        let mut failures: Vec<SaveFailure> = Vec::new();
                        std::mem::swap(&mut failures, &mut self.failures);
                        failures.push(failure);
                        assert(failures.deep_view() =~= before.push(failure@));
                        self.failures = failures;
                    },
                }
                self.step = if i + 1 < self.writable {
                    SyncStep::Save(i + 1)
                } else {
                    SyncStep::Done
                };
            },
            _ => {},
        }
    }

    /// The outcome of a session that is done: the answer, or the failure of
    /// the kind `NoSource` where no source had one; and the saves that
    /// failed. A session that is not done has no outcome.
    pub fn finish(self) -> (outcome: Option<(Result<Vec<Lecture>, SourceError>, Vec<SaveFailure>)>)
        ensures
            match outcome {
                Some((result, failures)) => {
                    &&& self@.step is Done
                    &&& failures.deep_view() == self@.failures
                    &&& match result {
                        Ok(lectures) => self@.answer == Some(lectures.deep_view()),
                        Err(error) => self@.answer is None && error@ == no_source(self@.degree),
                    }
                },
                None => !(self@.step is Done),
            },
    {
        match self.step {
            SyncStep::Done => {
                let result = match self.answer {
                    Some(lectures) => Ok(lectures),
                    None => Err(
                        SourceError::new(
                            ErrorKind::NoSource,
                            &self.degree,
                            NO_SOURCE,
                            self.degree.name,
                        ),
                    ),
                };
                Some((result, self.failures))
            },
            _ => None,
        }
    }
}

/// The steps of a session follow the order of asking, and the first answer
/// ends the asking.
///
/// A session begins with the first source. After a load without an answer it
/// asks the next source, the writable ones before the read-only ones, and
/// is done behind the last. After the first answer it asks no source any
/// more: it saves to the writable sources in their order, and is done.
pub proof fn lemma_session_order(session: SessionView, k: int, lectures: Seq<LectureView>)
    requires
        session.writable <= usize::MAX,
        session.read_only <= usize::MAX,
        0 <= k < session.writable + session.read_only,
        session.step == asked(k, session.writable, session.read_only),
    ensures
        begun(session.degree, session.writable, session.read_only).step == asked(
            0,
            session.writable,
            session.read_only,
        ),
        after_load(session, None).step == asked(k + 1, session.writable, session.read_only),
        after_load(session, None).answer == session.answer,
        after_load(session, Some(lectures)).step == save_to(0, session.writable),
        after_load(session, Some(lectures)).answer == Some(lectures),
        !(after_load(session, Some(lectures)).step is Load),
{
}

/// Once a session saves, it asks no source again, and it saves to every
/// writable source once, in the order of the sources.
pub proof fn lemma_session_saves(
    session: SessionView,
    i: int,
    loaded: Option<Seq<LectureView>>,
    saved: Option<SourceErrorView>,
)
    requires
        session.writable <= usize::MAX,
        0 <= i < session.writable,
        session.step == save_to(i, session.writable),
    ensures
        after_load(session, loaded) == session,
        after_save(session, saved).step == save_to(i + 1, session.writable),
        after_save(session, saved).answer == session.answer,
        saved is None ==> after_save(session, saved).failures == session.failures,
        saved matches Some(error) ==> after_save(session, saved).failures
            == session.failures.push(
            SaveFailureView { source: i as usize, degree_id: session.degree.id, error },
        ),
{
}

/// A session that is done stays done, whatever it is handed.
pub proof fn lemma_session_done(
    session: SessionView,
    loaded: Option<Seq<LectureView>>,
    saved: Option<SourceErrorView>,
)
    requires
        session.step is Done,
    ensures
        after_load(session, loaded) == session,
        after_save(session, saved) == session,
{
}

} // verus!
