//! The repository: several data sources behind one load.
//!
//! A repository asks its sources one after the other, the writable ones
//! first, each kind in the order in which the sources were added, and takes
//! the first answer. It then saves the answer to every writable source. A
//! save that fails is put on record and changes nothing else.

use crate::datasource::ErrorKind;
use crate::datasource::ReadOnlyDataSource;
use crate::datasource::ReadWriteDataSource;
use crate::datasource::SourceError;
use crate::datasource::SourceErrorView;
use crate::entities::Lecture;
use crate::entities::LectureView;
use crate::entities::StaticDegree;
use vstd::prelude::*;

verus! {

/// What the repository says where no source had an answer.
pub const NO_SOURCE: &'static str = "No source returned lectures for degree ";

/// A save that failed while the repository wrote an answer through.
#[derive(Debug)]
pub struct SaveFailure {
    /// Place of the source among the writable sources.
    pub source: usize,
    /// The degree whose lectures were to be saved.
    pub degree_id: String,
    /// What the source said.
    pub error: SourceError,
}

/// What a [`SaveFailure`] holds, as plain text.
pub struct SaveFailureView {
    pub source: usize,
    pub degree_id: Seq<char>,
    pub error: SourceErrorView,
}

impl View for SaveFailure {
    type V = SaveFailureView;

    open spec fn view(&self) -> SaveFailureView {
        SaveFailureView { source: self.source, degree_id: self.degree_id@, error: self.error@ }
    }
}

impl DeepView for SaveFailure {
    type V = SaveFailureView;

    open spec fn deep_view(&self) -> SaveFailureView {
        self@
    }
}

/// A source of a repository: its kind, and its place among the sources of
/// that kind.
#[derive(Clone, Copy, Debug, PartialEq, Eq, Structural)]
pub enum Place {
    Writable(usize),
    ReadOnly(usize),
}

/// The place of a source in the order of asking, where the repository has
/// `writable` writable sources: these stand first.
pub open spec fn rank(place: Place, writable: int) -> int {
    match place {
        Place::Writable(i) => i as int,
        Place::ReadOnly(i) => writable + i,
    }
}

/// Whether `failures` has, from place `from` on, a failure of the source `source`.
pub open spec fn failed_since(failures: Seq<SaveFailureView>, from: int, source: int) -> bool {
    exists|k: int| from <= k < failures.len() && (#[trigger] failures[k]).source == source
}

/// A repository over the writable sources `W` and the read-only sources `R`.
pub struct LectureRepository<W: ReadWriteDataSource, R: ReadOnlyDataSource> {
    sources: Vec<W>,
    read_only_sources: Vec<R>,
    save_failures: Vec<SaveFailure>,
}

impl<W: ReadWriteDataSource, R: ReadOnlyDataSource> LectureRepository<W, R> {
    /// The writable sources, in the order in which they were added.
    pub closed spec fn writable(&self) -> Seq<W> {
        self.sources@
    }

    /// The read-only sources, in the order in which they were added.
    pub closed spec fn read_only(&self) -> Seq<R> {
        self.read_only_sources@
    }

    /// The saves that have failed so far, oldest first.
    pub closed spec fn failures(&self) -> Seq<SaveFailureView> {
        self.save_failures.deep_view()
    }

    /// Number of sources.
    pub open spec fn source_count(&self) -> nat {
        self.writable().len() + self.read_only().len()
    }

    /// Whether the source at place `k` of the order of asking can fail a load
    /// for the degree. The writable sources stand before the read-only ones.
    pub open spec fn may_miss_at(&self, k: int, degree_id: Seq<char>) -> bool {
        if k < self.writable().len() {
            self.writable()[k].may_miss(degree_id)
        } else {
            self.read_only()[k - self.writable().len()].may_miss(degree_id)
        }
    }

    /// Whether the source at place `k` of the order of asking can answer a
    /// load for the degree with `lectures`.
    pub open spec fn may_load_at(
        &self,
        k: int,
        degree_id: Seq<char>,
        lectures: Seq<LectureView>,
    ) -> bool {
        if k < self.writable().len() {
            self.writable()[k].may_load(degree_id, lectures)
        } else {
            self.read_only()[k - self.writable().len()].may_load(degree_id, lectures)
        }
    }

    /// Whether `lectures` can be the first answer, given by the source at
    /// place `k`: every source before it can fail, and it can answer so.
    pub open spec fn first_answer_at(
        &self,
        k: int,
        degree_id: Seq<char>,
        lectures: Seq<LectureView>,
    ) -> bool {
        &&& 0 <= k < self.source_count()
        &&& self.may_load_at(k, degree_id, lectures)
        &&& forall|j: int| 0 <= j < k ==> #[trigger] self.may_miss_at(j, degree_id)
    }

    /// Whether every source can fail a load for the degree.
    pub open spec fn all_may_miss(&self, degree_id: Seq<char>) -> bool {
        forall|j: int| 0 <= j < self.source_count() ==> #[trigger] self.may_miss_at(j, degree_id)
    }

    /// Whether `after` is this repository after `lectures` were saved to
    /// every writable source for the degree.
    ///
    /// The read-only sources are the same. The record of failed saves has
    /// grown by one entry for each source whose save failed, in the order of
    /// the sources. Each writable source is as its save left it.
    pub open spec fn written_through(
        &self,
        after: &Self,
        degree_id: Seq<char>,
        lectures: Seq<LectureView>,
    ) -> bool {
        let old_count = self.failures().len() as int;
        &&& after.read_only() == self.read_only()
        &&& after.writable().len() == self.writable().len()
        &&& after.failures().len() >= old_count
        &&& after.failures().take(old_count) == self.failures()
        &&& forall|k: int|
            old_count <= k < after.failures().len() ==> {
                &&& (#[trigger] after.failures()[k]).source < self.writable().len()
                &&& after.failures()[k].degree_id == degree_id
            }
        &&& forall|k: int, l: int|
            old_count <= k < l < after.failures().len() ==> (#[trigger] after.failures()[k]).source
                < (#[trigger] after.failures()[l]).source
        &&& forall|i: int|
            0 <= i < self.writable().len() ==> if failed_since(after.failures(), old_count, i) {
                (#[trigger] self.writable()[i]).may_refuse(degree_id, lectures, &after.writable()[i])
            } else {
                self.writable()[i].may_keep(degree_id, lectures, &after.writable()[i])
            }
    }

    /// The failure of a load that no source answered.
    pub open spec fn no_source(degree: StaticDegree) -> SourceErrorView {
        SourceErrorView {
            kind: ErrorKind::NoSource,
            degree_id: degree.id@,
            message: NO_SOURCE@ + degree.name@,
        }
    }

    /// A repository without sources.
    pub fn new() -> (repository: Self)
        ensures
            repository.writable().len() == 0,
            repository.read_only().len() == 0,
            repository.failures().len() == 0,
    {
        LectureRepository {
            sources: Vec::new(),
            read_only_sources: Vec::new(),
            save_failures: Vec::new(),
        }
    }

    /// Adds a writable source behind those that were added before. The
    /// repository loads from it and saves to it.
    pub fn add_source(&mut self, source: W)
        ensures
            final(self).writable() == old(self).writable().push(source),
            final(self).read_only() == old(self).read_only(),
            final(self).failures() == old(self).failures(),
    {
        self.sources.push(source);
    }

    /// The repository with one more writable source.
    pub fn source(self, source: W) -> (repository: Self)
        ensures
            repository.writable() == self.writable().push(source),
            repository.read_only() == self.read_only(),
            repository.failures() == self.failures(),
    {
        let mut repository = self;
        repository.add_source(source);
        repository
    }

    /// Adds a read-only source behind those that were added before. It is
    /// asked only where no writable source has an answer.
    pub fn add_readonly_source(&mut self, source: R)
        ensures
            final(self).read_only() == old(self).read_only().push(source),
            final(self).writable() == old(self).writable(),
            final(self).failures() == old(self).failures(),
    {
        self.read_only_sources.push(source);
    }

    /// The repository with one more read-only source.
    pub fn readonly_source(self, source: R) -> (repository: Self)
        ensures
            repository.read_only() == self.read_only().push(source),
            repository.writable() == self.writable(),
            repository.failures() == self.failures(),
    {
        let mut repository = self;
        repository.add_readonly_source(source);
        repository
    }

    /// The writable sources, in the order in which they were added.
    pub fn writable_sources(&self) -> (sources: &Vec<W>)
        ensures
            sources@ == self.writable(),
    {
        &self.sources
    }

    /// The read-only sources, in the order in which they were added.
    pub fn readonly_sources(&self) -> (sources: &Vec<R>)
        ensures
            sources@ == self.read_only(),
    {
        &self.read_only_sources
    }

    /// The saves that have failed so far, oldest first.
    pub fn save_failures(&self) -> (failures: &Vec<SaveFailure>)
        ensures
            failures.deep_view() == self.failures(),
    {
        &self.save_failures
    }

    /// Asks the sources in their order and gives the first answer, with the
    /// source that gave it.
    pub fn first_answer(&self, degree: &StaticDegree) -> (answer: Option<(Place, Vec<Lecture>)>)
        ensures
            match answer {
                Some((place, lectures)) => self.first_answer_at(
                    rank(place, self.writable().len() as int),
                    degree.id@,
                    lectures.deep_view(),
                ),
                None => self.all_may_miss(degree.id@),
            },
    {
        let mut i: usize = 0;
        while i < self.sources.len()
            invariant
                i <= self.sources.len(),
                forall|j: int| 0 <= j < i ==> #[trigger] self.may_miss_at(j, degree.id@),
            decreases self.sources.len() - i,
        {
            match self.sources[i].load_lectures(degree) {
                Ok(lectures) => {
                    return Some((Place::Writable(i), lectures));
                },
                Err(_) => {},
            }
            i = i + 1;
        }
        let mut r: usize = 0;
        while r < self.read_only_sources.len()
            invariant
                r <= self.read_only_sources.len(),
                forall|j: int|
                    0 <= j < self.sources.len() + r ==> #[trigger] self.may_miss_at(
                        j,
                        degree.id@,
                    ),
            decreases self.read_only_sources.len() - r,
        {
            match self.read_only_sources[r].load_lectures(degree) {
                Ok(lectures) => {
                    return Some((Place::ReadOnly(r), lectures));
                },
                Err(_) => {},
            }
            assert(self.may_miss_at(self.sources.len() + r, degree.id@));
            r = r + 1;
        }
        None
    }

    /// Asks the sources in their order and gives the first answer.
    pub fn try_loading(&self, degree: &StaticDegree) -> (answer: Option<Vec<Lecture>>)
        ensures
            match answer {
                Some(lectures) => (exists|k: int| #[trigger]
                    self.first_answer_at(k, degree.id@, lectures.deep_view())),
                None => self.all_may_miss(degree.id@),
            },
    {
        match self.first_answer(degree) {
            Some((place, lectures)) => {
                let ghost k = rank(place, self.writable().len() as int);
                assert(self.first_answer_at(k, degree.id@, lectures.deep_view()));
                let answer = Some(lectures);
                assert(answer->Some_0 == lectures);
                assert(exists|k: int| #[trigger]
                    self.first_answer_at(k, degree.id@, lectures.deep_view()));
                answer
            },
            None => None,
        }
    }

    /// Saves `lectures` for `degree` to every writable source, in the order
    /// of the sources. A save that fails is put on record; the saves after
    /// it are made all the same.
    pub fn write_through(&mut self, degree: &StaticDegree, lectures: &Vec<Lecture>)
        ensures
            old(self).written_through(final(self), degree.id@, lectures.deep_view()),
    {
        let ghost before = *old(self);
        let ghost old_count = self.failures().len() as int;
        let mut i: usize = 0;
        assert(self.failures().take(old_count) =~= self.failures());
        while i < self.sources.len()
            invariant
                i <= self.sources.len(),
                old_count == before.failures().len(),
                self.read_only() == before.read_only(),
                self.writable().len() == before.writable().len(),
                self.failures().len() >= old_count,
                self.failures().take(old_count) == before.failures(),
                forall|k: int|
                    old_count <= k < self.failures().len() ==> {
                        &&& (#[trigger] self.failures()[k]).source < i
                        &&& self.failures()[k].degree_id == degree.id@
                    },
                forall|k: int, l: int|
                    old_count <= k < l < self.failures().len() ==> (
                    #[trigger] self.failures()[k]).source < (#[trigger] self.failures()[l]).source,
                forall|j: int|
                    0 <= j < i ==> if failed_since(self.failures(), old_count, j) {
                        (#[trigger] before.writable()[j]).may_refuse(
                            degree.id@,
                            lectures.deep_view(),
                            &self.writable()[j],
                        )
                    } else {
                        before.writable()[j].may_keep(
                            degree.id@,
                            lectures.deep_view(),
                            &self.writable()[j],
                        )
                    },
                forall|j: int|
                    i <= j < self.writable().len() ==> #[trigger] self.writable()[j]
                        == before.writable()[j],
            decreases self.sources.len() - i,
        {
            let ghost failures_before = self.failures();
            let ghost sources_before = self.writable();
            let result = self.sources[i].save_lectures(degree, lectures.as_slice());
            assert forall|j: int| 0 <= j < self.writable().len() && j != i implies #[trigger]
                self.writable()[j] == sources_before[j] by {}
            match result {
                Ok(_) => {
                    assert(!failed_since(self.failures(), old_count, i as int));
                },
                Err(error) => {
                    let failure = SaveFailure {
                        source: i,
                        degree_id: String::from_str(degree.id),
                        error,
                    };
                    self.save_failures.push(failure);
                    proof {
                        let failures = self.failures();
                        assert(failures =~= failures_before.push(failure@));
                        assert(failures.take(old_count) =~= failures_before.take(old_count));
                        assert(failures[failures.len() - 1].source == i);
                        assert(failed_since(failures, old_count, i as int));
                        assert forall|j: int| 0 <= j < i implies failed_since(
                            failures,
                            old_count,
                            j,
                        ) == failed_since(failures_before, old_count, j) by {
                            if failed_since(failures_before, old_count, j) {
                                let k = choose|k: int|
                                    old_count <= k < failures_before.len() && (
                                    #[trigger] failures_before[k]).source == j;
                                assert(failures[k].source == j);
                            }
                            if failed_since(failures, old_count, j) {
                                let k = choose|k: int|
                                    old_count <= k < failures.len() && (
                                    #[trigger] failures[k]).source == j;
                                assert(failures_before[k].source == j);
                            }
                        }
                    }
                },
            }
            i = i + 1;
        }
    }

    /// The lectures of `degree`: the first answer of the sources, asked in
    /// their order, the writable ones first. The answer is saved to every
    /// writable source before it is returned, and a save that fails is put on
    /// record. Where no source answers, the load fails with the kind
    /// `NoSource`, and nothing is saved.
    pub fn synchronized_load(&mut self, degree: &StaticDegree) -> (result: Result<
        Vec<Lecture>,
        SourceError,
    >)
        ensures
            match result {
                Ok(lectures) => {
                    &&& (exists|k: int| #[trigger]
                        old(self).first_answer_at(k, degree.id@, lectures.deep_view()))
                    &&& old(self).written_through(final(self), degree.id@, lectures.deep_view())
                },
                Err(error) => {
                    &&& old(self).all_may_miss(degree.id@)
                    &&& error@ == Self::no_source(*degree)
                    &&& final(self).writable() == old(self).writable()
                    &&& final(self).read_only() == old(self).read_only()
                    &&& final(self).failures() == old(self).failures()
                },
            },
    {
        match self.try_loading(degree) {
            Some(lectures) => {
                self.write_through(degree, &lectures);
                Ok(lectures)
            },
            None => Err(SourceError::new(ErrorKind::NoSource, degree, NO_SOURCE, degree.name)),
        }
    }
}

/// Whether the sources of the type `W` keep what they save: after a save
/// that succeeded, a load for the degree cannot fail and can give nothing but
/// what was saved.
pub open spec fn keeps_what_it_saves<W: ReadWriteDataSource>() -> bool {
    forall|before: W, after: W, degree_id: Seq<char>, lectures: Seq<LectureView>| #[trigger]
        before.may_keep(degree_id, lectures, &after) ==> {
            &&& !after.may_miss(degree_id)
            &&& forall|other: Seq<LectureView>| #[trigger]
                after.may_load(degree_id, other) ==> other == lectures
        }
}

/// Whether a load of the source for the degree is decided by the source as
/// it is: it fails or answers but not either, and it has one answer at most.
pub open spec fn decided<S: ReadOnlyDataSource>(source: S, degree_id: Seq<char>) -> bool {
    &&& forall|lectures: Seq<LectureView>| #[trigger]
        source.may_load(degree_id, lectures) ==> !source.may_miss(degree_id)
    &&& forall|one: Seq<LectureView>, other: Seq<LectureView>|
        #![trigger source.may_load(degree_id, one), source.may_load(degree_id, other)]
        source.may_load(degree_id, one) && source.may_load(degree_id, other) ==> one == other
}

/// After a synchronized load that gave `lectures`, every writable source
/// that keeps what it saves hands out `lectures` on its next load for the
/// degree, unless its save failed and is on record.
pub proof fn lemma_written_through_is_loaded<W: ReadWriteDataSource, R: ReadOnlyDataSource>(
    before: LectureRepository<W, R>,
    after: LectureRepository<W, R>,
    degree_id: Seq<char>,
    lectures: Seq<LectureView>,
    i: int,
)
    requires
        before.written_through(&after, degree_id, lectures),
        0 <= i < after.writable().len(),
        keeps_what_it_saves::<W>(),
    ensures
        failed_since(after.failures(), before.failures().len() as int, i) || {
            &&& !after.writable()[i].may_miss(degree_id)
            &&& forall|other: Seq<LectureView>| #[trigger]
                after.writable()[i].may_load(degree_id, other) ==> other == lectures
        },
{
    if !failed_since(after.failures(), before.failures().len() as int, i) {
        assert(before.writable()[i].may_keep(degree_id, lectures, &after.writable()[i]));
    }
}

/// A save that is on record as failed belongs to the load that put it there:
/// it names the degree of the load and a writable source of the repository.
pub proof fn lemma_failures_name_the_degree<W: ReadWriteDataSource, R: ReadOnlyDataSource>(
    before: LectureRepository<W, R>,
    after: LectureRepository<W, R>,
    degree_id: Seq<char>,
    lectures: Seq<LectureView>,
    i: int,
)
    requires
        before.written_through(&after, degree_id, lectures),
        failed_since(after.failures(), before.failures().len() as int, i),
    ensures
        0 <= i < before.writable().len(),
        exists|k: int|
            before.failures().len() <= k < after.failures().len() && (
            #[trigger] after.failures()[k]).source == i && after.failures()[k].degree_id
                == degree_id,
{
    let k = choose|k: int|
        before.failures().len() <= k < after.failures().len() && (
        #[trigger] after.failures()[k]).source == i;
    assert(after.failures()[k].degree_id == degree_id);
}

/// The order of asking decides: where the loads of all sources are decided
/// by the sources as they are, the first answer is the answer of the first
/// source in the order of asking that has one, and there is no other.
pub proof fn lemma_first_answer_is_decided<W: ReadWriteDataSource, R: ReadOnlyDataSource>(
    repository: LectureRepository<W, R>,
    degree_id: Seq<char>,
    k: int,
    lectures: Seq<LectureView>,
    l: int,
    other: Seq<LectureView>,
)
    requires
        repository.first_answer_at(k, degree_id, lectures),
        repository.first_answer_at(l, degree_id, other),
        forall|i: int|
            0 <= i < repository.writable().len() ==> decided(
                #[trigger] repository.writable()[i],
                degree_id,
            ),
        forall|i: int|
            0 <= i < repository.read_only().len() ==> decided(
                #[trigger] repository.read_only()[i],
                degree_id,
            ),
    ensures
        k == l,
        lectures == other,
        !repository.all_may_miss(degree_id),
{
    let n = repository.writable().len() as int;
    if k < l {
        assert(repository.may_miss_at(k, degree_id));
        if k < n {
            assert(decided(repository.writable()[k], degree_id));
        } else {
            assert(decided(repository.read_only()[k - n], degree_id));
        }
    } else if l < k {
        assert(repository.may_miss_at(l, degree_id));
        if l < n {
            assert(decided(repository.writable()[l], degree_id));
        } else {
            assert(decided(repository.read_only()[l - n], degree_id));
        }
    }
    if k < n {
        assert(decided(repository.writable()[k], degree_id));
    } else {
        assert(decided(repository.read_only()[k - n], degree_id));
    }
    if repository.all_may_miss(degree_id) {
        assert(repository.may_miss_at(k, degree_id));
    }
}

/// A writable source is asked before every read-only source, and sources of
/// one kind are asked in the order in which they were added.
pub proof fn lemma_order_of_asking(writable: int, a: Place, b: Place)
    requires
        writable >= 0,
        match a {
            Place::Writable(i) => i < writable,
            Place::ReadOnly(_) => true,
        },
    ensures
        a is Writable && b is ReadOnly ==> rank(a, writable) < rank(b, writable),
        a is Writable && b is Writable ==> (a->Writable_0 < b->Writable_0 <==> rank(a, writable)
            < rank(b, writable)),
        a is ReadOnly && b is ReadOnly ==> (a->ReadOnly_0 < b->ReadOnly_0 <==> rank(a, writable)
            < rank(b, writable)),
{
}

} // verus!
