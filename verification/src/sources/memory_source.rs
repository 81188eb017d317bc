//! A data source that keeps the lectures in memory.

use crate::datasource::ErrorKind;
use crate::datasource::LectureDataSource;
use crate::datasource::LoadResult;
use crate::datasource::ReadOnlyDataSource;
use crate::datasource::ReadWriteDataSource;
use crate::datasource::SaveResult;
use crate::datasource::SourceError;
use crate::datasource::SourceErrorView;
use crate::entities::copy_of_lectures;
use crate::entities::Lecture;
use crate::entities::LectureView;
use crate::entities::StaticDegree;
use crate::store::LectureStore;
use vstd::prelude::*;

verus! {

/// What a load says of a degree that was never saved.
pub const NOTHING_CACHED: &'static str = "No cached lectures for degree ";

/// A data source that keeps what is saved, for as long as it lives.
pub struct InMemoryDataSource {
    lectures: LectureStore,
}

impl View for InMemoryDataSource {
    type V = Map<Seq<char>, Seq<LectureView>>;

    closed spec fn view(&self) -> Map<Seq<char>, Seq<LectureView>> {
        self.lectures@
    }
}

impl InMemoryDataSource {
    /// A source that holds nothing yet.
    pub fn new() -> (source: Self)
        ensures
            source@ == Map::<Seq<char>, Seq<LectureView>>::empty(),
    {
        InMemoryDataSource { lectures: LectureStore::new() }
    }

    /// The failure of a load for a degree that was never saved.
    pub open spec fn nothing_cached(degree: StaticDegree) -> SourceErrorView {
        SourceErrorView {
            kind: ErrorKind::Missing,
            degree_id: degree.id@,
            message: NOTHING_CACHED@ + degree.name@,
        }
    }
}

impl Default for InMemoryDataSource {
    fn default() -> (source: Self)
        ensures
            source@ == Map::<Seq<char>, Seq<LectureView>>::empty(),
    {
        InMemoryDataSource::new()
    }
}

impl ReadOnlyDataSource for InMemoryDataSource {
    open spec fn may_load(&self, degree_id: Seq<char>, lectures: Seq<LectureView>) -> bool {
        self@.contains_key(degree_id) && self@[degree_id] == lectures
    }

    open spec fn may_miss(&self, degree_id: Seq<char>) -> bool {
        !self@.contains_key(degree_id)
    }

    /// A copy of what was last saved for `degree`; a failure of the kind
    /// `Missing` where nothing was.
    fn load_lectures(&self, degree: &StaticDegree) -> (result: LoadResult)
        ensures
            result is Ok <==> self@.contains_key(degree.id@),
            result matches Err(error) ==> error@ == Self::nothing_cached(*degree),
    {
        match self.lectures.copy_of(degree.id) {
            Some(lectures) => Ok(lectures),
            None => Err(SourceError::new(ErrorKind::Missing, degree, NOTHING_CACHED, degree.name)),
        }
    }
}

impl ReadWriteDataSource for InMemoryDataSource {
    open spec fn may_keep(
        &self,
        degree_id: Seq<char>,
        lectures: Seq<LectureView>,
        after: &Self,
    ) -> bool {
        after@ == self@.insert(degree_id, lectures)
    }

    open spec fn may_refuse(
        &self,
        degree_id: Seq<char>,
        lectures: Seq<LectureView>,
        after: &Self,
    ) -> bool {
        false
    }

    /// Keeps a copy of `lectures` in place of what was saved for `degree`
    /// before. Never fails.
    fn save_lectures(&mut self, degree: &StaticDegree, lectures: &[Lecture]) -> (result:
        SaveResult)
        ensures
            result is Ok,
    {
        self.lectures.insert(degree.id, copy_of_lectures(lectures));
        Ok(())
    }
}

impl LectureDataSource for InMemoryDataSource {

}

/// What was saved is what the next load hands out: after a save of
/// `lectures` for a degree, a load for that degree cannot fail and can give
/// nothing but `lectures`; what the source has for other degrees is as
/// before.
pub proof fn lemma_save_then_load(
    before: InMemoryDataSource,
    after: InMemoryDataSource,
    degree_id: Seq<char>,
    lectures: Seq<LectureView>,
)
    requires
        before.may_keep(degree_id, lectures, &after),
    ensures
        after.may_load(degree_id, lectures),
        !after.may_miss(degree_id),
        forall|other: Seq<LectureView>| #[trigger]
            after.may_load(degree_id, other) ==> other == lectures,
        forall|other_id: Seq<char>, other: Seq<LectureView>|
            other_id != degree_id ==> (#[trigger] after.may_load(other_id, other)
                <==> before.may_load(other_id, other)),
{
}

/// A save replaces: what was saved for the degree before does not matter.
pub proof fn lemma_save_replaces(
    first: InMemoryDataSource,
    second: InMemoryDataSource,
    after_first: InMemoryDataSource,
    after_second: InMemoryDataSource,
    degree_id: Seq<char>,
    lectures: Seq<LectureView>,
)
    requires
        first.may_keep(degree_id, lectures, &after_first),
        second.may_keep(degree_id, lectures, &after_second),
        first@.remove(degree_id) == second@.remove(degree_id),
    ensures
        after_first@ == after_second@,
{
    assert(after_first@ =~= after_second@) by {
        assert forall|key: Seq<char>| after_first@.contains_key(key) <==> after_second@.contains_key(
            key,
        ) by {
            if key != degree_id {
                assert(first@.remove(degree_id).contains_key(key) == first@.contains_key(key));
                assert(second@.remove(degree_id).contains_key(key) == second@.contains_key(key));
            }
        }
        assert forall|key: Seq<char>| after_first@.contains_key(key) implies after_first@[key]
            == after_second@[key] by {
            if key != degree_id {
                assert(first@.remove(degree_id)[key] == first@[key]);
                assert(second@.remove(degree_id)[key] == second@[key]);
            }
        }
    }
}

/// Saving the same lectures twice leaves the source as saving them once.
pub proof fn lemma_save_twice(
    before: InMemoryDataSource,
    once: InMemoryDataSource,
    twice: InMemoryDataSource,
    degree_id: Seq<char>,
    lectures: Seq<LectureView>,
)
    requires
        before.may_keep(degree_id, lectures, &once),
        once.may_keep(degree_id, lectures, &twice),
    ensures
        twice@ == once@,
{
    assert(twice@ =~= once@);
}

/// A source in memory keeps what it saves, and its loads are decided by
/// what it holds.
pub proof fn lemma_memory_source_is_faithful()
    ensures
        crate::repository::keeps_what_it_saves::<InMemoryDataSource>(),
        forall|source: InMemoryDataSource, degree_id: Seq<char>| #[trigger]
            crate::repository::decided(source, degree_id),
{
}

} // verus!
