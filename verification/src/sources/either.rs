//! One of two kinds of source in one place, so that a repository can hold
//! sources of different kinds in one list.

use crate::datasource::LoadResult;
use crate::datasource::ReadOnlyDataSource;
use crate::datasource::ReadWriteDataSource;
use crate::datasource::SaveResult;
use crate::entities::Lecture;
use crate::entities::LectureView;
use crate::entities::StaticDegree;
use vstd::prelude::*;

verus! {

/// A source of the kind `A` or of the kind `B`. It loads and saves as the
/// source that it holds does.
pub enum Either<A, B> {
    Left(A),
    Right(B),
}

impl<A: ReadOnlyDataSource, B: ReadOnlyDataSource> ReadOnlyDataSource for Either<A, B> {
    open spec fn may_load(&self, degree_id: Seq<char>, lectures: Seq<LectureView>) -> bool {
        match self {
            Either::Left(source) => source.may_load(degree_id, lectures),
            Either::Right(source) => source.may_load(degree_id, lectures),
        }
    }

    open spec fn may_miss(&self, degree_id: Seq<char>) -> bool {
        match self {
            Either::Left(source) => source.may_miss(degree_id),
            Either::Right(source) => source.may_miss(degree_id),
        }
    }

    fn load_lectures(&self, degree: &StaticDegree) -> (result: LoadResult) {
        match self {
            Either::Left(source) => source.load_lectures(degree),
            Either::Right(source) => source.load_lectures(degree),
        }
    }
}

impl<A: ReadWriteDataSource, B: ReadWriteDataSource> ReadWriteDataSource for Either<A, B> {
    open spec fn may_keep(
        &self,
        degree_id: Seq<char>,
        lectures: Seq<LectureView>,
        after: &Self,
    ) -> bool {
        match (self, after) {
            (Either::Left(source), Either::Left(then)) => source.may_keep(
                degree_id,
                lectures,
                then,
            ),
            (Either::Right(source), Either::Right(then)) => source.may_keep(
                degree_id,
                lectures,
                then,
            ),
            _ => false,
        }
    }

    open spec fn may_refuse(
        &self,
        degree_id: Seq<char>,
        lectures: Seq<LectureView>,
        after: &Self,
    ) -> bool {
        match (self, after) {
            (Either::Left(source), Either::Left(then)) => source.may_refuse(
                degree_id,
                lectures,
                then,
            ),
            (Either::Right(source), Either::Right(then)) => source.may_refuse(
                degree_id,
                lectures,
                then,
            ),
            _ => false,
        }
    }

    fn save_lectures(&mut self, degree: &StaticDegree, lectures: &[Lecture]) -> (result:
        SaveResult) {
        match self {
            Either::Left(source) => source.save_lectures(degree, lectures),
            Either::Right(source) => source.save_lectures(degree, lectures),
        }
    }
}

/// Two kinds of source that keep what they save make a kind that does.
pub proof fn lemma_either_keeps_what_it_saves<A: ReadWriteDataSource, B: ReadWriteDataSource>()
    requires
        crate::repository::keeps_what_it_saves::<A>(),
        crate::repository::keeps_what_it_saves::<B>(),
    ensures
        crate::repository::keeps_what_it_saves::<Either<A, B>>(),
{
    assert forall|
        before: Either<A, B>,
        after: Either<A, B>,
        degree_id: Seq<char>,
        lectures: Seq<LectureView>,
    | #[trigger] before.may_keep(degree_id, lectures, &after) implies {
        &&& !after.may_miss(degree_id)
        &&& forall|other: Seq<LectureView>| #[trigger]
            after.may_load(degree_id, other) ==> other == lectures
    } by {
        match (before, after) {
            (Either::Left(source), Either::Left(then)) => {
                assert(source.may_keep(degree_id, lectures, &then));
            },
            (Either::Right(source), Either::Right(then)) => {
                assert(source.may_keep(degree_id, lectures, &then));
            },
            _ => {},
        }
    }
}

} // verus!
