//! A client: a repository, and the lectures that it last gave for each
//! degree.

use crate::datasource::ReadOnlyDataSource;
use crate::datasource::ReadWriteDataSource;
use crate::datasource::SourceError;
use crate::entities::Degrees;
use crate::entities::Lecture;
use crate::entities::LectureView;
use crate::entities::StaticDegree;
use crate::repository::LectureRepository;
use crate::store::LectureStore;
use vstd::prelude::*;

verus! {

/// Whether `lecture` is filed under one of `modules`.
pub open spec fn in_any_module(lecture: LectureView, modules: Seq<Seq<char>>) -> bool {
    lecture.categories matches Some(categories) && exists|k: int|
        0 <= k < modules.len() && crate::entities::has_module(categories, #[trigger] modules[k])
}

/// The lectures among `lectures` that are filed under one of `modules`, in
/// their order.
pub open spec fn filed_under(lectures: Seq<LectureView>, modules: Seq<Seq<char>>) -> Seq<
    LectureView,
>
    decreases lectures.len(),
{
    if lectures.len() == 0 {
        Seq::empty()
    } else if in_any_module(lectures.last(), modules) {
        filed_under(lectures.drop_last(), modules).push(lectures.last())
    } else {
        filed_under(lectures.drop_last(), modules)
    }
}

/// Whether `lecture` is filed under one of `modules`.
pub fn is_in_any_module(lecture: &Lecture, modules: &Vec<&str>) -> (found: bool)
    ensures
        found == in_any_module(lecture@, modules.deep_view()),
{
    match &lecture.categories {
        None => false,
        Some(categories) => {
            let mut k: usize = 0;
            while k < modules.len()
                invariant
                    k <= modules.len(),
                    lecture@.categories == Some(categories@),
                    forall|j: int|
                        0 <= j < k ==> !crate::entities::has_module(
                            categories@,
                            #[trigger] modules.deep_view()[j],
                        ),
                decreases modules.len() - k,
            {
                assert(modules.deep_view()[k as int] == modules[k as int]@);
                if categories.contains_key(modules[k]) {
                    return true;
                }
                k = k + 1;
            }
            false
        },
    }
}

/// Whether none of the first `i` degrees of `degrees` has the id `id`.
#[verifier::opaque]
pub open spec fn before_place(degrees: Seq<StaticDegree>, id: Seq<char>, i: int) -> bool {
    forall|k: int| 0 <= k < i && k < degrees.len() ==> (#[trigger] degrees[k]).id@ != id
}

/// An id that none of the first `i + 1` degrees has is the id of none of the
/// first `i`, and not of the degree at place `i`.
proof fn lemma_place_before(degrees: Seq<StaticDegree>, id: Seq<char>, i: int)
    requires
        0 <= i < degrees.len(),
        before_place(degrees, id, i + 1),
    ensures
        before_place(degrees, id, i),
        degrees[i].id@ != id,
{
    reveal(before_place);
}

/// An id outside the catalogue is the id of none of its degrees.
proof fn lemma_place_outside(id: Seq<char>, i: int)
    requires
        !crate::entities::in_catalog(id),
    ensures
        before_place(Degrees::catalog(), id, i),
{
    reveal(before_place);
    reveal(crate::entities::in_catalog);
}

/// A degree of the catalogue has the id of none before it.
proof fn lemma_place_later(k: int, i: int)
    requires
        0 <= i <= k < Degrees::catalog().len(),
    ensures
        before_place(Degrees::catalog(), Degrees::catalog()[k].id@, i),
{
    reveal(before_place);
    crate::entities::lemma_catalog_ids_differ();
}

/// A repository with the lectures that it last gave for each degree.
pub struct LectureClient<W: ReadWriteDataSource, R: ReadOnlyDataSource> {
    repository: LectureRepository<W, R>,
    lectures: LectureStore,
}

impl<W: ReadWriteDataSource, R: ReadOnlyDataSource> LectureClient<W, R> {
    /// The repository of the client.
    pub closed spec fn sources(&self) -> LectureRepository<W, R> {
        self.repository
    }

    /// The lectures that were loaded, by degree id.
    pub closed spec fn loaded(&self) -> Map<Seq<char>, Seq<LectureView>> {
        self.lectures@
    }

    /// The lectures that the client has for the degree `degree_id`: those
    /// that were loaded last, none before the first load.
    pub open spec fn known(&self, degree_id: Seq<char>) -> Seq<LectureView> {
        if self.loaded().contains_key(degree_id) {
            self.loaded()[degree_id]
        } else {
            Seq::empty()
        }
    }

    /// A client of `repository`, with nothing loaded yet.
    pub fn new(repository: LectureRepository<W, R>) -> (client: Self)
        ensures
            client.sources() == repository,
            client.loaded() == Map::<Seq<char>, Seq<LectureView>>::empty(),
    {
        LectureClient { repository, lectures: LectureStore::new() }
    }

    /// The repository of the client.
    pub fn repository(&self) -> (repository: &LectureRepository<W, R>)
        ensures
            *repository == self.sources(),
    {
        &self.repository
    }

    /// Loads the lectures of `degree` through the repository and keeps them.
    /// A load that fails changes nothing.
    pub fn load_lectures(&mut self, degree: &StaticDegree) -> (result: Result<
        Vec<Lecture>,
        SourceError,
    >)
        ensures
            match result {
                Ok(lectures) => {
                    &&& final(self).loaded() == old(self).loaded().insert(
                        degree.id@,
                        lectures.deep_view(),
                    )
                    &&& (exists|k: int| #[trigger]
                        old(self).sources().first_answer_at(k, degree.id@, lectures.deep_view()))
                    &&& old(self).sources().written_through(
                        &final(self).sources(),
                        degree.id@,
                        lectures.deep_view(),
                    )
                },
                Err(error) => {
                    &&& old(self).sources().all_may_miss(degree.id@)
                    &&& error@ == LectureRepository::<W, R>::no_source(*degree)
                    &&& final(self).loaded() == old(self).loaded()
                    &&& final(self).sources().writable() == old(self).sources().writable()
                    &&& final(self).sources().read_only() == old(self).sources().read_only()
                    &&& final(self).sources().failures() == old(self).sources().failures()
                },
            },
    {
        match self.repository.synchronized_load(degree) {
            Ok(lectures) => {
                self.lectures.insert(degree.id, crate::entities::copy_of_lectures(lectures.as_slice()));
                Ok(lectures)
            },
            Err(error) => Err(error),
        }
    }

    /// Whether `after` holds what this client holds and has the sources of
    /// this client, as they are.
    pub open spec fn same_as(&self, after: &Self) -> bool {
        &&& after.loaded() == self.loaded()
        &&& after.sources().writable() == self.sources().writable()
        &&& after.sources().read_only() == self.sources().read_only()
        &&& after.sources().failures() == self.sources().failures()
    }

    /// Whether `after` is this client after a load for the degree
    /// `degree_id` that gave `lectures`: they were the first answer of the
    /// sources, they were saved to every writable source, and the client
    /// keeps them as the lectures of the degree.
    pub open spec fn kept(
        &self,
        after: &Self,
        degree_id: Seq<char>,
        lectures: Seq<LectureView>,
    ) -> bool {
        &&& after.loaded() == self.loaded().insert(degree_id, lectures)
        &&& (exists|k: int| #[trigger] self.sources().first_answer_at(k, degree_id, lectures))
        &&& self.sources().written_through(&after.sources(), degree_id, lectures)
    }

    /// Whether `after` is this client after a load for the degree
    /// `degree_id` that had an answer.
    pub open spec fn loaded_next(&self, after: &Self, degree_id: Seq<char>) -> bool {
        exists|lectures: Seq<LectureView>| #[trigger] self.kept(after, degree_id, lectures)
    }

    /// Whether the client at place `k + 1` of `states` is the one at place
    /// `k` after a load for the degree at place `k` of the catalogue that had
    /// an answer.
    pub open spec fn stepped(states: Seq<Self>, k: int) -> bool {
        states[k].loaded_next(&states[k + 1], Degrees::catalog()[k].id@)
    }

    /// Whether `states` are the clients that this client becomes while the
    /// degrees at the first `count` places of the catalogue are loaded one
    /// after the other, each with an answer: this client first, and then the
    /// client after each load.
    pub open spec fn loaded_in_turn(&self, states: Seq<Self>, count: int) -> bool {
        &&& 0 <= count <= Degrees::catalog().len()
        &&& states.len() == count + 1
        &&& states[0] == *self
        &&& forall|k: int| 0 <= k < count ==> #[trigger] Self::stepped(states, k)
    }

    /// Whether `after` is this client after [`Self::init`], which loaded the
    /// degrees at the first `count` places of the catalogue, through the
    /// clients `states`: every degree of the catalogue was loaded, or the
    /// sources, as the loads before left them, had no answer for the degree
    /// at place `count`, and with that load the run ended.
    pub open spec fn initialized_through(
        &self,
        after: &Self,
        states: Seq<Self>,
        count: int,
    ) -> bool {
        &&& self.loaded_in_turn(states, count)
        &&& states[count].same_as(after)
        &&& count < Degrees::catalog().len() ==> after.sources().all_may_miss(
            Degrees::catalog()[count].id@,
        )
    }

    /// Whether this is the client after a run of [`Self::init`] from
    /// `before` that stopped at place `i` of the catalogue with `error`: the
    /// load of the degree at that place had no answer, the degrees before it
    /// are loaded, and those from it on are as they were.
    pub open spec fn stopped_at(
        &self,
        before: &Self,
        error: crate::datasource::SourceErrorView,
        i: int,
    ) -> bool {
        &&& 0 <= i < Degrees::catalog().len()
        &&& error == LectureRepository::<W, R>::no_source(Degrees::catalog()[i])
        &&& forall|k: int|
            0 <= k < i ==> self.loaded().contains_key((#[trigger] Degrees::catalog()[k]).id@)
        &&& forall|k: int|
            i <= k < Degrees::catalog().len() ==> self.known(
                (#[trigger] Degrees::catalog()[k]).id@,
            ) == before.known(Degrees::catalog()[k].id@)
    }

    /// Loads the lectures of `degree` and keeps them; says no more of the
    /// load than [`Self::init`] needs.
    fn load_one(&mut self, degree: &StaticDegree) -> (result: Result<(), SourceError>)
        ensures
            final(self).sources().read_only() == old(self).sources().read_only(),
            final(self).sources().writable().len() == old(self).sources().writable().len(),
            match result {
                Ok(_) => {
                    &&& old(self).loaded_next(final(self), degree.id@)
                    &&& final(self).loaded().contains_key(degree.id@)
                    &&& forall|id: Seq<char>|
                        id != degree.id@ ==> {
                            &&& #[trigger] final(self).loaded().contains_key(id) == old(
                                self,
                            ).loaded().contains_key(id)
                            &&& final(self).known(id) == old(self).known(id)
                        }
                },
                Err(error) => {
                    &&& error@ == LectureRepository::<W, R>::no_source(*degree)
                    &&& final(self).loaded() == old(self).loaded()
                    &&& old(self).same_as(final(self))
                    &&& final(self).sources().all_may_miss(degree.id@)
                },
            },
    {
        match self.load_lectures(degree) {
            Ok(lectures) => {
                assert(old(self).kept(self, degree.id@, lectures.deep_view()));
                Ok(())
            },
            Err(error) => {
                proof {
                    assert forall|j: int| 0 <= j < self.sources().source_count() implies #[trigger]
                        self.sources().may_miss_at(j, degree.id@) by {
                        assert(old(self).sources().may_miss_at(j, degree.id@));
                    }
                }
                Err(error)
            },
        }
    }

    /// Loads the lectures of every degree of the catalogue, in the order of
    /// the catalogue, and stops at the first load that fails: the degrees
    /// before it are loaded, the others are as they were. What the client has
    /// for a degree outside the catalogue is as before.
    pub fn init(&mut self) -> (result: Result<(), SourceError>)
        ensures
            final(self).sources().read_only() == old(self).sources().read_only(),
            final(self).sources().writable().len() == old(self).sources().writable().len(),
            forall|id: Seq<char>| old(self).loaded().contains_key(id) ==> #[trigger]
                final(self).loaded().contains_key(id),
            forall|id: Seq<char>|
                !crate::entities::in_catalog(id) ==> #[trigger] final(self).known(id) == old(
                    self,
                ).known(id),
            match result {
                Ok(_) => forall|i: int|
                    0 <= i < Degrees::catalog().len() ==> final(self).loaded().contains_key(
                        (#[trigger] Degrees::catalog()[i]).id@,
                    ),
                Err(error) => exists|i: int| #[trigger]
                    final(self).stopped_at(old(self), error@, i),
            },
            exists|states: Seq<Self>, count: int| #[trigger]
                old(self).initialized_through(final(self), states, count) && (result is Ok
                    <==> count == Degrees::catalog().len()),
    {
        let degrees = Degrees::all();
        let ghost catalog = Degrees::catalog();
        let ghost mut states: Seq<Self> = seq![*self];
        let mut i: usize = 0;
        while i < degrees.len()
            invariant
                i <= degrees.len(),
                old(self).loaded_in_turn(states, i as int),
                states[i as int] == *self,
                degrees@ == catalog,
                catalog == Degrees::catalog(),
                self.sources().read_only() == old(self).sources().read_only(),
                self.sources().writable().len() == old(self).sources().writable().len(),
                forall|id: Seq<char>| old(self).loaded().contains_key(id) ==> #[trigger]
                    self.loaded().contains_key(id),
                forall|k: int| 0 <= k < i ==> self.loaded().contains_key((#[trigger] catalog[k]).id@),
                forall|id: Seq<char>| #[trigger]
                    before_place(catalog, id, i as int) ==> self.known(id) == old(self).known(id),
            decreases degrees.len() - i,
        {
            let ghost before = *self;
            match self.load_one(&degrees[i]) {
                Ok(_) => {
                    proof {
                        let longer = states.push(*self);
                        assert forall|k: int| 0 <= k < i + 1 implies #[trigger] Self::stepped(
                            longer,
                            k,
                        ) by {
                            if k < i {
                                assert(Self::stepped(states, k));
                                assert(longer[k] == states[k]);
                                assert(longer[k + 1] == states[k + 1]);
                            } else {
                                assert(longer[k] == before);
                                assert(longer[k + 1] == *self);
                            }
                        }
                        states = longer;
                        assert forall|id: Seq<char>| #[trigger]
                            before_place(catalog, id, i + 1) implies self.known(id) == old(
                            self,
                        ).known(id) by {
                            lemma_place_before(catalog, id, i as int);
                            assert(self.known(id) == before.known(id));
                        }
                    }
                },
                Err(error) => {
                    proof {
                        assert(error@ == LectureRepository::<W, R>::no_source(catalog[i as int]));
                        assert forall|id: Seq<char>| #[trigger]
                            self.known(id) == before.known(id) by {}
                        assert forall|id: Seq<char>|
                            !crate::entities::in_catalog(id) implies #[trigger] self.known(id)
                            == old(self).known(id) by {
                            lemma_place_outside(id, i as int);
                        }
                        assert forall|k: int| i <= k < catalog.len() implies self.known(
                            (#[trigger] catalog[k]).id@,
                        ) == old(self).known(catalog[k].id@) by {
                            lemma_place_later(k, i as int);
                        }
                        assert(self.stopped_at(old(self), error@, i as int));
                        assert(old(self).initialized_through(self, states, i as int));
                    }
                    return Err(error);
                },
            }
            i = i + 1;
        }
        proof {
            assert forall|id: Seq<char>| !crate::entities::in_catalog(id) implies #[trigger]
                self.known(id) == old(self).known(id) by {
                lemma_place_outside(id, i as int);
            }
            assert(old(self).initialized_through(self, states, i as int));
        }
        Ok(())
    }

    /// The client after [`Self::init`], whether or not every load succeeded:
    /// the degrees of the catalogue were loaded in their order, each with
    /// the first answer of the sources, which was saved to every writable
    /// source, up to the first degree for which the sources had no answer.
    pub fn initialized(self) -> (client: Self)
        ensures
            exists|states: Seq<Self>, count: int| #[trigger]
                self.initialized_through(&client, states, count),
            client.sources().read_only() == self.sources().read_only(),
            client.sources().writable().len() == self.sources().writable().len(),
            forall|id: Seq<char>| self.loaded().contains_key(id) ==> #[trigger]
                client.loaded().contains_key(id),
            forall|id: Seq<char>|
                !crate::entities::in_catalog(id) ==> #[trigger] client.known(id) == self.known(id),
    {
        let mut client = self;
        let result = client.init();
        proof {
            let (states, count) = choose|states: Seq<Self>, count: int| #[trigger]
                self.initialized_through(&client, states, count) && (result is Ok <==> count
                    == Degrees::catalog().len());
            assert(self.initialized_through(&client, states, count));
        }
        client
    }

    /// The lectures of `degree` that were loaded last; none before the first
    /// load.
    pub fn lectures(&self, degree: &StaticDegree) -> (lectures: &[Lecture])
        ensures
            lectures.deep_view() == self.known(degree.id@),
    {
        match self.lectures.get(degree.id) {
            Some(lectures) => lectures.as_slice(),
            None => {
                let lectures: &[Lecture] = &[];
                assert(lectures.deep_view() =~= Seq::<LectureView>::empty());
                lectures
            },
        }
    }

    /// The lectures of `degree` that are filed under one of `modules`, in
    /// their order. Of a degree that was not loaded there are none.
    pub fn filter_lectures(&self, modules: Vec<&str>, degree: &StaticDegree) -> (found: Vec<
        &Lecture,
    >)
        ensures
            found.deep_view() == filed_under(self.known(degree.id@), modules.deep_view()),
    {
        let mut found: Vec<&Lecture> = Vec::new();
        assert(found.deep_view() =~= Seq::<LectureView>::empty());
        match self.lectures.get(degree.id) {
            None => found,
            Some(lectures) => {
                let ghost all = lectures.deep_view();
                let mut i: usize = 0;
                assert(all.take(0) =~= Seq::<LectureView>::empty());
                while i < lectures.len()
                    invariant
                        i <= lectures.len(),
                        all == lectures.deep_view(),
                        found.deep_view() == filed_under(all.take(i as int), modules.deep_view()),
                    decreases lectures.len() - i,
                {
                    proof {
                        let next = all.take(i + 1);
                        assert(next.drop_last() =~= all.take(i as int));
                        assert(next.last() == lectures[i as int]@);
                    }
                    if is_in_any_module(&lectures[i], &modules) {
                        let ghost before = found.deep_view();
                        found.push(&lectures[i]);
                        assert(found.deep_view() =~= before.push(lectures[i as int]@));
                    }
                    i = i + 1;
                }
                assert(all.take(i as int) =~= all);
                found
            },
        }
    }
}

} // verus!
