//! Lecture records filed by degree.

use crate::entities::copy_of_lectures;
use crate::entities::Lecture;
use crate::entities::LectureView;
use crate::text::same_text;
use vstd::prelude::*;

verus! {

/// The records of one degree.
pub struct Shelf {
    pub degree_id: String,
    pub lectures: Vec<Lecture>,
}

/// What a [`Shelf`] holds, as plain text.
pub struct ShelfView {
    pub degree_id: Seq<char>,
    pub lectures: Seq<LectureView>,
}

impl View for Shelf {
    type V = ShelfView;

    open spec fn view(&self) -> ShelfView {
        ShelfView { degree_id: self.degree_id@, lectures: self.lectures.deep_view() }
    }
}

impl DeepView for Shelf {
    type V = ShelfView;

    open spec fn deep_view(&self) -> ShelfView {
        self@
    }
}

/// Whether one of `shelves` belongs to the degree `degree_id`.
pub open spec fn has_shelf(shelves: Seq<ShelfView>, degree_id: Seq<char>) -> bool {
    exists|i: int| 0 <= i < shelves.len() && (#[trigger] shelves[i]).degree_id == degree_id
}

/// Index of a shelf that belongs to the degree `degree_id`.
pub open spec fn shelf_index(shelves: Seq<ShelfView>, degree_id: Seq<char>) -> int {
    choose|i: int| 0 <= i < shelves.len() && (#[trigger] shelves[i]).degree_id == degree_id
}

/// No two of `shelves` belong to the same degree.
pub open spec fn distinct_degrees(shelves: Seq<ShelfView>) -> bool {
    forall|i: int, j: int|
        0 <= i < j < shelves.len() ==> (#[trigger] shelves[i]).degree_id != (
        #[trigger] shelves[j]).degree_id
}

/// The mapping from degree id to records that `shelves` stands for.
pub open spec fn filed_by_degree(shelves: Seq<ShelfView>) -> Map<Seq<char>, Seq<LectureView>> {
    Map::new(
        |degree_id: Seq<char>| has_shelf(shelves, degree_id),
        |degree_id: Seq<char>| shelves[shelf_index(shelves, degree_id)].lectures,
    )
}

/// A mapping from degree id to lecture records.
pub struct LectureStore {
    shelves: Vec<Shelf>,
}

impl View for LectureStore {
    type V = Map<Seq<char>, Seq<LectureView>>;

    closed spec fn view(&self) -> Map<Seq<char>, Seq<LectureView>> {
        filed_by_degree(self.shelves.deep_view())
    }
}

impl LectureStore {
    /// Every degree has one shelf at most.
    #[verifier::type_invariant]
    pub closed spec fn well_formed(&self) -> bool {
        distinct_degrees(self.shelves.deep_view())
    }

    /// A store without records.
    pub fn new() -> (store: Self)
        ensures
            store@ == Map::<Seq<char>, Seq<LectureView>>::empty(),
    {
        let store = LectureStore { shelves: Vec::new() };
        assert(store@ =~= Map::<Seq<char>, Seq<LectureView>>::empty());
        store
    }

    fn position(&self, degree_id: &str) -> (found: Option<usize>)
        ensures
            match found {
                Some(i) => i < self.shelves.len() && self.shelves.deep_view()[i as int].degree_id
                    == degree_id@,
                None => !has_shelf(self.shelves.deep_view(), degree_id@),
            },
    {
        let mut i: usize = 0;
        while i < self.shelves.len()
            invariant
                i <= self.shelves.len(),
                forall|k: int|
                    0 <= k < i ==> (#[trigger] self.shelves.deep_view()[k]).degree_id
                        != degree_id@,
            decreases self.shelves.len() - i,
        {
            if same_text(self.shelves[i].degree_id.as_str(), degree_id) {
                return Some(i);
            }
            i = i + 1;
        }
        None
    }

    /// The records filed under `degree_id`.
    pub fn get(&self, degree_id: &str) -> (lectures: Option<&Vec<Lecture>>)
        ensures
            match lectures {
                Some(found) => self@.contains_key(degree_id@) && found.deep_view()
                    == self@[degree_id@],
                None => !self@.contains_key(degree_id@),
            },
    {
        proof {
            use_type_invariant(self);
        }
        match self.position(degree_id) {
            Some(i) => {
                proof {
                    let shelves = self.shelves.deep_view();
                    let k = shelf_index(shelves, degree_id@);
                    assert(shelves[k].degree_id == shelves[i as int].degree_id);
                }
                Some(&self.shelves[i].lectures)
            },
            None => None,
        }
    }

    /// Files `lectures` under `degree_id`, in place of what was filed there.
    pub fn insert(&mut self, degree_id: &str, lectures: Vec<Lecture>)
        ensures
            final(self)@ == old(self)@.insert(degree_id@, lectures.deep_view()),
    {
        proof {
            use_type_invariant(&*self);
        }
        let found = self.position(degree_id);
        let ghost before = self.shelves.deep_view();
        let mut shelves: Vec<Shelf> = Vec::new();
        std::mem::swap(&mut shelves, &mut self.shelves);
        let shelf = Shelf { degree_id: String::from_str(degree_id), lectures };
        match found {
            Some(i) => {
                shelves.set(i, shelf);
            },
            None => {
                shelves.push(shelf);
            },
        }
        proof {
            let after = shelves.deep_view();
            let at: int = match found {
                Some(i) => i as int,
                None => before.len() as int,
            };
            assert(after.len() == if found is Some {
                before.len()
            } else {
                before.len() + 1
            });
            assert(after[at] == shelf@);
            assert forall|k: int| 0 <= k < after.len() && k != at implies #[trigger] after[k]
                == before[k] by {}
            assert forall|k: int| 0 <= k < before.len() && k != at implies (
            #[trigger] before[k]).degree_id != degree_id@ by {
                if found is Some {
                    assert(before[at].degree_id == degree_id@);
                }
            }
            assert(distinct_degrees(after)) by {
                assert forall|i: int, j: int| 0 <= i < j < after.len() implies (
                #[trigger] after[i]).degree_id != (#[trigger] after[j]).degree_id by {
                    if i != at && j != at {
                        assert(after[i] == before[i]);
                        assert(after[j] == before[j]);
                    } else if i == at {
                        assert(after[j] == before[j]);
                    } else {
                        assert(after[i] == before[i]);
                    }
                }
            }
            let wanted = filed_by_degree(before).insert(degree_id@, lectures.deep_view());
            assert forall|key: Seq<char>| #[trigger]
                filed_by_degree(after).contains_key(key) == wanted.contains_key(key) by {
                if has_shelf(after, key) {
                    let k = shelf_index(after, key);
                    if k != at {
                        assert(before[k].degree_id == key);
                    }
                }
                if has_shelf(before, key) {
                    let k = shelf_index(before, key);
                    if k != at {
                        assert(after[k].degree_id == key);
                    } else {
                        assert(after[at].degree_id == key);
                    }
                }
                if key == degree_id@ {
                    assert(after[at].degree_id == key);
                }
            }
            assert forall|key: Seq<char>| wanted.contains_key(key) implies #[trigger]
                filed_by_degree(after)[key] == wanted[key] by {
                assert(filed_by_degree(after).contains_key(key) == wanted.contains_key(key));
                assert(has_shelf(after, key));
                let k = shelf_index(after, key);
                if key == degree_id@ {
                    if k != at {
                        assert(after[k] == before[k]);
                    }
                } else {
                    assert(k != at);
                    assert(after[k] == before[k]);
                    let h = shelf_index(before, key);
                    assert(before[h].degree_id == before[k].degree_id);
                }
            }
            assert(filed_by_degree(after) =~= wanted);
        }
        self.shelves = shelves;
    }

    /// A copy of the records filed under `degree_id`.
    pub fn copy_of(&self, degree_id: &str) -> (lectures: Option<Vec<Lecture>>)
        ensures
            match lectures {
                Some(found) => self@.contains_key(degree_id@) && found.deep_view()
                    == self@[degree_id@],
                None => !self@.contains_key(degree_id@),
            },
    {
        match self.get(degree_id) {
            Some(found) => Some(copy_of_lectures(found.as_slice())),
            None => None,
        }
    }
}

} // verus!
