//! The record store adapter: the single point of contact with the collection
//! of persisted records, exposing one typed operation per use case.
//!
//! Every write is a full-document replace; the adapter performs no validation
//! of field semantics and surfaces every store-reported outcome upward.

use crate::cube::{views_of, Cube, CubeView};
use crate::object_id::{encode_object_id, id_of, lemma_id_of_valid, valid_id};
use crate::text::str_eq;
use vstd::prelude::*;

verus! {

/// Acknowledgment of a successful insert: the identifier the store assigned.
#[derive(Debug, PartialEq)]
pub struct InsertAck {
    pub inserted_id: String,
}

/// Outcome of a replace operation: how many records matched the key.
#[derive(Debug, PartialEq)]
pub struct UpdateOutcome {
    pub matched_count: u64,
}

/// Outcome of a delete operation: how many records were removed.
#[derive(Debug, PartialEq)]
pub struct DeleteOutcome {
    pub deleted_count: u64,
}

/// A failure surfaced by the store.
#[derive(Debug, PartialEq)]
pub enum StoreFailure {
    /// No record matched a single-record lookup.
    NotFound,
    /// An insert collided with an identifier already present.
    DuplicateId,
}

/// A persisted record always carries a syntactically valid identifier.
pub open spec fn stored_cube_wf(c: CubeView) -> bool {
    c.id matches Some(s) && valid_id(s)
}

/// A request payload either carries no identifier or a valid one.
pub open spec fn cube_payload_wf(c: CubeView) -> bool {
    c.id matches Some(s) ==> valid_id(s)
}

/// Some record of `s` carries identifier `id`.
pub open spec fn has_id(s: Seq<CubeView>, id: Seq<char>) -> bool {
    exists|i: int| 0 <= i < s.len() && (#[trigger] s[i]).id == Some(id)
}

/// `i` is the position of the first record of `s` carrying identifier `id`.
pub open spec fn is_first_with_id(s: Seq<CubeView>, id: Seq<char>, i: int) -> bool {
    &&& 0 <= i < s.len()
    &&& s[i].id == Some(id)
    &&& forall|j: int| 0 <= j < i ==> (#[trigger] s[j]).id != Some(id)
}

/// Some record of `s` is named `name`.
pub open spec fn has_name(s: Seq<CubeView>, name: Seq<char>) -> bool {
    exists|i: int| 0 <= i < s.len() && (#[trigger] s[i]).name == name
}

/// `i` is the position of the first record of `s` named `name`.
pub open spec fn is_first_with_name(s: Seq<CubeView>, name: Seq<char>, i: int) -> bool {
    &&& 0 <= i < s.len()
    &&& s[i].name == name
    &&& forall|j: int| 0 <= j < i ==> (#[trigger] s[j]).name != name
}

/// All records of `s` classified under `category`, in store order.
pub open spec fn with_category(s: Seq<CubeView>, category: Seq<char>) -> Seq<CubeView> {
    s.filter(|c: CubeView| c.type_ == category)
}

/// A payload as persisted: its fields under the store-assigned identifier.
pub open spec fn stored(c: CubeView, id: Seq<char>) -> CubeView {
    CubeView { id: Some(id), ..c }
}

/// A full-document replace: every field is taken from `data`; the identifier
/// is taken from `data` when it carries one and kept from `prev` otherwise.
pub open spec fn replacement(prev: CubeView, data: CubeView) -> CubeView {
    CubeView { id: if data.id is Some { data.id } else { prev.id }, ..data }
}

/// The first position carrying a given identifier is unique.
pub proof fn lemma_first_with_id_unique(s: Seq<CubeView>, id: Seq<char>, i: int, j: int)
    requires
        is_first_with_id(s, id, i),
        is_first_with_id(s, id, j),
    ensures
        i == j,
{
    if i < j {
        assert(s[i].id != Some(id));
    }
    if j < i {
        assert(s[j].id != Some(id));
    }
}

/// The first position carrying a given name is unique.
pub proof fn lemma_first_with_name_unique(s: Seq<CubeView>, name: Seq<char>, i: int, j: int)
    requires
        is_first_with_name(s, name, i),
        is_first_with_name(s, name, j),
    ensures
        i == j,
{
    if i < j {
        assert(s[i].name != name);
    }
    if j < i {
        assert(s[j].name != name);
    }
}

/// The store: an ordered collection of records and the counter the next
/// identifier is assigned from.
pub struct CubeStore {
    records: Vec<Cube>,
    next_id: u64,
}

impl View for CubeStore {
    type V = Seq<CubeView>;

    closed spec fn view(&self) -> Seq<CubeView> {
        views_of(self.records@)
    }
}

impl CubeStore {
    /// The counter value the next assigned identifier is generated from.
    pub closed spec fn id_counter(&self) -> u64 {
        self.next_id
    }

    /// Every persisted record carries a valid identifier.
    pub open spec fn wf(&self) -> bool {
        forall|i: int| 0 <= i < self@.len() ==> stored_cube_wf(#[trigger] self@[i])
    }

    /// An empty store.
    pub fn new() -> (s: Self)
        ensures
            s@ == Seq::<CubeView>::empty(),
            s.wf(),
            s.id_counter() == 0,
    {
        let s = CubeStore { records: Vec::new(), next_id: 0 };
        proof {
            assert(s@ =~= Seq::<CubeView>::empty());
        }
        s
    }

    /// The position of the first record carrying identifier `id`, if any.
    #[verifier::loop_isolation(false)]
    fn first_index_with_id(&self, id: &str) -> (r: Option<usize>)
        ensures
            match r {
                Some(i) => is_first_with_id(self@, id@, i as int),
                None => !has_id(self@, id@),
            },
    {
        let n = self.records.len();
        let mut k: usize = 0;
        while k < n
            invariant
                k <= n,
                forall|j: int| 0 <= j < k ==> (#[trigger] self@[j]).id != Some(id@),
            decreases n - k,
        {
            let rec = &self.records[k];
            let hit = match &rec.id {
                Some(s) => str_eq(s.as_str(), id),
                None => false,
            };
            if hit {
                return Some(k);
            }
            k += 1;
        }
        None
    }

    /// The position of the first record named `name`, if any.
    #[verifier::loop_isolation(false)]
    fn first_index_with_name(&self, name: &str) -> (r: Option<usize>)
        ensures
            match r {
                Some(i) => is_first_with_name(self@, name@, i as int),
                None => !has_name(self@, name@),
            },
    {
        let n = self.records.len();
        let mut k: usize = 0;
        while k < n
            invariant
                k <= n,
                forall|j: int| 0 <= j < k ==> (#[trigger] self@[j]).name != name@,
            decreases n - k,
        {
            let rec = &self.records[k];
            if str_eq(rec.name.as_str(), name) {
                return Some(k);
            }
            k += 1;
        }
        None
    }

    /// Writes a new record.  The payload must carry no identifier; the store
    /// generates one from its counter.  The write fails exactly when a record
    /// already holds the identifier the counter would assign (a duplicate
    /// key); the store is then left unchanged.
    #[verifier::loop_isolation(false)]
    pub fn insert(&mut self, cube: &Cube) -> (r: Result<InsertAck, StoreFailure>)
        requires
            old(self).wf(),
            cube@.id is None,
            old(self).id_counter() < u64::MAX,
        ensures
            final(self).wf(),
            ({
                let fresh = id_of(old(self).id_counter());
                if has_id(old(self)@, fresh) {
                    &&& r == Err::<InsertAck, StoreFailure>(StoreFailure::DuplicateId)
                    &&& final(self)@ == old(self)@
                    &&& final(self).id_counter() == old(self).id_counter()
                } else {
                    &&& r is Ok
                    &&& r->Ok_0.inserted_id@ == fresh
                    &&& final(self)@ == old(self)@.push(stored(cube@, fresh))
                    &&& final(self).id_counter() == old(self).id_counter() + 1
                }
            }),
    {
        let fresh = encode_object_id(self.next_id);
        let n = self.records.len();
        let mut k: usize = 0;
        while k < n
            invariant
                k <= n,
                forall|j: int| 0 <= j < k ==> (#[trigger] self@[j]).id != Some(fresh@),
            decreases n - k,
        {
            let rec = &self.records[k];
            let hit = match &rec.id {
                Some(s) => str_eq(s.as_str(), fresh.as_str()),
                None => false,
            };
            if hit {
                proof {
                    assert(0 <= k < self@.len() && self@[k as int].id == Some(fresh@));
                }
                return Err(StoreFailure::DuplicateId);
            }
            k += 1;
        }
        let rec_new = Cube {
            id: Some(fresh.clone()),
            name: cube.name.clone(),
            type_: cube.type_.clone(),
            pieces: cube.pieces,
            faces: cube.faces,
            stickers: cube.stickers,
            year_created: cube.year_created,
            wr: cube.wr.clone(),
        };
        proof {
            assert(rec_new@ =~= stored(cube@, id_of(old(self).id_counter())));
        }
        self.records.push(rec_new);
        self.next_id = self.next_id + 1;
        proof {
            assert(self@ =~= old(self)@.push(stored(cube@, id_of(old(self).id_counter()))));
            lemma_id_of_valid(old(self).id_counter());
            assert forall|i: int| 0 <= i < self@.len() implies stored_cube_wf(
                #[trigger] self@[i],
            ) by {
                if i < old(self)@.len() {
                    assert(stored_cube_wf(old(self)@[i]));
                }
            }
        }
        Ok(InsertAck { inserted_id: fresh })
    }

    /// Returns the single record matching `id`, or signals "not found".
    pub fn find_by_id(&self, id: &str) -> (r: Result<Cube, StoreFailure>)
        requires
            valid_id(id@),
        ensures
            r is Ok <==> has_id(self@, id@),
            match r {
                Ok(c) => exists|i: int|
                    #[trigger] is_first_with_id(self@, id@, i) && c@ == self@[i],
                Err(e) => e == StoreFailure::NotFound,
            },
    {
        match self.first_index_with_id(id) {
            Some(i) => {
                let c = self.records[i].clone();
                proof {
                    assert(is_first_with_id(self@, id@, i as int) && c@ == self@[i as int]);
                }
                Ok(c)
            },
            None => Err(StoreFailure::NotFound),
        }
    }

    /// Returns the single record named `name`, or signals "not found".
    pub fn find_by_name(&self, name: &str) -> (r: Result<Cube, StoreFailure>)
        ensures
            r is Ok <==> has_name(self@, name@),
            match r {
                Ok(c) => exists|i: int|
                    #[trigger] is_first_with_name(self@, name@, i) && c@ == self@[i],
                Err(e) => e == StoreFailure::NotFound,
            },
    {
        match self.first_index_with_name(name) {
            Some(i) => {
                let c = self.records[i].clone();
                proof {
                    assert(is_first_with_name(self@, name@, i as int) && c@ == self@[i as int]);
                }
                Ok(c)
            },
            None => Err(StoreFailure::NotFound),
        }
    }

    /// Returns every record classified under `category`, possibly none,
    /// in store order.
    #[verifier::loop_isolation(false)]
    pub fn find_by_category(&self, category: &str) -> (r: Result<Vec<Cube>, StoreFailure>)
        ensures
            r is Ok,
            views_of(r->Ok_0@) == with_category(self@, category@),
    {
        let mut out: Vec<Cube> = Vec::new();
        let n = self.records.len();
        let mut k: usize = 0;
        proof {
            assert(views_of(out@) =~= with_category(self@.take(0), category@)) by {
                reveal_with_fuel(Seq::filter, 2);
                assert(self@.take(0) =~= Seq::<CubeView>::empty());
            }
        }
        while k < n
            invariant
                k <= n,
                views_of(out@) == with_category(self@.take(k as int), category@),
            decreases n - k,
        {
            let rec = &self.records[k];
            let ghost pre = out@;
            if str_eq(rec.type_.as_str(), category) {
                out.push(rec.clone());
            }
            proof {
                let pred = |c: CubeView| c.type_ == category@;
                assert(self@.take(k + 1) =~= self@.take(k as int) + seq![self@[k as int]]);
                Seq::filter_distributes_over_add(
                    self@.take(k as int),
                    seq![self@[k as int]],
                    pred,
                );
                assert(seq![self@[k as int]].filter(pred) =~= if pred(self@[k as int]) {
                    seq![self@[k as int]]
                } else {
                    Seq::<CubeView>::empty()
                }) by {
                    reveal_with_fuel(Seq::filter, 2);
                    assert(seq![self@[k as int]].drop_last() =~= Seq::<CubeView>::empty());
                }
                assert(views_of(out@) =~= with_category(self@.take(k + 1), category@));
            }
            k += 1;
        }
        proof {
            assert(self@.take(n as int) =~= self@);
        }
        Ok(out)
    }

    /// Returns the entire collection, in store order.
    #[verifier::loop_isolation(false)]
    pub fn find_all(&self) -> (r: Result<Vec<Cube>, StoreFailure>)
        ensures
            r is Ok,
            views_of(r->Ok_0@) == self@,
    {
        let mut out: Vec<Cube> = Vec::new();
        let n = self.records.len();
        let mut k: usize = 0;
        while k < n
            invariant
                k <= n,
                views_of(out@) == self@.take(k as int),
            decreases n - k,
        {
            out.push(self.records[k].clone());
            proof {
                assert(views_of(out@) =~= self@.take(k + 1));
            }
            k += 1;
        }
        proof {
            assert(self@.take(n as int) =~= self@);
        }
        Ok(out)
    }

    /// Replaces every field of the first record carrying identifier `id` with
    /// the fields of `cube`; the outcome reports how many records matched.
    pub fn replace_by_id(&mut self, id: &str, cube: &Cube) -> (r: Result<
        UpdateOutcome,
        StoreFailure,
    >)
        requires
            old(self).wf(),
            valid_id(id@),
            cube_payload_wf(cube@),
        ensures
            final(self).wf(),
            final(self).id_counter() == old(self).id_counter(),
            r is Ok,
            (if has_id(old(self)@, id@) {
                &&& r->Ok_0.matched_count == 1
                &&& exists|i: int|
                    #[trigger] is_first_with_id(old(self)@, id@, i) && final(self)@ == old(
                        self,
                    )@.update(i, replacement(old(self)@[i], cube@))
            } else {
                &&& r->Ok_0.matched_count == 0
                &&& final(self)@ == old(self)@
            }),
    {
        match self.first_index_with_id(id) {
            Some(i) => {
                self.replace_at(i, cube);
                Ok(UpdateOutcome { matched_count: 1 })
            },
            None => Ok(UpdateOutcome { matched_count: 0 }),
        }
    }

    /// Replaces every field of the first record named `name` with the fields
    /// of `cube`; the outcome reports how many records matched.
    pub fn replace_by_name(&mut self, name: &str, cube: &Cube) -> (r: Result<
        UpdateOutcome,
        StoreFailure,
    >)
        requires
            old(self).wf(),
            cube_payload_wf(cube@),
        ensures
            final(self).wf(),
            final(self).id_counter() == old(self).id_counter(),
            r is Ok,
            (if has_name(old(self)@, name@) {
                &&& r->Ok_0.matched_count == 1
                &&& exists|i: int|
                    #[trigger] is_first_with_name(old(self)@, name@, i) && final(self)@ == old(
                        self,
                    )@.update(i, replacement(old(self)@[i], cube@))
            } else {
                &&& r->Ok_0.matched_count == 0
                &&& final(self)@ == old(self)@
            }),
    {
        match self.first_index_with_name(name) {
            Some(i) => {
                self.replace_at(i, cube);
                Ok(UpdateOutcome { matched_count: 1 })
            },
            None => Ok(UpdateOutcome { matched_count: 0 }),
        }
    }

    /// Performs the full-document replace at position `i`.
    fn replace_at(&mut self, i: usize, cube: &Cube)
        requires
            old(self).wf(),
            i < old(self)@.len(),
            cube_payload_wf(cube@),
        ensures
            final(self).wf(),
            final(self).id_counter() == old(self).id_counter(),
            final(self)@ == old(self)@.update(i as int, replacement(old(self)@[i as int], cube@)),
    {
        let new_id = match &cube.id {
            Some(s) => Some(s.clone()),
            None => match &self.records[i].id {
                Some(t) => Some(t.clone()),
                None => None,
            },
        };
        let rec_new = Cube {
            id: new_id,
            name: cube.name.clone(),
            type_: cube.type_.clone(),
            pieces: cube.pieces,
            faces: cube.faces,
            stickers: cube.stickers,
            year_created: cube.year_created,
            wr: cube.wr.clone(),
        };
        proof {
            assert(rec_new@ =~= replacement(old(self)@[i as int], cube@));
        }
        self.records[i] = rec_new;
        proof {
            assert(self@ =~= old(self)@.update(
                i as int,
                replacement(old(self)@[i as int], cube@),
            ));
            assert(stored_cube_wf(old(self)@[i as int]));
            assert forall|j: int| 0 <= j < self@.len() implies stored_cube_wf(
                #[trigger] self@[j],
            ) by {
                if j != i {
                    assert(stored_cube_wf(old(self)@[j]));
                }
            }
        }
    }

    /// Removes the first record carrying identifier `id`; the outcome reports
    /// how many records were removed.
    pub fn delete_by_id(&mut self, id: &str) -> (r: Result<DeleteOutcome, StoreFailure>)
        requires
            old(self).wf(),
            valid_id(id@),
        ensures
            final(self).wf(),
            final(self).id_counter() == old(self).id_counter(),
            r is Ok,
            (if has_id(old(self)@, id@) {
                &&& r->Ok_0.deleted_count == 1
                &&& exists|i: int|
                    #[trigger] is_first_with_id(old(self)@, id@, i) && final(self)@ == old(
                        self,
                    )@.remove(i)
            } else {
                &&& r->Ok_0.deleted_count == 0
                &&& final(self)@ == old(self)@
            }),
    {
        match self.first_index_with_id(id) {
            Some(i) => {
                self.records.remove(i);
                proof {
                    assert(self@ =~= old(self)@.remove(i as int));
                    assert forall|j: int| 0 <= j < self@.len() implies stored_cube_wf(
                        #[trigger] self@[j],
                    ) by {
                        if j < i {
                            assert(stored_cube_wf(old(self)@[j]));
                        } else {
                            assert(stored_cube_wf(old(self)@[j + 1]));
                        }
                    }
                }
                Ok(DeleteOutcome { deleted_count: 1 })
            },
            None => Ok(DeleteOutcome { deleted_count: 0 }),
        }
    }
}

} // verus!
