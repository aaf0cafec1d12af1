//! The request handlers: one per use case.
//!
//! Each handler follows the same linear pipeline: gate primitive inputs
//! (an empty required parameter or a malformed identifier is an invalid
//! request, detected before any store operation), invoke the adapter, and
//! shape the adapter's outcome into a response outcome.

use crate::cube::{views_of, Cube, CubeView};
use crate::object_id::{id_of, is_valid_object_id, lemma_id_of_valid, valid_id};
use crate::store::{
    cube_payload_wf, has_id, has_name, is_first_with_id, is_first_with_name,
    lemma_first_with_id_unique, replacement, stored, with_category, CubeStore, InsertAck,
};
use vstd::prelude::*;
use vstd::string::StringExecFns;

verus! {

/// The handler's classification of a failed request.
#[derive(Debug, PartialEq)]
pub enum HandlerError {
    /// A required parameter was empty, or an identifier was malformed;
    /// detected before any store operation.
    InvalidRequest,
    /// An update matched no record.
    NotFound,
    /// Any store-reported failure, and the no-match case of reads and
    /// deletes.
    OperationFailed,
}

/// A payload with the identifier taken from the request parameter.
pub open spec fn updated_by_id(c: CubeView, id: Seq<char>) -> CubeView {
    CubeView { id: Some(id), ..c }
}

/// Creates a record from the payload.  The payload's own identifier is
/// discarded: the store assigns a fresh one, which the acknowledgment
/// carries back.  The one failure is the store's duplicate-key report.
pub fn insert_cube(store: &mut CubeStore, new_cube: &Cube) -> (r: Result<InsertAck, HandlerError>)
    requires
        old(store).wf(),
        old(store).id_counter() < u64::MAX,
    ensures
        final(store).wf(),
        ({
            let fresh = id_of(old(store).id_counter());
            if has_id(old(store)@, fresh) {
                &&& r == Err::<InsertAck, HandlerError>(HandlerError::OperationFailed)
                &&& final(store)@ == old(store)@
                &&& final(store).id_counter() == old(store).id_counter()
            } else {
                &&& r is Ok
                &&& r->Ok_0.inserted_id@ == fresh
                &&& valid_id(fresh)
                &&& final(store)@ == old(store)@.push(stored(new_cube@, fresh))
                &&& final(store).id_counter() == old(store).id_counter() + 1
            }
        }),
{
    let data = Cube {
        id: None,
        name: new_cube.name.clone(),
        type_: new_cube.type_.clone(),
        pieces: new_cube.pieces,
        faces: new_cube.faces,
        stickers: new_cube.stickers,
        year_created: new_cube.year_created,
        wr: new_cube.wr.clone(),
    };
    proof {
        lemma_id_of_valid(old(store).id_counter());
        assert(stored(data@, id_of(old(store).id_counter())) =~= stored(
            new_cube@,
            id_of(old(store).id_counter()),
        ));
    }
    match store.insert(&data) {
        Ok(ack) => Ok(ack),
        Err(_) => Err(HandlerError::OperationFailed),
    }
}

/// Looks a record up by its identifier.  An empty or malformed identifier is
/// an invalid request; no match collapses into the generic failure outcome.
pub fn get_cube(store: &CubeStore, id: &str) -> (r: Result<Cube, HandlerError>)
    ensures
        !valid_id(id@) ==> r == Err::<Cube, HandlerError>(HandlerError::InvalidRequest),
        valid_id(id@) && !has_id(store@, id@) ==> r == Err::<Cube, HandlerError>(
            HandlerError::OperationFailed,
        ),
        valid_id(id@) && has_id(store@, id@) ==> r is Ok && (exists|i: int|
            #[trigger] is_first_with_id(store@, id@, i) && r->Ok_0@ == store@[i]),
{
    if id.is_empty() {
        return Err(HandlerError::InvalidRequest);
    }
    if !is_valid_object_id(id) {
        return Err(HandlerError::InvalidRequest);
    }
    match store.find_by_id(id) {
        Ok(c) => Ok(c),
        Err(_) => Err(HandlerError::OperationFailed),
    }
}

/// Looks a record up by its name.  An empty name is an invalid request; no
/// match collapses into the generic failure outcome.
pub fn get_cube_by_name(store: &CubeStore, name: &str) -> (r: Result<Cube, HandlerError>)
    ensures
        name@.len() == 0 ==> r == Err::<Cube, HandlerError>(HandlerError::InvalidRequest),
        name@.len() > 0 && !has_name(store@, name@) ==> r == Err::<Cube, HandlerError>(
            HandlerError::OperationFailed,
        ),
        name@.len() > 0 && has_name(store@, name@) ==> r is Ok && (exists|i: int|
            #[trigger] is_first_with_name(store@, name@, i) && r->Ok_0@ == store@[i]),
{
    if name.is_empty() {
        return Err(HandlerError::InvalidRequest);
    }
    match store.find_by_name(name) {
        Ok(c) => Ok(c),
        Err(_) => Err(HandlerError::OperationFailed),
    }
}

/// Returns every record of a given category, in store order.  An empty
/// category is an invalid request; zero matches is a valid, empty result.
pub fn get_cube_by_type(store: &CubeStore, type_: &str) -> (r: Result<Vec<Cube>, HandlerError>)
    ensures
        type_@.len() == 0 ==> r == Err::<Vec<Cube>, HandlerError>(HandlerError::InvalidRequest),
        type_@.len() > 0 ==> r is Ok && views_of(r->Ok_0@) == with_category(store@, type_@),
{
    if type_.is_empty() {
        return Err(HandlerError::InvalidRequest);
    }
    match store.find_by_category(type_) {
        Ok(cubes) => Ok(cubes),
        Err(_) => Err(HandlerError::OperationFailed),
    }
}

/// Returns the entire collection, in store order.
pub fn get_all_cubes(store: &CubeStore) -> (r: Result<Vec<Cube>, HandlerError>)
    ensures
        r is Ok,
        views_of(r->Ok_0@) == store@,
{
    match store.find_all() {
        Ok(cubes) => Ok(cubes),
        Err(_) => Err(HandlerError::OperationFailed),
    }
}

/// Replaces the record identified by the request parameter with the payload,
/// re-deriving the stored identifier from the parameter, and returns the
/// freshly fetched record.  An empty or malformed identifier is an invalid
/// request; zero matches is "not found".
pub fn update_cube(store: &mut CubeStore, id: &str, new_cube: &Cube) -> (r: Result<
    Cube,
    HandlerError,
>)
    requires
        old(store).wf(),
    ensures
        final(store).wf(),
        final(store).id_counter() == old(store).id_counter(),
        !valid_id(id@) ==> r == Err::<Cube, HandlerError>(HandlerError::InvalidRequest) && final(store)@ == old(store)@,
        valid_id(id@) && !has_id(old(store)@, id@) ==> r == Err::<Cube, HandlerError>(
            HandlerError::NotFound,
        ) && final(store)@ == old(store)@,
        valid_id(id@) && has_id(old(store)@, id@) ==> {
            &&& r is Ok
            &&& r->Ok_0@ == updated_by_id(new_cube@, id@)
            &&& exists|i: int|
                #[trigger] is_first_with_id(old(store)@, id@, i) && final(store)@ == old(store)@.update(i, updated_by_id(new_cube@, id@))
        },
{
    if id.is_empty() {
        return Err(HandlerError::InvalidRequest);
    }
    if !is_valid_object_id(id) {
        return Err(HandlerError::InvalidRequest);
    }
    let data = Cube {
        id: Some(String::from_str(id)),
        name: new_cube.name.clone(),
        type_: new_cube.type_.clone(),
        pieces: new_cube.pieces,
        faces: new_cube.faces,
        stickers: new_cube.stickers,
        year_created: new_cube.year_created,
        wr: new_cube.wr.clone(),
    };
    proof {
        assert(data@ =~= updated_by_id(new_cube@, id@));
    }
    let update = store.replace_by_id(id, &data).unwrap();
    if update.matched_count == 1 {
        proof {
            let i = choose|i: int|
                #[trigger] is_first_with_id(old(store)@, id@, i) && store@ == old(store)@.update(
                    i,
                    replacement(old(store)@[i], data@),
                );
            assert(replacement(old(store)@[i], data@) =~= updated_by_id(new_cube@, id@));
            assert(store@[i].id == Some(id@));
            assert forall|j: int| 0 <= j < i implies (#[trigger] store@[j]).id != Some(id@) by {
                assert(store@[j] == old(store)@[j]);
                assert(old(store)@[j].id != Some(id@));
            }
            assert(is_first_with_id(store@, id@, i));
        }
        match store.find_by_id(id) {
            Ok(c) => {
                proof {
                    let i = choose|i: int|
                        #[trigger] is_first_with_id(old(store)@, id@, i) && store@ == old(store)@.update(i, replacement(old(store)@[i], data@));
                    assert(is_first_with_id(store@, id@, i));
                    let j = choose|j: int|
                        #[trigger] is_first_with_id(store@, id@, j) && c@ == store@[j];
                    lemma_first_with_id_unique(store@, id@, i, j);
                    assert(c@ == updated_by_id(new_cube@, id@));
                }
                Ok(c)
            },
            Err(_) => Err(HandlerError::OperationFailed),
        }
    } else {
        Err(HandlerError::NotFound)
    }
}

/// Replaces the first record of a given name with the payload, keeping
/// whatever identifier the payload carries (and the stored one where it
/// carries none), then returns the record freshly fetched by that same name.
/// An empty name, or a malformed identifier in the payload, is an invalid
/// request; zero matches is "not found"; a re-fetch that no longer matches
/// collapses into the generic failure outcome.
pub fn update_cube_by_name(store: &mut CubeStore, name: &str, new_cube: &Cube) -> (r: Result<
    Cube,
    HandlerError,
>)
    requires
        old(store).wf(),
    ensures
        final(store).wf(),
        final(store).id_counter() == old(store).id_counter(),
        name@.len() == 0 ==> r == Err::<Cube, HandlerError>(HandlerError::InvalidRequest) && final(store)@ == old(store)@,
        name@.len() > 0 && !cube_payload_wf(new_cube@) ==> r == Err::<Cube, HandlerError>(
            HandlerError::InvalidRequest,
        ) && final(store)@ == old(store)@,
        name@.len() > 0 && cube_payload_wf(new_cube@) && !has_name(old(store)@, name@) ==> r
            == Err::<Cube, HandlerError>(HandlerError::NotFound) && final(store)@ == old(store)@,
        name@.len() > 0 && cube_payload_wf(new_cube@) && has_name(old(store)@, name@) ==> {
            &&& exists|i: int|
                #[trigger] is_first_with_name(old(store)@, name@, i) && final(store)@ == old(store)@.update(i, replacement(old(store)@[i], new_cube@))
            &&& has_name(final(store)@, name@) ==> r is Ok && (exists|j: int|
                #[trigger] is_first_with_name(final(store)@, name@, j) && r->Ok_0@ == final(store)@[j])
            &&& !has_name(final(store)@, name@) ==> r == Err::<Cube, HandlerError>(
                HandlerError::OperationFailed,
            )
        },
{
    if name.is_empty() {
        return Err(HandlerError::InvalidRequest);
    }
    let payload_ok = match &new_cube.id {
        Some(s) => is_valid_object_id(s.as_str()),
        None => true,
    };
    if !payload_ok {
        return Err(HandlerError::InvalidRequest);
    }
    let data = new_cube.clone();
    let update = store.replace_by_name(name, &data).unwrap();
    if update.matched_count == 1 {
        match store.find_by_name(name) {
            Ok(c) => Ok(c),
            Err(_) => Err(HandlerError::OperationFailed),
        }
    } else {
        Err(HandlerError::NotFound)
    }
}

/// Deletes the record identified by the request parameter.  An empty or
/// malformed identifier is an invalid request; anything but exactly one
/// deleted record collapses into the generic failure outcome.
pub fn delete_cube(store: &mut CubeStore, id: &str) -> (r: Result<&'static str, HandlerError>)
    requires
        old(store).wf(),
    ensures
        final(store).wf(),
        final(store).id_counter() == old(store).id_counter(),
        !valid_id(id@) ==> r == Err::<&'static str, HandlerError>(HandlerError::InvalidRequest)
            && final(store)@ == old(store)@,
        valid_id(id@) && !has_id(old(store)@, id@) ==> r == Err::<&'static str, HandlerError>(
            HandlerError::OperationFailed,
        ) && final(store)@ == old(store)@,
        valid_id(id@) && has_id(old(store)@, id@) ==> {
            &&& r is Ok
            &&& r->Ok_0@ == "Cube successfully deleted!"@
            &&& exists|i: int|
                #[trigger] is_first_with_id(old(store)@, id@, i) && final(store)@ == old(store)@.remove(i)
        },
{
    if id.is_empty() {
        return Err(HandlerError::InvalidRequest);
    }
    if !is_valid_object_id(id) {
        return Err(HandlerError::InvalidRequest);
    }
    let res = store.delete_by_id(id).unwrap();
    if res.deleted_count == 1 {
        Ok("Cube successfully deleted!")
    } else {
        Err(HandlerError::OperationFailed)
    }
}

} // verus!
