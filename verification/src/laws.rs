//! General properties of the store and the handlers, stated over the same
//! spec functions their contracts use.

use crate::cube::{same_fields, CubeView};
use crate::handlers::updated_by_id;
use crate::store::{has_id, is_first_with_id, stored, with_category};
use vstd::prelude::*;

verus! {

/// A no-op update is idempotent: replacing the first record carrying an
/// identifier with the very record found there leaves the collection
/// unchanged.  This is the store-level content of "look a record up by its
/// identifier, then replace it by that identifier with an unchanged payload":
/// the lookup hands back `s[i]`, and the replace writes `s[i]`'s fields back
/// under the identifier re-derived from the parameter.
pub proof fn lemma_noop_update_preserves(s: Seq<CubeView>, id: Seq<char>, i: int)
    requires
        is_first_with_id(s, id, i),
    ensures
        s.update(i, updated_by_id(s[i], id)) == s,
{
    assert(updated_by_id(s[i], id) =~= s[i]);
    assert(s.update(i, s[i]) =~= s);
}

/// A freshly inserted record is found again under the identifier the store
/// assigned: appending a payload under an identifier no record carries makes
/// the appended position the first (and only) match, and the record found
/// there agrees with the payload on every attribute except the identifier.
pub proof fn lemma_insert_then_find(s: Seq<CubeView>, payload: CubeView, id: Seq<char>)
    requires
        !has_id(s, id),
    ensures
        is_first_with_id(s.push(stored(payload, id)), id, s.len() as int),
        s.push(stored(payload, id))[s.len() as int] == stored(payload, id),
        same_fields(stored(payload, id), payload),
        stored(payload, id).id == Some(id),
{
    let t = s.push(stored(payload, id));
    assert forall|j: int| 0 <= j < s.len() implies (#[trigger] t[j]).id != Some(id) by {
        assert(t[j] == s[j]);
        if s[j].id == Some(id) {
            assert(has_id(s, id));
        }
    }
}

/// An update keyed by identifier never changes the identifier: the record
/// replaced is the one carrying the parameter's identifier, and the
/// replacement is written under that same identifier.
pub proof fn lemma_update_by_id_keeps_identifier(
    s: Seq<CubeView>,
    id: Seq<char>,
    i: int,
    payload: CubeView,
)
    requires
        is_first_with_id(s, id, i),
    ensures
        s.update(i, updated_by_id(payload, id))[i].id == s[i].id,
{
}

/// A category with zero matching records yields the empty sequence, not a
/// failure: filtering a collection none of whose records carry the category
/// leaves nothing.
pub proof fn lemma_empty_category(s: Seq<CubeView>, category: Seq<char>)
    requires
        forall|i: int| 0 <= i < s.len() ==> (#[trigger] s[i]).type_ != category,
    ensures
        with_category(s, category) == Seq::<CubeView>::empty(),
    decreases s.len(),
{
    reveal_with_fuel(Seq::filter, 2);
    if s.len() == 0 {
        assert(s =~= Seq::<CubeView>::empty());
    } else {
        let prefix = s.drop_last();
        assert forall|i: int| 0 <= i < prefix.len() implies (#[trigger] prefix[i]).type_
            != category by {
            assert(prefix[i] == s[i]);
        }
        lemma_empty_category(prefix, category);
        assert(s.last().type_ != category);
    }
}

} // verus!
