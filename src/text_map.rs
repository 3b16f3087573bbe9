use vstd::prelude::*;
use bimap::BiHashMap;
use fnv::{FnvBuildHasher, FnvHasher};
use std::hash::BuildHasherDefault;
use crate::id::StrID;

verus! {

#[verifier::external_type_specification]
#[verifier::external_body]
#[verifier::reject_recursive_types(L)]
#[verifier::reject_recursive_types(R)]
#[verifier::reject_recursive_types(LS)]
#[verifier::reject_recursive_types(RS)]
pub struct ExBiHashMap<L, R, LS, RS>(BiHashMap<L, R, LS, RS>);

#[verifier::external_type_specification]
#[verifier::external_body]
pub struct ExFnvHasher(FnvHasher);

#[verifier::external_type_specification]
#[verifier::external_body]
#[verifier::reject_recursive_types(H)]
pub struct ExBuildHasherDefault<H>(BuildHasherDefault<H>);

/// The two-way map from identifiers to interned text.
pub type TextMap = BiHashMap<StrID, &'static str, FnvBuildHasher, FnvBuildHasher>;

/// The pairs a text map holds, keyed by the identifier's integer.
pub uninterp spec fn text_pairs(m: BiHashMap<StrID, &'static str, FnvBuildHasher, FnvBuildHasher>) -> Map<usize, Seq<char>>;

/// Relies on bimap's `BiHashMap::default`: a new map holds no pair.
#[verifier::external_body]
pub(crate) fn text_map_new() -> (r: TextMap)
    ensures
        forall|k: usize| !#[trigger] text_pairs(r).contains_key(k),
{
    BiHashMap::default()
}

/// Relies on bimap's `BiHashMap::get_by_left`: the text paired with `id`, if any.
#[verifier::external_body]
pub(crate) fn text_map_get_by_id(m: &TextMap, id: StrID) -> (r: Option<&'static str>)
    ensures
        match r {
            Some(t) => text_pairs(*m).contains_key(id@) && text_pairs(*m)[id@] == t@,
            None => !text_pairs(*m).contains_key(id@),
        },
{
    m.get_by_left(&id).copied()
}

/// Relies on bimap's `BiHashMap::get_by_right`: the identifier paired with the
/// text `s`, if any.
#[verifier::external_body]
pub(crate) fn text_map_get_by_text(m: &TextMap, s: &str) -> (r: Option<StrID>)
    ensures
        match r {
            Some(id) => text_pairs(*m).contains_key(id@) && text_pairs(*m)[id@] == s@,
            None => !text_pairs(*m).contains_value(s@),
        },
{
    m.get_by_right(s).copied()
}

/// Relies on bimap's `BiHashMap::insert`: it drops the pair that holds `id` and
/// the pair that holds `s`, then adds the pair of the two.
#[verifier::external_body]
pub(crate) fn text_map_insert(m: &mut TextMap, id: StrID, s: &'static str)
    ensures
        text_pairs(*final(m)) == Map::new(
            |k: usize| k == id@ || (text_pairs(*old(m)).contains_key(k) && text_pairs(*old(m))[k] != s@),
            |k: usize| if k == id@ { s@ } else { text_pairs(*old(m))[k] },
        ),
{
    m.insert(id, s);
}

/// Relies on `String::leak`: the text stays allocated for the rest of the
/// process and reads as `s` did.
#[verifier::external_body]
pub(crate) fn leak_text(s: String) -> (r: &'static str)
    ensures
        r@ == s@,
{
    s.leak()
}

} // verus!
