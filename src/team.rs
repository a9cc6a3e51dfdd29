//! Identity mapping between chat users and code-hosting users, as published
//! in the team data: chat user id to code-hosting user id.
use vstd::prelude::*;
use std::collections::HashMap;
use vstd::std_specs::hash::spec_hash_map_iter;
use vstd::std_specs::iter::IteratorSpec;

verus! {

broadcast use vstd::std_specs::hash::group_hash_axioms;

pub struct ZulipMapping {
    pub users: HashMap<usize, usize>,
}

/// The code-hosting id of a chat user, if the mapping has one.
pub fn to_github_id(map: &ZulipMapping, zulip_id: usize) -> (r: Option<i64>)
    ensures
        map.users@.contains_key(zulip_id) ==> r == Some(map.users@[zulip_id] as i64),
        !map.users@.contains_key(zulip_id) ==> r is None,
{
    match map.users.get(&zulip_id) {
        Some(v) => Some(*v as i64),
        None => None,
    }
}

/// A chat user mapped to a code-hosting id, if there is one. When several
/// are, which one comes back is not specified.
pub fn to_zulip_id(map: &ZulipMapping, github_id: i64) -> (r: Option<usize>)
    ensures
        r matches Some(z) ==> map.users@.contains_key(z) && map.users@[z] == github_id as usize,
        r is None ==> forall|z: usize| #[trigger]
            map.users@.contains_key(z) ==> map.users@[z] != github_id as usize,
{
    let target = github_id as usize;
    let mut found: Option<usize> = None;
    for entry in it: map.users.iter()
        invariant
            it.seq() == spec_hash_map_iter(&map.users).remaining(),
            found is None ==> forall|i: int|
                0 <= i < it.index() ==> *(#[trigger] it.seq()[i]).1 != target,
            found matches Some(z) ==> map.users@.contains_key(z) && map.users@[z] == target,
    {
        let (z, g) = entry;
        if found.is_none() && *g == target {
            found = Some(*z);
        }
    }
    proof {
        let v = spec_hash_map_iter(&map.users).remaining();
        if found is None {
            assert forall|z: usize| #[trigger]
                map.users@.contains_key(z) implies map.users@[z] != target by {
                assert(v.contains((&z, &map.users@[z])));
                let i = choose|i: int| 0 <= i < v.len() && v[i] == (&z, &map.users@[z]);
                assert(*v[i].1 != target);
            }
        }
    }
    found
}

} // verus!
