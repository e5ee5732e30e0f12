//! The calls into `near_sdk` that the registry is built on. Nothing in this
//! file is proved: each contract below is read off the source of `near_sdk`
//! and believed.
//!
//! A `LookupMap` keeps no entries in memory. It holds a prefix, and each entry
//! lives in host storage under the prefix followed by the encoded key. What a
//! read returns is therefore the host's to say: another handle on the same
//! prefix reads and writes the same entries. So nothing is claimed of what a
//! read returns or of what the host holds after a write, and the registry
//! decides on whatever comes back. What is claimed of a write is what this
//! handle handed to the host: [`handed`] is the list of it.
//!
//! The host refuses a storage key or a value that is longer than it allows,
//! and ends the call. Each call below leaves those keys and values out. The
//! bounds are the ones `near_sdk` configures its host with by default.
//!
//! The host may end a call for reasons that no argument decides: the gas runs
//! out, a write is asked for in a view call, no host is installed, or the
//! bytes stored under a key do not decode as an entry. A call that is ended
//! writes nothing and does not return.

use near_sdk::collections::LookupMap;
use vstd::prelude::*;
use vstd::utf8::encode_utf8;

verus! {

/// The longest storage key the host accepts, in bytes.
pub const MAX_STORAGE_KEY_BYTES: usize = 4194304;

/// The longest stored value the host accepts, in bytes.
pub const MAX_STORAGE_VALUE_BYTES: usize = 4194304;

#[verifier::external_type_specification]
#[verifier::external_body]
#[verifier::reject_recursive_types(K)]
#[verifier::reject_recursive_types(V)]
pub struct ExLookupMap<K, V>(LookupMap<K, V>);

/// The prefix that a map of records was created with.
pub uninterp spec fn key_prefix(map: LookupMap<String, (u8, u8, Vec<u32>)>) -> Seq<u8>;

/// The keys and values that `insert` was called with on this handle, in the
/// order of the calls. It says what the handle handed to the host, and nothing
/// of what the host holds.
pub uninterp spec fn handed(map: LookupMap<String, (u8, u8, Vec<u32>)>) -> Seq<
    (Seq<char>, (u8, u8, Seq<u32>)),
>;

/// Whether the host accepts the storage key of `key` in a map with this
/// prefix. The storage key is the prefix, then the length of the key in four
/// bytes, then the key in UTF-8.
pub open spec fn storage_key_fits(prefix: Seq<u8>, key: Seq<char>) -> bool {
    prefix.len() + 4 + (encode_utf8(key).len() as usize) <= MAX_STORAGE_KEY_BYTES
}

/// Whether the host accepts an entry with these samples as a value. The value
/// is one byte of age, one of height, the number of samples in four bytes, and
/// four bytes for each sample.
pub open spec fn storage_value_fits(samples: Seq<u32>) -> bool {
    6 + 4 * samples.len() <= MAX_STORAGE_VALUE_BYTES
}

/// `near_sdk::env::predecessor_account_id`: the identifier of whoever invoked
/// the running call, as the host reports it. It belongs to the call in
/// progress, so nothing is claimed of it.
#[verifier::external_body]
pub(crate) fn predecessor_account_id() -> (caller: String) {
    near_sdk::env::predecessor_account_id()
}

/// `near_sdk::env::state_exists`: whether the host already holds a saved
/// contract state. It depends on what the host has stored, so nothing is
/// claimed of it.
#[verifier::external_body]
pub(crate) fn state_exists() -> (exists: bool) {
    near_sdk::env::state_exists()
}

/// `LookupMap::new`: a handle on the entries under `prefix`. It records the
/// prefix and makes no call to the host, so the new handle has handed it
/// nothing.
#[verifier::external_body]
pub(crate) fn lookup_map_new(prefix: Vec<u8>) -> (map: LookupMap<String, (u8, u8, Vec<u32>)>)
    ensures
        key_prefix(map) == prefix@,
        handed(map) == Seq::<(Seq<char>, (u8, u8, Seq<u32>))>::empty(),
{
    LookupMap::new(prefix)
}

/// `LookupMap::contains_key`: asks the host whether it holds an entry for `key`
/// under the map's prefix. The answer depends on what is stored, so nothing is
/// claimed of it.
#[verifier::external_body]
pub(crate) fn lookup_map_contains_key(
    map: &LookupMap<String, (u8, u8, Vec<u32>)>,
    key: &String,
) -> (found: bool)
    requires
        storage_key_fits(key_prefix(*map), key@),
{
    map.contains_key(key)
}

/// `LookupMap::get`: asks the host for the entry it holds for `key` under the
/// map's prefix, and decodes it. The answer depends on what is stored, so
/// nothing is claimed of it.
#[verifier::external_body]
pub(crate) fn lookup_map_get(map: &LookupMap<String, (u8, u8, Vec<u32>)>, key: &String) -> (entry:
    Option<(u8, u8, Vec<u32>)>)
    requires
        storage_key_fits(key_prefix(*map), key@),
{
    map.get(key)
}

/// `LookupMap::insert`: hands `value` to the host to store for `key` under the
/// map's prefix, in one call with that key and that value. The handle keeps
/// its prefix; no method of the map writes it. `insert` hands back the entry
/// that was replaced, which is dropped here.
#[verifier::external_body]
pub(crate) fn lookup_map_insert(
    map: &mut LookupMap<String, (u8, u8, Vec<u32>)>,
    key: &String,
    value: &(u8, u8, Vec<u32>),
)
    requires
        storage_key_fits(key_prefix(*old(map)), key@),
        storage_value_fits(value.2@),
    ensures
        key_prefix(*final(map)) == key_prefix(*old(map)),
        handed(*final(map)) == handed(*old(map)).push((key@, (value.0, value.1, value.2@))),
{
    map.insert(key, value);
}

} // verus!
