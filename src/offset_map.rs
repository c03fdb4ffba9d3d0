//! A hash map from `u64` keys to `u64` values, backed by `hashbrown`.
use vstd::prelude::*;

verus! {

/// Hash map from `u64` to `u64`. Verus sees it only through
/// [`offset_map_contents`], which the methods below describe.
#[verifier::external_body]
pub struct OffsetMap {
    inner: hashbrown::HashMap<u64, u64>,
}

/// The key-value pairs that a map holds.
pub uninterp spec fn offset_map_contents(m: OffsetMap) -> Map<u64, u64>;

impl View for OffsetMap {
    type V = Map<u64, u64>;

    open spec fn view(&self) -> Map<u64, u64> {
        offset_map_contents(*self)
    }
}

impl OffsetMap {
    /// Relies on `hashbrown::HashMap::with_capacity`: a map with no entries
    /// (the capacity only sizes the allocation).
    #[verifier::external_body]
    pub(crate) fn with_capacity(capacity: usize) -> (r: OffsetMap)
        ensures
            r@ =~= Map::empty(),
    {
        OffsetMap { inner: hashbrown::HashMap::with_capacity(capacity) }
    }

    /// Relies on `hashbrown::HashMap::insert`: maps `key` to `value`, replacing
    /// what `key` mapped to before, and leaves every other key as it was.
    #[verifier::external_body]
    pub(crate) fn insert(&mut self, key: u64, value: u64)
        ensures
            offset_map_contents(*final(self)) == offset_map_contents(*old(self)).insert(key, value),
    {
        self.inner.insert(key, value);
    }

    /// Relies on `hashbrown::HashMap::get`: the value stored under `key`, if any.
    #[verifier::external_body]
    pub(crate) fn get(&self, key: u64) -> (r: Option<u64>)
        ensures
            r == (if offset_map_contents(*self).contains_key(key) {
                Some(offset_map_contents(*self)[key])
            } else {
                None
            }),
    {
        self.inner.get(&key).copied()
    }
}

} // verus!
