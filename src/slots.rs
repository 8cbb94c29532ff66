use vstd::prelude::*;

verus! {

/// A hash map from text keys to slot numbers, held in a hashbrown `HashMap`.
/// hashbrown's map takes an allocator parameter bounded by a trait that hashbrown
/// keeps private, so the map type cannot be declared to Verus itself; it lives in
/// this private field instead, and the methods below are its only way in.
#[verifier::external_body]
pub struct HashSlots {
    map: hashbrown::HashMap<String, usize>,
}

/// What a `HashSlots` holds: each key's text and its slot.
pub uninterp spec fn hash_slots_of(m: HashSlots) -> Map<Seq<char>, usize>;

impl HashSlots {
    /// Relies on hashbrown's `HashMap::new`: an empty map.
    #[verifier::external_body]
    pub(crate) fn new() -> (r: Self)
        ensures
            hash_slots_of(r).dom() == Set::<Seq<char>>::empty(),
    {
        HashSlots { map: hashbrown::HashMap::new() }
    }

    /// Relies on hashbrown's `HashMap::get`; `String` equality is equality of the text.
    #[verifier::external_body]
    pub(crate) fn get(&self, key: &str) -> (r: Option<usize>)
        ensures
            r == (if hash_slots_of(*self).contains_key(key@) {
                Some(hash_slots_of(*self)[key@])
            } else {
                None
            }),
    {
        self.map.get(key).copied()
    }

    /// Relies on hashbrown's `HashMap::insert`: the key now maps to the slot.
    #[verifier::external_body]
    pub(crate) fn insert(&mut self, key: String, slot: usize)
        ensures
            hash_slots_of(*final(self)) == hash_slots_of(*old(self)).insert(key@, slot),
    {
        self.map.insert(key, slot);
    }

    /// Relies on hashbrown's `HashMap::remove`: the key is no longer present.
    #[verifier::external_body]
    pub(crate) fn remove(&mut self, key: &str)
        ensures
            hash_slots_of(*final(self)) == hash_slots_of(*old(self)).remove(key@),
    {
        self.map.remove(key);
    }
}

/// A hash map from beatmap ids to slot numbers, held in a hashbrown `HashMap`
/// behind a private field, as `HashSlots` is.
#[verifier::external_body]
pub struct IdSlots {
    map: hashbrown::HashMap<i32, usize>,
}

/// What an `IdSlots` holds: each id and its slot.
pub uninterp spec fn id_slots_of(m: IdSlots) -> Map<i32, usize>;

impl IdSlots {
    /// Relies on hashbrown's `HashMap::new`: an empty map.
    #[verifier::external_body]
    pub(crate) fn new() -> (r: Self)
        ensures
            id_slots_of(r).dom() == Set::<i32>::empty(),
    {
        IdSlots { map: hashbrown::HashMap::new() }
    }

    /// Relies on hashbrown's `HashMap::get`.
    #[verifier::external_body]
    pub(crate) fn get(&self, key: i32) -> (r: Option<usize>)
        ensures
            r == (if id_slots_of(*self).contains_key(key) {
                Some(id_slots_of(*self)[key])
            } else {
                None
            }),
    {
        self.map.get(&key).copied()
    }

    /// Relies on hashbrown's `HashMap::insert`: the id now maps to the slot.
    #[verifier::external_body]
    pub(crate) fn insert(&mut self, key: i32, slot: usize)
        ensures
            id_slots_of(*final(self)) == id_slots_of(*old(self)).insert(key, slot),
    {
        self.map.insert(key, slot);
    }
}

} // verus!
