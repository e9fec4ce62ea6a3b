use std::collections::HashMap;
use vstd::prelude::*;

verus! {

broadcast use vstd::std_specs::hash::group_hash_axioms, vstd::string::group_string_axioms;

/// Hands out fresh owner identities and remembers a display name for each.
pub struct KeyRegistry {
    keys: HashMap<u32, String>,
    next_key: u32,
}

pub struct KeyRegistryView {
    pub names: Map<u32, Seq<char>>,
    pub next_key: u32,
}

impl View for KeyRegistry {
    type V = KeyRegistryView;

    closed spec fn view(&self) -> KeyRegistryView {
        KeyRegistryView { names: self.keys@.map_values(|s: String| s@), next_key: self.next_key }
    }
}

impl KeyRegistry {
    /// Every identity handed out so far lies in `1..next_key`.
    pub open spec fn wf(&self) -> bool {
        &&& self@.next_key >= 1
        &&& forall|k: u32| #[trigger] self@.names.contains_key(k) ==> 1 <= k < self@.next_key
    }

    pub fn new() -> (r: Self)
        ensures
            r.wf(),
            r@.names == Map::<u32, Seq<char>>::empty(),
            r@.next_key == 1,
    {
        let r = KeyRegistry { keys: HashMap::new(), next_key: 1 };
        proof {
            assert(r@.names =~= Map::<u32, Seq<char>>::empty());
        }
        r
    }

    /// Hands out the next identity, which no earlier call returned, and names it `name`.
    pub fn generate(&mut self, name: &str) -> (r: u32)
        requires
            old(self).wf(),
            old(self)@.next_key < u32::MAX,
        ensures
            final(self).wf(),
            r == old(self)@.next_key,
            !old(self)@.names.contains_key(r),
            final(self)@.names == old(self)@.names.insert(r, name@),
            final(self)@.next_key == r + 1,
    {
        let key = self.next_key;
        self.next_key = self.next_key + 1;
        self.keys.insert(key, name.to_string());
        proof {
            assert(self@.names =~= old(self)@.names.insert(key, name@));
        }
        key
    }

    /// The names handed out so far, by identity.
    pub fn names(&self) -> (r: &HashMap<u32, String>)
        ensures
            r@.map_values(|s: String| s@) == self@.names,
    {
        &self.keys
    }
}

} // verus!
