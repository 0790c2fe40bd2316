//! What is known of the providers: for which models structured output has to
//! be asked for in the prompt.

use crate::reasoning::is_among;
use crate::text;
use vstd::prelude::*;

verus! {

/// The most models that are remembered.
pub const MAX_CAPABILITIES: usize = 2048;

/// The models, each with the kind of output, that take structured output from
/// a prompt alone.
pub struct CapabilityCache {
    keys: Vec<String>,
}

/// The keys once `key` is remembered. A full cache forgets all others.
pub open spec fn recorded(keys: Set<Seq<char>>, key: Seq<char>) -> Set<Seq<char>> {
    if keys.len() >= MAX_CAPABILITIES {
        Set::empty().insert(key)
    } else {
        keys.insert(key)
    }
}

impl View for CapabilityCache {
    type V = Set<Seq<char>>;

    closed spec fn view(&self) -> Set<Seq<char>> {
        text::texts(self.keys@).to_set()
    }
}

impl CapabilityCache {
    /// No key is held twice, and no more keys than the cache may hold.
    pub closed spec fn wf(self) -> bool {
        &&& text::texts(self.keys@).no_duplicates()
        &&& self.keys.len() <= MAX_CAPABILITIES
    }

    /// A cache holds no more keys than it may.
    pub proof fn lemma_bounded(self)
        requires
            self.wf(),
        ensures
            self@.finite(),
            self@.len() <= MAX_CAPABILITIES,
    {
        text::texts(self.keys@).unique_seq_to_set();
        vstd::seq_lib::seq_to_set_is_finite(text::texts(self.keys@));
    }

    pub fn contains(&self, key: &str) -> (found: bool)
        ensures
            found == self@.contains(key@),
    {
        is_among(key, &self.keys)
    }

    pub fn is_empty(&self) -> (empty: bool)
        ensures
            empty == (self@ == Set::<Seq<char>>::empty()),
    {
        let empty = self.keys.len() == 0;
        proof {
            if empty {
                assert(self@ =~= Set::<Seq<char>>::empty());
            } else {
                assert(text::texts(self.keys@)[0] == self.keys[0]@);
                assert(self@.contains(self.keys[0]@));
            }
        }
        empty
    }
}

impl Default for CapabilityCache {
    /// Nothing is known yet.
    fn default() -> (cache: Self)
        ensures
            cache.wf(),
            cache@ == Set::<Seq<char>>::empty(),
    {
        let cache = CapabilityCache { keys: Vec::new() };
        assert(cache@ =~= Set::<Seq<char>>::empty());
        cache
    }
}

/// Remembers that a model takes structured output from a prompt alone.
pub fn record_prompt_structured_output_capability(cache: &mut CapabilityCache, key: String)
    requires
        old(cache).wf(),
    ensures
        final(cache).wf(),
        final(cache)@ == recorded(old(cache)@, key@),
{
    let ghost before = text::texts(cache.keys@);
    proof {
        before.unique_seq_to_set();
    }
    if cache.keys.len() >= MAX_CAPABILITIES {
        cache.keys = Vec::new();
        assert(text::texts(cache.keys@) =~= Seq::<Seq<char>>::empty());
        assert(cache@ =~= Set::<Seq<char>>::empty());
    }
    let ghost kept = text::texts(cache.keys@);
    if !is_among(key.as_str(), &cache.keys) {
        cache.keys.push(key);
        let ghost after = text::texts(cache.keys@);
        proof {
            assert(after =~= kept.push(key@));
            assert forall|i: int, j: int|
                0 <= i < after.len() && 0 <= j < after.len() && i != j implies after[i]
                != after[j] by {
                if i < kept.len() && j < kept.len() {
                    assert(kept[i] != kept[j]);
                } else if i < kept.len() {
                    assert(kept.contains(kept[i]));
                } else {
                    assert(kept.contains(kept[j]));
                }
            }
            assert(after.to_set() =~= kept.to_set().insert(key@)) by {
                assert(after[kept.len() as int] == key@);
                assert forall|k: Seq<char>| kept.contains(k) implies after.contains(k) by {
                    let i = choose|i: int| 0 <= i < kept.len() && kept[i] == k;
                    assert(after[i] == k);
                }
                assert forall|k: Seq<char>| after.contains(k) implies kept.contains(k) || k
                    == key@ by {
                    let i = choose|i: int| 0 <= i < after.len() && after[i] == k;
                    if i < kept.len() {
                        assert(kept[i] == k);
                    }
                }
            }
        }
    } else {
        assert(kept.to_set().insert(key@) =~= kept.to_set());
    }
}

/// What was just remembered is known.
pub proof fn law_recorded_capability_is_known(keys: Set<Seq<char>>, key: Seq<char>)
    ensures
        recorded(keys, key).contains(key),
{
}

/// What is known stays known as long as there is room. Where there is none, all but
/// the newest is given up.
pub proof fn law_capabilities_are_kept(keys: Set<Seq<char>>, key: Seq<char>, other: Seq<char>)
    requires
        other != key,
    ensures
        keys.len() < 2048 ==> recorded(keys, key).contains(other) == keys.contains(other),
        keys.len() >= 2048 ==> !recorded(keys, key).contains(other),
{
}

} // verus!
