//! Accent colours for agents: a stable hash of the agent id picks one of
//! eight accents, and the UI may pin an agent to a chosen accent through an
//! explicit override store it owns.
use vstd::prelude::*;
use crate::cells::TextTone;
use crate::strutil::{str_eq, trim_spec, trim_str};
use vstd::string::StrSliceExecFns;
use vstd::string::StringSliceAdditionalSpecFns;

verus! {

/// One step of the FNV-1a fold: mix one byte into the hash.
pub open spec fn fnv_step(h: u64, b: u8) -> u64 {
    vstd::wrapping::u64_specs::wrapping_mul(h ^ (b as u64), 0x100000001b3u64)
}

/// The 64-bit FNV-1a hash of a byte sequence.
pub open spec fn fnv1a64_spec(bytes: Seq<u8>) -> u64
    decreases bytes.len(),
{
    if bytes.len() == 0 {
        0xcbf29ce484222325u64
    } else {
        fnv_step(fnv1a64_spec(bytes.drop_last()), bytes.last())
    }
}

/// The 64-bit FNV-1a hash of the UTF-8 bytes of `input`.
pub fn fnv1a64(input: &str) -> (r: u64)
    ensures
        r == fnv1a64_spec(vstd::utf8::encode_utf8(input@)),
{
    let bytes = input.as_bytes_vec();
    let mut hash: u64 = 0xcbf29ce484222325;
    let mut i: usize = 0;
    proof {
        assert(bytes@.take(0) =~= Seq::<u8>::empty());
    }
    while i < bytes.len()
        invariant
            i <= bytes@.len(),
            bytes@ == input.spec_bytes(),
            hash == fnv1a64_spec(bytes@.take(i as int)),
        decreases bytes@.len() - i,
    {
        proof {
            assert(bytes@.take(i + 1).drop_last() =~= bytes@.take(i as int));
            assert(bytes@.take(i + 1).last() == bytes@[i as int]);
        }
        hash = (hash ^ (bytes[i] as u64)).wrapping_mul(0x100000001b3);
        i += 1;
    }
    proof {
        assert(bytes@.take(bytes@.len() as int) =~= bytes@);
    }
    hash
}

/// The accent an agent id hashes to: one of eight, `0` for a blank id.
pub open spec fn accent_index_spec(agent_id: Seq<char>) -> u8 {
    if trim_spec(agent_id).len() == 0 {
        0u8
    } else {
        (fnv1a64_spec(vstd::utf8::encode_utf8(trim_spec(agent_id))) % 8) as u8
    }
}

/// Picks the accent for an agent id by hashing the trimmed id.
pub fn weave_agent_accent_index(agent_id: &str) -> (r: u8)
    ensures
        r == accent_index_spec(agent_id@),
        r < 8,
{
    let normalized = trim_str(agent_id);
    if normalized.as_str().unicode_len() == 0 {
        return 0;
    }
    let hash = fnv1a64(normalized.as_str());
    (hash % 8) as u8
}

/// The UI's accent overrides: a store of agent id to pinned accent, owned and
/// passed around explicitly by the caller.
#[derive(Debug)]
pub struct AccentOverrides {
    entries: Vec<(String, u8)>,
}

impl View for AccentOverrides {
    type V = Seq<(String, u8)>;

    closed spec fn view(&self) -> Seq<(String, u8)> {
        self.entries@
    }
}

/// The pinned accent of `id` in the store, last write winning.
pub open spec fn override_of(entries: Seq<(String, u8)>, id: Seq<char>) -> Option<u8>
    decreases entries.len(),
{
    if entries.len() == 0 {
        None
    } else if entries.last().0@ == id {
        Some(entries.last().1)
    } else {
        override_of(entries.drop_last(), id)
    }
}

/// The entries about ids other than `id`.
pub open spec fn without_key(entries: Seq<(String, u8)>, id: Seq<char>) -> Seq<(String, u8)>
    decreases entries.len(),
{
    if entries.len() == 0 {
        Seq::empty()
    } else {
        let r = without_key(entries.drop_last(), id);
        if entries.last().0@ == id {
            r
        } else {
            r.push(entries.last())
        }
    }
}

/// Dropping the entries of one id leaves every other id's pin unchanged.
pub proof fn lemma_without_key(entries: Seq<(String, u8)>, id: Seq<char>, q: Seq<char>)
    ensures
        override_of(without_key(entries, id), q) == if q == id {
            None
        } else {
            override_of(entries, q)
        },
    decreases entries.len(),
{
    if entries.len() > 0 {
        lemma_without_key(entries.drop_last(), id, q);
        let r = without_key(entries.drop_last(), id);
        if entries.last().0@ != id {
            assert(r.push(entries.last()).drop_last() =~= r);
        }
    }
}

impl AccentOverrides {
    /// An empty override store.
    pub fn new() -> (r: Self)
        ensures
            r@.len() == 0,
    {
        AccentOverrides { entries: Vec::new() }
    }

    /// Drops every entry whose id is `id`.
    fn remove_key(&mut self, id: &str)
        ensures
            final(self)@ == without_key(old(self)@, id@),
    {
        let mut kept: Vec<(String, u8)> = Vec::new();
        let mut i: usize = 0;
        let ghost all = self.entries@;
        proof {
            assert(all.take(0) =~= Seq::<(String, u8)>::empty());
        }
        while i < self.entries.len()
            invariant
                i <= all.len(),
                self.entries@ == all,
                kept@ == without_key(all.take(i as int), id@),
            decreases all.len() - i,
        {
            proof {
                assert(all.take(i + 1).drop_last() =~= all.take(i as int));
                assert(all.take(i + 1).last() == all[i as int]);
            }
            if !str_eq(self.entries[i].0.as_str(), id) {
                let pair = (self.entries[i].0.clone(), self.entries[i].1);
                let ghost prev = kept@;
                kept.push(pair);
                proof {
                    assert(kept@ =~= prev.push(all[i as int]));
                }
            }
            i += 1;
        }
        proof {
            assert(all.take(all.len() as int) =~= all);
        }
        self.entries = kept;
    }
}

/// Pins `agent_id` (trimmed) to `accent % 8` in the store; a blank id changes
/// nothing.
pub fn set_weave_agent_accent_override(overrides: &mut AccentOverrides, agent_id: String, accent: u8)
    ensures
        forall|q: Seq<char>|
            override_of(final(overrides)@, q) == if trim_spec(agent_id@).len() > 0 && q
                == trim_spec(agent_id@) {
                Some((accent % 8) as u8)
            } else {
                override_of(old(overrides)@, q)
            },
{
    let normalized = trim_str(agent_id.as_str());
    if normalized.as_str().unicode_len() == 0 {
        return ;
    }
    overrides.remove_key(normalized.as_str());
    let ghost removed = overrides@;
    overrides.entries.push((normalized, accent % 8));
    proof {
        assert(overrides@.drop_last() =~= removed);
        assert forall|q: Seq<char>|
            override_of(overrides@, q) == if q == trim_spec(agent_id@) {
                Some((accent % 8) as u8)
            } else {
                override_of(old(overrides)@, q)
            } by {
            lemma_without_key(old(overrides)@, trim_spec(agent_id@), q);
        }
    }
}

/// Unpins `agent_id` (trimmed) in the store; a blank id changes nothing.
pub fn clear_weave_agent_accent_override(overrides: &mut AccentOverrides, agent_id: &str)
    ensures
        forall|q: Seq<char>|
            override_of(final(overrides)@, q) == if trim_spec(agent_id@).len() > 0 && q
                == trim_spec(agent_id@) {
                None
            } else {
                override_of(old(overrides)@, q)
            },
{
    let normalized = trim_str(agent_id);
    if normalized.as_str().unicode_len() == 0 {
        return ;
    }
    overrides.remove_key(normalized.as_str());
    proof {
        assert forall|q: Seq<char>|
            override_of(overrides@, q) == if q == trim_spec(agent_id@) {
                None
            } else {
                override_of(old(overrides)@, q)
            } by {
            lemma_without_key(old(overrides)@, trim_spec(agent_id@), q);
        }
    }
}

/// The tone an agent id is shown with: its pinned accent when the store has
/// one, else the hashed accent.
pub open spec fn tone_spec(overrides: Seq<(String, u8)>, agent_id: Seq<char>) -> TextTone {
    match override_of(overrides, trim_spec(agent_id)) {
        Some(a) => TextTone::Accent(a),
        None => TextTone::Accent(accent_index_spec(agent_id)),
    }
}

/// Looks up the pinned accent of the trimmed `agent_id`.
fn override_lookup(overrides: &AccentOverrides, normalized: &str) -> (r: Option<u8>)
    ensures
        r == override_of(overrides@, normalized@),
{
    let mut found: Option<u8> = None;
    let mut i: usize = 0;
    let ghost all = overrides@;
    proof {
        assert(all.take(0) =~= Seq::<(String, u8)>::empty());
    }
    while i < overrides.entries.len()
        invariant
            i <= all.len(),
            overrides@ == all,
            found == override_of(all.take(i as int), normalized@),
        decreases all.len() - i,
    {
        proof {
            assert(all.take(i + 1).drop_last() =~= all.take(i as int));
            assert(all.take(i + 1).last() == all[i as int]);
        }
        if str_eq(overrides.entries[i].0.as_str(), normalized) {
            found = Some(overrides.entries[i].1);
        }
        i += 1;
    }
    proof {
        assert(all.take(all.len() as int) =~= all);
    }
    found
}

/// The tone `agent_id` is shown with, honouring any pinned accent.
pub fn weave_agent_tone_for_id(overrides: &AccentOverrides, agent_id: &str) -> (r: TextTone)
    ensures
        r == tone_spec(overrides@, agent_id@),
{
    let normalized = trim_str(agent_id);
    match override_lookup(overrides, normalized.as_str()) {
        Some(a) => TextTone::Accent(a),
        None => TextTone::Accent(weave_agent_accent_index(agent_id)),
    }
}

} // verus!
