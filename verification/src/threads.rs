//! Thread addressing: a conversation is either the session-wide room or a
//! direct-message pair. Each thread has a canonical string key and a log file
//! path under the weave home directory.
use vstd::prelude::*;
use crate::strutil::{
    chars_of, lex_leq, lemma_lex_antisymmetric, lemma_lex_total, lemma_split_on_join, lemma_split_on_len,
    lemma_split_on_no_sep, lemma_trim_fixed_ends, lemma_trim_idempotent,
    lemma_trim_stable_no_space_ends, split_on, split_str, str_eq, str_lex_leq, trim_spec,
    trim_str, views_of,
};
use vstd::string::StrSliceExecFns;
use vstd::string::StringExecFns;

verus! {

/// A direct-message thread: the two participant ids are kept sorted so that
/// the key does not depend on the order they were given in.
#[derive(Clone, Debug, PartialEq, Eq, Hash)]
pub struct WeaveDmThread {
    pub session_id: String,
    pub a: String,
    pub b: String,
}

/// The address of a thread log: the whole room, or one direct-message pair.
#[derive(Clone, Debug, PartialEq, Eq)]
pub enum WeaveThreadKey {
    Room { session_id: String },
    Dm(WeaveDmThread),
}

pub ghost enum ThreadKeyV {
    Room { session_id: Seq<char> },
    Dm { session_id: Seq<char>, a: Seq<char>, b: Seq<char> },
}

impl View for WeaveDmThread {
    type V = ThreadKeyV;

    open spec fn view(&self) -> ThreadKeyV {
        ThreadKeyV::Dm { session_id: self.session_id@, a: self.a@, b: self.b@ }
    }
}

impl View for WeaveThreadKey {
    type V = ThreadKeyV;

    open spec fn view(&self) -> ThreadKeyV {
        match self {
            WeaveThreadKey::Room { session_id } => ThreadKeyV::Room { session_id: session_id@ },
            WeaveThreadKey::Dm(thread) => thread@,
        }
    }
}

/// The canonical key text of a direct-message thread with participants
/// already in order: `dm:<session>:<a>:<b>`.
pub open spec fn dm_key_spec(s: Seq<char>, a: Seq<char>, b: Seq<char>) -> Seq<char> {
    "dm:"@ + s + ":"@ + a + ":"@ + b
}

/// The canonical key text of a room thread: `room:` and the trimmed session id.
pub open spec fn room_key_spec(s: Seq<char>) -> Seq<char> {
    "room:"@ + trim_spec(s)
}

/// The key of the direct-message thread between `x` and `y`, whichever order
/// they are given in.
pub open spec fn dm_pair_key(s: Seq<char>, x: Seq<char>, y: Seq<char>) -> Seq<char> {
    if lex_leq(x, y) {
        dm_key_spec(s, x, y)
    } else {
        dm_key_spec(s, y, x)
    }
}

impl WeaveDmThread {
    /// Builds the thread for `id1` and `id2`, sorting the pair so that the
    /// same two identities always give the same thread.
    pub fn new(session_id: String, id1: String, id2: String) -> (r: Self)
        ensures
            r.session_id@ == session_id@,
            lex_leq(r.a@, r.b@),
            r.a@ == if lex_leq(id1@, id2@) { id1@ } else { id2@ },
            r.b@ == if lex_leq(id1@, id2@) { id2@ } else { id1@ },
    {
        if str_lex_leq(id1.as_str(), id2.as_str()) {
            WeaveDmThread { session_id, a: id1, b: id2 }
        } else {
            proof {
                lemma_lex_total(id1@, id2@);
            }
            WeaveDmThread { session_id, a: id2, b: id1 }
        }
    }

    /// The canonical key of this thread.
    pub fn key(&self) -> (r: String)
        ensures
            r@ == dm_key_spec(self.session_id@, self.a@, self.b@),
    {
        let mut out = String::new();
        out.append("dm:");
        out.append(self.session_id.as_str());
        out.append(":");
        out.append(self.a.as_str());
        out.append(":");
        out.append(self.b.as_str());
        proof {
            assert(out@ =~= dm_key_spec(self.session_id@, self.a@, self.b@));
        }
        out
    }

    /// Where this thread's log lives under `code_home`:
    /// `<code_home>/weave/logs/<session>/dm_<a>_<b>.jsonl`.
    pub fn log_path(&self, code_home: &str) -> (r: String)
        ensures
            r@ == code_home@ + "/weave/logs/"@ + self.session_id@ + "/dm_"@ + self.a@ + "_"@
                + self.b@ + ".jsonl"@,
    {
        let mut out = String::new();
        out.append(code_home);
        out.append("/weave/logs/");
        out.append(self.session_id.as_str());
        out.append("/dm_");
        out.append(self.a.as_str());
        out.append("_");
        out.append(self.b.as_str());
        out.append(".jsonl");
        proof {
            assert(out@ =~= code_home@ + "/weave/logs/"@ + self.session_id@ + "/dm_"@ + self.a@
                + "_"@ + self.b@ + ".jsonl"@);
        }
        out
    }
}

impl WeaveThreadKey {
    /// The session this thread belongs to.
    pub fn session_id(&self) -> (r: &str)
        ensures
            r@ == match self@ {
                ThreadKeyV::Room { session_id } => session_id,
                ThreadKeyV::Dm { session_id, .. } => session_id,
            },
    {
        match self {
            WeaveThreadKey::Room { session_id } => session_id.as_str(),
            WeaveThreadKey::Dm(thread) => thread.session_id.as_str(),
        }
    }

    /// The canonical key text of this thread.
    pub fn key(&self) -> (r: String)
        ensures
            r@ == thread_key_spec(self@),
    {
        match self {
            WeaveThreadKey::Room { session_id } => room_thread_key(session_id.as_str()),
            WeaveThreadKey::Dm(thread) => thread.key(),
        }
    }
}

/// The canonical key text of a thread.
pub open spec fn thread_key_spec(t: ThreadKeyV) -> Seq<char> {
    match t {
        ThreadKeyV::Room { session_id } => room_key_spec(session_id),
        ThreadKeyV::Dm { session_id, a, b } => dm_key_spec(session_id, a, b),
    }
}

/// The key of the session-wide room thread.
pub fn room_thread_key(session_id: &str) -> (r: String)
    ensures
        r@ == room_key_spec(session_id@),
{
    let mut out = String::new();
    out.append("room:");
    let trimmed = trim_str(session_id);
    out.append(trimmed.as_str());
    out
}

/// Where the room thread's log lives under `code_home`:
/// `<code_home>/weave/logs/<trimmed session>/room.jsonl`.
pub fn room_log_path(code_home: &str, session_id: &str) -> (r: String)
    ensures
        r@ == code_home@ + "/weave/logs/"@ + trim_spec(session_id@) + "/room.jsonl"@,
{
    let mut out = String::new();
    out.append(code_home);
    out.append("/weave/logs/");
    let trimmed = trim_str(session_id);
    out.append(trimmed.as_str());
    out.append("/room.jsonl");
    proof {
        assert(out@ =~= code_home@ + "/weave/logs/"@ + trim_spec(session_id@) + "/room.jsonl"@);
    }
    out
}

/// What `parse_thread_key` accepts: a trimmed key of exactly two fields for a
/// room or exactly four for a direct message, every field non-empty after
/// trimming; the direct-message pair comes out sorted.
pub open spec fn parse_thread_key_spec(key: Seq<char>) -> Option<ThreadKeyV> {
    let t = trim_spec(key);
    if t.len() == 0 {
        None
    } else {
        let parts = split_on(t, ':');
        if parts[0] == "room"@ {
            if parts.len() == 2 && trim_spec(parts[1]).len() > 0 {
                Some(ThreadKeyV::Room { session_id: trim_spec(parts[1]) })
            } else {
                None
            }
        } else if parts[0] == "dm"@ {
            if parts.len() == 4 && trim_spec(parts[1]).len() > 0 && trim_spec(parts[2]).len() > 0
                && trim_spec(parts[3]).len() > 0 {
                let x = trim_spec(parts[2]);
                let y = trim_spec(parts[3]);
                Some(ThreadKeyV::Dm {
                    session_id: trim_spec(parts[1]),
                    a: if lex_leq(x, y) { x } else { y },
                    b: if lex_leq(x, y) { y } else { x },
                })
            } else {
                None
            }
        } else {
            None
        }
    }
}

/// Reads a canonical thread key back into its thread.
pub fn parse_thread_key(key: &str) -> (r: Option<WeaveThreadKey>)
    ensures
        (r is Some) == (parse_thread_key_spec(key@) is Some),
        r matches Some(k) ==> Some(k@) == parse_thread_key_spec(key@),
{
    let t = trim_str(key);
    if t.as_str().unicode_len() == 0 {
        return None;
    }
    let parts = split_str(t.as_str(), ':');
    proof {
        lemma_split_on_len(t@, ':');
        assert(views_of(parts@)[0] == parts@[0]@);
    }
    if str_eq(parts[0].as_str(), "room") {
        if parts.len() != 2 {
            return None;
        }
        proof {
            assert(views_of(parts@)[1] == parts@[1]@);
        }
        let sid = trim_str(parts[1].as_str());
        if sid.as_str().unicode_len() == 0 {
            return None;
        }
        Some(WeaveThreadKey::Room { session_id: sid })
    } else if str_eq(parts[0].as_str(), "dm") {
        if parts.len() != 4 {
            return None;
        }
        proof {
            assert(views_of(parts@)[1] == parts@[1]@);
            assert(views_of(parts@)[2] == parts@[2]@);
            assert(views_of(parts@)[3] == parts@[3]@);
        }
        let sid = trim_str(parts[1].as_str());
        let x = trim_str(parts[2].as_str());
        let y = trim_str(parts[3].as_str());
        if sid.as_str().unicode_len() == 0 || x.as_str().unicode_len() == 0
            || y.as_str().unicode_len() == 0 {
            return None;
        }
        Some(WeaveThreadKey::Dm(WeaveDmThread::new(sid, x, y)))
    } else {
        None
    }
}

/// Index of the last occurrence of `c` in `s`, or `-1` if there is none.
pub open spec fn last_sep(s: Seq<char>, c: char) -> int
    decreases s.len(),
{
    if s.len() == 0 {
        -1
    } else if s[s.len() - 1] == c {
        s.len() - 1
    } else {
        last_sep(s.drop_last(), c)
    }
}

proof fn lemma_last_sep_bounds(s: Seq<char>, c: char)
    ensures
        -1 <= last_sep(s, c) < s.len(),
    decreases s.len(),
{
    if s.len() > 0 && s[s.len() - 1] != c {
        lemma_last_sep_bounds(s.drop_last(), c);
    }
}

/// What `parse_dm_log_filename` accepts: `dm_<x>_<y>.jsonl`, split on the
/// last underscore of the middle part, the pair then sorted.
pub open spec fn parse_dm_log_filename_spec(session_id: Seq<char>, filename: Seq<char>) -> Option<
    ThreadKeyV,
> {
    if filename.len() >= 9 && filename.take(3) == "dm_"@ && filename.skip(filename.len() - 6)
        == ".jsonl"@ {
        let mid = filename.subrange(3, filename.len() - 6);
        let k = last_sep(mid, '_');
        if k >= 0 {
            let x = mid.take(k);
            let y = mid.skip(k + 1);
            Some(ThreadKeyV::Dm {
                session_id: session_id,
                a: if lex_leq(x, y) { x } else { y },
                b: if lex_leq(x, y) { y } else { x },
            })
        } else {
            None
        }
    } else {
        None
    }
}

/// Reads a direct-message log file name back into its thread, under the given
/// session.
pub fn parse_dm_log_filename(session_id: &str, filename: &str) -> (r: Option<WeaveDmThread>)
    ensures
        (r is Some) == (parse_dm_log_filename_spec(session_id@, filename@) is Some),
        r matches Some(th) ==> Some(th@) == parse_dm_log_filename_spec(session_id@, filename@),
{
    let cs = chars_of(filename);
    let n = cs.len();
    proof {
        reveal_strlit("dm_");
        reveal_strlit(".jsonl");
    }
    if n < 9 {
        return None;
    }
    proof {
        if filename@.take(3) == "dm_"@ {
            assert(filename@.take(3)[0] == 'd' && filename@.take(3)[1] == 'm' && filename@.take(
                3,
            )[2] == '_');
            assert(filename@[0] == 'd' && filename@[1] == 'm' && filename@[2] == '_');
        }
        if filename@.skip(n - 6) == ".jsonl"@ {
            assert(filename@.skip(n - 6)[0] == '.' && filename@.skip(n - 6)[1] == 'j'
                && filename@.skip(n - 6)[2] == 's' && filename@.skip(n - 6)[3] == 'o'
                && filename@.skip(n - 6)[4] == 'n' && filename@.skip(n - 6)[5] == 'l');
            assert(filename@[n - 6] == '.' && filename@[n - 5] == 'j' && filename@[n - 4] == 's'
                && filename@[n - 3] == 'o' && filename@[n - 2] == 'n' && filename@[n - 1] == 'l');
        }
    }
    if !(cs[0] == 'd' && cs[1] == 'm' && cs[2] == '_') {
        return None;
    }
    if !(cs[n - 6] == '.' && cs[n - 5] == 'j' && cs[n - 4] == 's' && cs[n - 3] == 'o'
        && cs[n - 2] == 'n' && cs[n - 1] == 'l') {
        return None;
    }
    proof {
        assert(filename@.take(3) =~= "dm_"@);
        assert(filename@.skip(n - 6) =~= ".jsonl"@);
    }
    let ghost mid = filename@.subrange(3, n - 6);
    let mut j: usize = n - 6;
    proof {
        assert(mid.take(j - 3) =~= mid);
    }
    while j > 3 && cs[j - 1] != '_'
        invariant
            3 <= j <= n - 6,
            n == cs@.len(),
            9 <= n,
            cs@ == filename@,
            mid == filename@.subrange(3, n - 6),
            last_sep(mid, '_') == last_sep(mid.take(j - 3), '_'),
        decreases j,
    {
        proof {
            assert(mid.take(j - 3).drop_last() =~= mid.take(j - 4));
            assert(mid.take(j - 3)[j - 4] == filename@[j - 1]);
        }
        j -= 1;
    }
    if j == 3 {
        proof {
            assert(mid.take(0).len() == 0);
        }
        return None;
    }
    let ghost k = (j - 4) as int;
    proof {
        assert(mid.take(j - 3)[j - 4] == filename@[j - 1]);
        assert(last_sep(mid, '_') == k);
        assert(mid.take(k) =~= filename@.subrange(3, j - 1));
        assert(mid.skip(k + 1) =~= filename@.subrange(j as int, n - 6));
    }
    let xs = crate::strutil::sub_chars(&cs, 3, j - 1);
    let ys = crate::strutil::sub_chars(&cs, j, n - 6);
    let x = crate::strutil::string_of(&xs);
    let y = crate::strutil::string_of(&ys);
    Some(WeaveDmThread::new(session_id.to_owned(), x, y))
}

/// An identity or session id that the canonical key form can carry: non-empty,
/// already trimmed, and free of the `:` field separator.
pub open spec fn clean_field(s: Seq<char>) -> bool {
    s.len() > 0 && trim_spec(s) == s && (forall|i: int| 0 <= i < s.len() ==> s[i] != ':')
}

/// A thread whose key is canonical: every field clean, and the
/// direct-message pair sorted.
pub open spec fn wf_thread_key(t: ThreadKeyV) -> bool {
    match t {
        ThreadKeyV::Room { session_id } => clean_field(session_id),
        ThreadKeyV::Dm { session_id, a, b } => clean_field(session_id) && clean_field(a)
            && clean_field(b) && lex_leq(a, b),
    }
}

/// Thread-key round trip: parsing the canonical key of a well-formed thread
/// gives that thread back, so for every key in the canonical image,
/// re-rendering the parsed thread reproduces the key.
pub proof fn lemma_thread_key_round_trip(t: ThreadKeyV)
    requires
        wf_thread_key(t),
    ensures
        parse_thread_key_spec(thread_key_spec(t)) == Some(t),
{
    reveal_strlit("room:");
    reveal_strlit("room");
    reveal_strlit("dm:");
    reveal_strlit("dm");
    reveal_strlit(":");
    match t {
        ThreadKeyV::Room { session_id } => {
            let key = room_key_spec(session_id);
            lemma_trim_idempotent(session_id);
            assert(trim_spec(session_id) == session_id);
            assert(key == "room:"@ + session_id);
            lemma_trim_stable_no_space_ends(session_id);
            assert(key[0] == 'r');
            assert(key[key.len() - 1] == session_id[session_id.len() - 1]);
            lemma_trim_fixed_ends(key);
            assert("room:"@ + session_id =~= "room"@ + seq![':'] + session_id);
            lemma_split_on_join("room"@, session_id, ':');
            lemma_split_on_no_sep("room"@, ':');
            lemma_split_on_no_sep(session_id, ':');
            let parts = split_on(key, ':');
            assert(parts =~~= seq!["room"@, session_id]);
            assert(parse_thread_key_spec(key) == Some(t));
        },
        ThreadKeyV::Dm { session_id, a, b } => {
            let key = dm_key_spec(session_id, a, b);
            lemma_trim_stable_no_space_ends(b);
            assert(key =~= "dm:"@ + session_id + ":"@ + a + ":"@ + b);
            assert(key[0] == 'd');
            assert(key[key.len() - 1] == b[b.len() - 1]);
            lemma_trim_fixed_ends(key);
            let tail2 = a + seq![':'] + b;
            let tail1 = session_id + seq![':'] + tail2;
            assert(key =~= "dm"@ + seq![':'] + tail1);
            lemma_split_on_join("dm"@, tail1, ':');
            lemma_split_on_join(session_id, tail2, ':');
            lemma_split_on_join(a, b, ':');
            lemma_split_on_no_sep("dm"@, ':');
            lemma_split_on_no_sep(session_id, ':');
            lemma_split_on_no_sep(a, ':');
            lemma_split_on_no_sep(b, ':');
            let parts = split_on(key, ':');
            assert(parts =~~= seq!["dm"@, session_id, a, b]);
            assert(parts[0] != "room"@);
            lemma_trim_idempotent(session_id);
            lemma_trim_idempotent(a);
            lemma_trim_idempotent(b);
            assert(parse_thread_key_spec(key) == Some(t));
        },
    }
}

/// Thread-key round trip, stated over the keys themselves: every key in the
/// canonical image — every valid key — parses, and re-rendering the parsed
/// thread reproduces the key exactly.
pub proof fn lemma_valid_key_round_trip(k: Seq<char>)
    requires
        exists|t: ThreadKeyV| #[trigger] wf_thread_key(t) && k == thread_key_spec(t),
    ensures
        parse_thread_key_spec(k) is Some,
        thread_key_spec(parse_thread_key_spec(k).unwrap()) == k,
{
    let t = choose|t: ThreadKeyV| #[trigger] wf_thread_key(t) && k == thread_key_spec(t);
    lemma_thread_key_round_trip(t);
}

/// Direct-message thread keys are symmetric in the two participants.
pub proof fn lemma_dm_thread_symmetric(s: Seq<char>, x: Seq<char>, y: Seq<char>)
    ensures
        dm_pair_key(s, x, y) == dm_pair_key(s, y, x),
{
    lemma_lex_total(x, y);
    if lex_leq(x, y) && lex_leq(y, x) {
        lemma_lex_antisymmetric(x, y);
    }
}

} // verus!
