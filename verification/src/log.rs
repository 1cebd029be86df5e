//! The durable thread log, modelled over the entries themselves: an
//! append-only sequence per thread, read back with first-occurrence
//! deduplication by message id, a bounded tail window, and unread counting.
//! Reading and writing the file itself is line-oriented plumbing around these
//! functions.
use vstd::prelude::*;
use crate::strutil::str_eq;

verus! {

/// One recipient of a logged message.
#[derive(Clone, Debug, PartialEq, Eq)]
pub struct WeaveLogRecipient {
    pub id: String,
    pub label: String,
}

/// One persisted message of a thread log, identified by `message_id`.
#[derive(Clone, Debug, PartialEq, Eq)]
pub struct WeaveLogEntry {
    pub v: u8,
    pub ts_ms: u64,
    pub session_id: String,
    pub message_id: String,
    pub sender_id: String,
    pub sender_label: String,
    pub recipients: Vec<WeaveLogRecipient>,
    pub text: String,
}

pub ghost struct LogRecipientV {
    pub id: Seq<char>,
    pub label: Seq<char>,
}

pub ghost struct LogEntryV {
    pub v: u8,
    pub ts_ms: u64,
    pub session_id: Seq<char>,
    pub message_id: Seq<char>,
    pub sender_id: Seq<char>,
    pub sender_label: Seq<char>,
    pub recipients: Seq<LogRecipientV>,
    pub text: Seq<char>,
}

impl View for WeaveLogRecipient {
    type V = LogRecipientV;

    open spec fn view(&self) -> LogRecipientV {
        LogRecipientV { id: self.id@, label: self.label@ }
    }
}

impl View for WeaveLogEntry {
    type V = LogEntryV;

    open spec fn view(&self) -> LogEntryV {
        LogEntryV {
            v: self.v,
            ts_ms: self.ts_ms,
            session_id: self.session_id@,
            message_id: self.message_id@,
            sender_id: self.sender_id@,
            sender_label: self.sender_label@,
            recipients: self.recipients@.map_values(|r: WeaveLogRecipient| r@),
            text: self.text@,
        }
    }
}

/// The views of a sequence of entries.
pub open spec fn entry_views(s: Seq<WeaveLogEntry>) -> Seq<LogEntryV> {
    s.map_values(|e: WeaveLogEntry| e@)
}

/// Whether some entry of `s` carries the message id `id`.
pub open spec fn has_message_id(s: Seq<LogEntryV>, id: Seq<char>) -> bool {
    exists|i: int| 0 <= i < s.len() && s[i].message_id == id
}

/// First-occurrence deduplication by message id: an entry stays exactly when
/// no earlier entry carries its id.
pub open spec fn dedup_first_spec(s: Seq<LogEntryV>) -> Seq<LogEntryV>
    decreases s.len(),
{
    if s.len() == 0 {
        Seq::empty()
    } else {
        let d = dedup_first_spec(s.drop_last());
        if has_message_id(s.drop_last(), s.last().message_id) {
            d
        } else {
            d.push(s.last())
        }
    }
}

/// What a tail read returns: the deduplicated entries, truncated from the
/// front to the last `max` of them when `max` is positive.
pub open spec fn tail_spec(s: Seq<LogEntryV>, max: usize) -> Seq<LogEntryV> {
    let d = dedup_first_spec(s);
    if max == 0 || d.len() <= max {
        d
    } else {
        d.skip(d.len() - max)
    }
}

/// Deduplication keeps exactly the message ids of its input.
pub proof fn lemma_dedup_ids(s: Seq<LogEntryV>)
    ensures
        forall|id: Seq<char>|
            has_message_id(dedup_first_spec(s), id) == has_message_id(s, id),
    decreases s.len(),
{
    if s.len() > 0 {
        lemma_dedup_ids(s.drop_last());
        let d = dedup_first_spec(s);
        let p = s.drop_last();
        assert forall|id: Seq<char>| has_message_id(d, id) == has_message_id(s, id) by {
            if has_message_id(d, id) {
                if has_message_id(p, id) {
                    let i = choose|i: int| 0 <= i < p.len() && p[i].message_id == id;
                    assert(s[i].message_id == id);
                } else {
                    assert(s[s.len() - 1].message_id == id);
                }
            }
            if has_message_id(s, id) {
                let i = choose|i: int| 0 <= i < s.len() && s[i].message_id == id;
                if i < s.len() - 1 {
                    assert(p[i].message_id == id);
                    assert(has_message_id(p, id));
                    assert(has_message_id(dedup_first_spec(p), id));
                    if has_message_id(p, s.last().message_id) {
                        assert(d == dedup_first_spec(p));
                    } else {
                        let j = choose|j: int|
                            0 <= j < dedup_first_spec(p).len() && dedup_first_spec(p)[j].message_id
                                == id;
                        assert(d[j].message_id == id);
                    }
                } else {
                    if has_message_id(p, id) {
                        let j0 = choose|j0: int| 0 <= j0 < p.len() && p[j0].message_id == id;
                        assert(has_message_id(dedup_first_spec(p), id));
                        let j = choose|j: int|
                            0 <= j < dedup_first_spec(p).len() && dedup_first_spec(p)[j].message_id
                                == id;
                        assert(d[j].message_id == id);
                    } else {
                        assert(d == dedup_first_spec(p).push(s.last()));
                        assert(d[d.len() - 1].message_id == id);
                    }
                }
            }
        }
    }
}

/// Every entry the deduplication keeps is an entry of its input.
pub proof fn lemma_dedup_contained(s: Seq<LogEntryV>)
    ensures
        forall|k: int|
            0 <= k < dedup_first_spec(s).len() ==> s.contains(#[trigger] dedup_first_spec(s)[k]),
    decreases s.len(),
{
    if s.len() > 0 {
        lemma_dedup_contained(s.drop_last());
        let p = s.drop_last();
        assert forall|k: int|
            0 <= k < dedup_first_spec(s).len() implies s.contains(
            #[trigger] dedup_first_spec(s)[k],
        ) by {
            let d = dedup_first_spec(s);
            let dp = dedup_first_spec(p);
            if k < dp.len() {
                assert(dp[k] == d[k]);
                assert(p.contains(dp[k]));
                let i = choose|i: int| 0 <= i < p.len() && p[i] == dp[k];
                assert(s[i] == dp[k]);
            } else {
                assert(d[k] == s.last());
                assert(s[s.len() - 1] == s.last());
            }
        }
    }
}

/// The deduplicated entries carry pairwise distinct message ids.
pub proof fn lemma_dedup_distinct(s: Seq<LogEntryV>)
    ensures
        forall|i: int, j: int|
            0 <= i < j < dedup_first_spec(s).len() ==> dedup_first_spec(s)[i].message_id
                != dedup_first_spec(s)[j].message_id,
    decreases s.len(),
{
    if s.len() > 0 {
        let p = s.drop_last();
        lemma_dedup_distinct(p);
        lemma_dedup_ids(p);
        let d = dedup_first_spec(s);
        let dp = dedup_first_spec(p);
        assert forall|i: int, j: int|
            0 <= i < j < d.len() implies d[i].message_id != d[j].message_id by {
            if j < dp.len() {
                assert(d[i] == dp[i] && d[j] == dp[j]);
            } else if !has_message_id(p, s.last().message_id) {
                assert(d[j] == s.last());
                assert(d[i] == dp[i]);
                if dp[i].message_id == s.last().message_id {
                    assert(has_message_id(dp, s.last().message_id));
                }
            }
        }
    }
}

/// Appending a second entry with an already-present message id leaves the
/// deduplicated log unchanged: the log read is idempotent in duplicates.
pub proof fn lemma_dedup_idempotent(s: Seq<LogEntryV>, e1: LogEntryV, e2: LogEntryV)
    requires
        e2.message_id == e1.message_id,
    ensures
        dedup_first_spec(s.push(e1).push(e2)) == dedup_first_spec(s.push(e1)),
        forall|max: usize| tail_spec(s.push(e1).push(e2), max) == tail_spec(s.push(e1), max),
{
    let t = s.push(e1);
    assert(t.push(e2).drop_last() =~= t);
    assert(t[t.len() - 1].message_id == e2.message_id);
    assert(has_message_id(t, e2.message_id));
    assert(dedup_first_spec(t.push(e2)) == dedup_first_spec(t));
}

/// Entries ordered by timestamp, oldest first.
pub open spec fn sorted_by_ts(s: Seq<LogEntryV>) -> bool {
    forall|i: int, j: int| 0 <= i < j < s.len() ==> s[i].ts_ms <= s[j].ts_ms
}

proof fn lemma_dedup_sorted(s: Seq<LogEntryV>)
    requires
        sorted_by_ts(s),
    ensures
        sorted_by_ts(dedup_first_spec(s)),
    decreases s.len(),
{
    if s.len() > 0 {
        let p = s.drop_last();
        assert(sorted_by_ts(p));
        lemma_dedup_sorted(p);
        lemma_dedup_contained(p);
        let d = dedup_first_spec(s);
        let dp = dedup_first_spec(p);
        assert forall|i: int, j: int| 0 <= i < j < d.len() implies d[i].ts_ms <= d[j].ts_ms by {
            if j < dp.len() {
                assert(d[i] == dp[i] && d[j] == dp[j]);
            } else if j == dp.len() && d.len() == dp.len() + 1 {
                assert(d[j] == s.last());
                assert(d[i] == dp[i]);
                assert(p.contains(dp[i]));
                let m = choose|m: int| 0 <= m < p.len() && p[m] == dp[i];
                assert(s[m].ts_ms <= s[s.len() - 1].ts_ms);
            }
        }
    }
}

/// Tail windowing keeps the newest entries: when the log is in timestamp
/// order, a window of `max` entries is the suffix of the deduplicated log,
/// every dropped entry no newer than every kept one, relative order preserved.
pub proof fn lemma_tail_window_keeps_newest(s: Seq<LogEntryV>, max: usize)
    requires
        sorted_by_ts(s),
        0 < max < dedup_first_spec(s).len(),
    ensures
        tail_spec(s, max).len() == max,
        tail_spec(s, max) == dedup_first_spec(s).skip(dedup_first_spec(s).len() - max),
        forall|i: int, j: int|
            0 <= i < dedup_first_spec(s).len() - max && 0 <= j < max
                ==> dedup_first_spec(s)[i].ts_ms <= tail_spec(s, max)[j].ts_ms,
{
    lemma_dedup_sorted(s);
    let d = dedup_first_spec(s);
    let r = tail_spec(s, max);
    assert(r == d.skip(d.len() - max));
    assert forall|i: int, j: int|
        0 <= i < d.len() - max && 0 <= j < max implies d[i].ts_ms <= r[j].ts_ms by {
        assert(r[j] == d[d.len() - max + j]);
    }
}

/// Whether `e` counts as unread for `self_id` after `last_read_ts_ms`.
pub open spec fn is_unread(e: LogEntryV, self_id: Seq<char>, last_read_ts_ms: u64) -> bool {
    e.ts_ms > last_read_ts_ms && e.sender_id != self_id
}

/// How many entries of `s` count as unread.
pub open spec fn unread_count_spec(s: Seq<LogEntryV>, self_id: Seq<char>, last_read_ts_ms: u64) -> int
    decreases s.len(),
{
    if s.len() == 0 {
        0
    } else {
        unread_count_spec(s.drop_last(), self_id, last_read_ts_ms) + if is_unread(
            s.last(),
            self_id,
            last_read_ts_ms,
        ) {
            1int
        } else {
            0int
        }
    }
}

/// Unread exclusivity: entries sent by `self_id` never count, whatever their
/// timestamp, so a log written only by `self_id` counts zero.
pub proof fn lemma_unread_excludes_self(s: Seq<LogEntryV>, self_id: Seq<char>, last_read_ts_ms: u64)
    requires
        forall|i: int| 0 <= i < s.len() ==> s[i].sender_id == self_id,
    ensures
        unread_count_spec(s, self_id, last_read_ts_ms) == 0,
    decreases s.len(),
{
    if s.len() > 0 {
        lemma_unread_excludes_self(s.drop_last(), self_id, last_read_ts_ms);
    }
}

/// Counts the entries newer than `last_read_ts_ms` that someone else sent.
pub fn unread_count(entries: &Vec<WeaveLogEntry>, self_id: &str, last_read_ts_ms: u64) -> (r:
    usize)
    ensures
        r == unread_count_spec(entry_views(entries@), self_id@, last_read_ts_ms),
{
    let mut count: usize = 0;
    let mut i: usize = 0;
    proof {
        assert(entry_views(entries@).take(0) =~= Seq::<LogEntryV>::empty());
    }
    while i < entries.len()
        invariant
            i <= entries@.len(),
            count <= i,
            count == unread_count_spec(entry_views(entries@).take(i as int), self_id@,
                last_read_ts_ms),
        decreases entries@.len() - i,
    {
        let e = &entries[i];
        proof {
            let vs = entry_views(entries@);
            assert(vs.take(i + 1).drop_last() =~= vs.take(i as int));
            assert(vs.take(i + 1).last() == vs[i as int]);
        }
        if e.ts_ms > last_read_ts_ms && !str_eq(e.sender_id.as_str(), self_id) {
            count += 1;
        }
        i += 1;
    }
    proof {
        assert(entry_views(entries@).take(entries@.len() as int) =~= entry_views(entries@));
    }
    count
}

/// Whether some entry of `v` carries the message id `id`.
fn contains_id(v: &Vec<WeaveLogEntry>, id: &str) -> (r: bool)
    ensures
        r == has_message_id(entry_views(v@), id@),
{
    let mut i: usize = 0;
    while i < v.len()
        invariant
            i <= v@.len(),
            forall|j: int| 0 <= j < i ==> entry_views(v@)[j].message_id != id@,
        decreases v@.len() - i,
    {
        if str_eq(v[i].message_id.as_str(), id) {
            proof {
                assert(entry_views(v@)[i as int].message_id == id@);
            }
            return true;
        }
        i += 1;
    }
    false
}

/// The logical tail of a log: entries in file order, deduplicated by message
/// id keeping the first occurrence, then cut down to the last `max_entries`
/// of them (`0` meaning unlimited).
pub fn tail_entries(entries: Vec<WeaveLogEntry>, max_entries: usize) -> (r: Vec<WeaveLogEntry>)
    ensures
        entry_views(r@) == tail_spec(entry_views(entries@), max_entries),
{
    let ghost full = entry_views(entries@);
    let mut rest = entries;
    let mut out: Vec<WeaveLogEntry> = Vec::new();
    let ghost mut i: int = 0;
    proof {
        assert(full.take(0) =~= Seq::<LogEntryV>::empty());
        assert(rest@ =~= rest@.subrange(0, rest@.len() as int));
    }
    while rest.len() > 0
        invariant
            0 <= i <= full.len(),
            entry_views(rest@) =~= full.skip(i),
            entry_views(out@) == dedup_first_spec(full.take(i)),
        decreases rest@.len(),
    {
        let e = rest.remove(0);
        proof {
            assert(entry_views(rest@) =~= full.skip(i).drop_first());
            assert(full.skip(i).drop_first() =~= full.skip(i + 1));
            assert(full.skip(i)[0] == full[i]);
            assert(e@ == full[i]);
            assert(full.take(i + 1).drop_last() =~= full.take(i));
            assert(full.take(i + 1).last() == full[i]);
            lemma_dedup_ids(full.take(i));
        }
        if !contains_id(&out, e.message_id.as_str()) {
            let ghost prev = entry_views(out@);
            out.push(e);
            proof {
                assert(entry_views(out@) =~= prev.push(full[i]));
            }
        }
        proof {
            i = i + 1;
        }
    }
    proof {
        assert(full.take(full.len() as int) =~= full);
    }
    let ghost d = dedup_first_spec(full);
    if max_entries > 0 {
        let ghost mut k: int = 0;
        proof {
            assert(entry_views(out@) =~= d.skip(0));
        }
        while out.len() > max_entries
            invariant
                max_entries > 0,
                0 <= k <= d.len(),
                entry_views(out@) =~= d.skip(k),
                k == 0 || d.len() - k >= max_entries,
            decreases out@.len(),
        {
            out.remove(0);
            proof {
                assert(entry_views(out@) =~= d.skip(k).drop_first());
                assert(d.skip(k).drop_first() =~= d.skip(k + 1));
                k = k + 1;
            }
        }
        proof {
            if d.len() <= max_entries {
                assert(k == 0);
                assert(d.skip(0) =~= d);
            } else {
                assert(entry_views(out@).len() == max_entries);
                assert(k == d.len() - max_entries);
            }
        }
    }
    out
}

} // verus!
