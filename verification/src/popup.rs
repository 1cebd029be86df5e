//! The mention-completion popup model: a query, a sorted list of candidate
//! names, and a wrapping selection over the candidates the query matches.
//! Matching is case-insensitive subsequence search, and matches come back in
//! candidate (name) order — there is no relevance score ranking them.
//! Drawing the rows is the caller's business.
use vstd::prelude::*;
use crate::strutil::{
    chars_of, lemma_lex_total, lex_leq, lower_char, str_eq, str_lex_leq, to_lower_char,
    trim_spec, trim_str, views_of,
};
use vstd::string::{StrSliceExecFns, StringExecFns};

verus! {

/// The most rows the popup ever shows.
pub const MAX_POPUP_ROWS: usize = 8;

/// A wrapping selection with a scroll window over a list of some length.
#[derive(Clone, Copy, Debug, PartialEq, Eq, Structural)]
pub struct ScrollState {
    pub selected_idx: Option<usize>,
    pub scroll_top: usize,
}

/// The selection after clamping to a list of `len` rows: nothing on an empty
/// list, else the old selection bounded to the list, or the first row.
pub open spec fn clamp_sel_spec(sel: Option<usize>, len: usize) -> Option<usize> {
    if len == 0 {
        None
    } else {
        match sel {
            Some(i) => if i < len {
                Some(i)
            } else {
                Some((len - 1) as usize)
            },
            None => Some(0usize),
        }
    }
}

/// The selection one row up, wrapping from the first row to the last.
pub open spec fn up_spec(sel: Option<usize>, len: usize) -> Option<usize> {
    if len == 0 {
        None
    } else {
        let c = match sel {
            Some(i) => if i < len {
                i
            } else {
                (len - 1) as usize
            },
            None => 0usize,
        };
        if c == 0 {
            Some((len - 1) as usize)
        } else {
            Some((c - 1) as usize)
        }
    }
}

/// The selection one row down, wrapping from the last row to the first.
pub open spec fn down_spec(sel: Option<usize>, len: usize) -> Option<usize> {
    if len == 0 {
        None
    } else {
        let c = match sel {
            Some(i) => if i < len {
                i
            } else {
                (len - 1) as usize
            },
            None => 0usize,
        };
        if c + 1 >= len {
            Some(0usize)
        } else {
            Some((c + 1) as usize)
        }
    }
}

/// Where the window starts so that the selection is visible: moved up to the
/// selection, or down until it fits, and never past the last full window.
pub open spec fn visible_spec(sel: Option<usize>, top: usize, len: usize, visible: usize) -> usize {
    if len == 0 || visible == 0 {
        0usize
    } else {
        let maxtop = if len > visible {
            (len - visible) as usize
        } else {
            0usize
        };
        let t = match sel {
            None => top,
            Some(s0) => {
                let s = if s0 < len {
                    s0
                } else {
                    (len - 1) as usize
                };
                if s < top {
                    s
                } else if s + 1 > top + visible {
                    (s + 1 - visible) as usize
                } else {
                    top
                }
            },
        };
        if t > maxtop {
            maxtop
        } else {
            t
        }
    }
}

impl ScrollState {
    /// No selection, window at the top.
    pub fn new() -> (r: Self)
        ensures
            r.selected_idx is None,
            r.scroll_top == 0,
    {
        ScrollState { selected_idx: None, scroll_top: 0 }
    }

    /// Clamps the selection to a list of `len` rows.
    pub fn clamp_selection(&mut self, len: usize)
        ensures
            final(self).selected_idx == clamp_sel_spec(old(self).selected_idx, len),
            final(self).scroll_top == old(self).scroll_top,
    {
        if len == 0 {
            self.selected_idx = None;
        } else {
            match self.selected_idx {
                Some(i) => {
                    if i >= len {
                        self.selected_idx = Some(len - 1);
                    }
                },
                None => {
                    self.selected_idx = Some(0);
                },
            }
        }
    }

    /// Moves the selection one row up, wrapping.
    pub fn move_up_wrap(&mut self, len: usize)
        ensures
            final(self).selected_idx == up_spec(old(self).selected_idx, len),
            final(self).scroll_top == old(self).scroll_top,
    {
        if len == 0 {
            self.selected_idx = None;
            return ;
        }
        let c = match self.selected_idx {
            Some(i) => if i < len {
                i
            } else {
                len - 1
            },
            None => 0,
        };
        self.selected_idx = if c == 0 {
            Some(len - 1)
        } else {
            Some(c - 1)
        };
    }

    /// Moves the selection one row down, wrapping.
    pub fn move_down_wrap(&mut self, len: usize)
        ensures
            final(self).selected_idx == down_spec(old(self).selected_idx, len),
            final(self).scroll_top == old(self).scroll_top,
    {
        if len == 0 {
            self.selected_idx = None;
            return ;
        }
        let c = match self.selected_idx {
            Some(i) => if i < len {
                i
            } else {
                len - 1
            },
            None => 0,
        };
        self.selected_idx = if c >= len - 1 {
            Some(0)
        } else {
            Some(c + 1)
        };
    }

    /// Scrolls the window so the selection is visible.
    pub fn ensure_visible(&mut self, len: usize, visible: usize)
        ensures
            final(self).selected_idx == old(self).selected_idx,
            final(self).scroll_top == visible_spec(
                old(self).selected_idx,
                old(self).scroll_top,
                len,
                visible,
            ),
    {
        if len == 0 || visible == 0 {
            self.scroll_top = 0;
            return ;
        }
        let maxtop = if len > visible {
            len - visible
        } else {
            0
        };
        let mut t = self.scroll_top;
        match self.selected_idx {
            None => {},
            Some(s0) => {
                let s = if s0 < len {
                    s0
                } else {
                    len - 1
                };
                if s < t {
                    t = s;
                } else if s - t >= visible {
                    t = s + 1 - visible;
                }
            },
        }
        if t > maxtop {
            t = maxtop;
        }
        self.scroll_top = t;
    }
}

/// Whether the folded characters of `q` appear in order within `c`.
pub open spec fn is_subseq_ci(q: Seq<char>, c: Seq<char>) -> bool
    decreases c.len(),
{
    if q.len() == 0 {
        true
    } else if c.len() == 0 {
        false
    } else if lower_char(q[0]) == lower_char(c[0]) {
        is_subseq_ci(q.drop_first(), c.drop_first())
    } else {
        is_subseq_ci(q, c.drop_first())
    }
}

/// Whether a candidate matches the query: a blank query matches everything,
/// otherwise the trimmed query must be a case-insensitive subsequence.
pub open spec fn matches_query(c: Seq<char>, q: Seq<char>) -> bool {
    trim_spec(q).len() == 0 || is_subseq_ci(trim_spec(q), c)
}

/// The candidates a query keeps, in candidate order (the list being sorted,
/// matches come out by name, not by any match-quality score).
pub open spec fn filtered_spec(cands: Seq<Seq<char>>, q: Seq<char>) -> Seq<Seq<char>>
    decreases cands.len(),
{
    if cands.len() == 0 {
        Seq::empty()
    } else {
        let rest = filtered_spec(cands.drop_last(), q);
        if matches_query(cands.last(), q) {
            rest.push(cands.last())
        } else {
            rest
        }
    }
}

/// Checks the subsequence match with two cursors.
fn is_subseq_match(qc: &Vec<char>, cand: &str) -> (r: bool)
    ensures
        r == is_subseq_ci(qc@, cand@),
{
    let cc = chars_of(cand);
    let mut i: usize = 0;
    let mut j: usize = 0;
    proof {
        assert(qc@.skip(0) =~= qc@);
        assert(cc@.skip(0) =~= cc@);
    }
    while i < qc.len() && j < cc.len()
        invariant
            i <= qc@.len(),
            j <= cc@.len(),
            cc@ == cand@,
            is_subseq_ci(qc@, cand@) == is_subseq_ci(qc@.skip(i as int), cc@.skip(j as int)),
        decreases cc@.len() - j,
    {
        proof {
            assert(qc@.skip(i as int)[0] == qc@[i as int]);
            assert(cc@.skip(j as int)[0] == cc@[j as int]);
            assert(qc@.skip(i as int).drop_first() =~= qc@.skip(i + 1));
            assert(cc@.skip(j as int).drop_first() =~= cc@.skip(j + 1));
        }
        if to_lower_char(qc[i]) == to_lower_char(cc[j]) {
            i += 1;
        }
        j += 1;
    }
    if i == qc.len() {
        proof {
            assert(qc@.skip(i as int).len() == 0);
        }
        true
    } else {
        proof {
            assert(cc@.skip(j as int).len() == 0);
            assert(qc@.skip(i as int).len() > 0);
        }
        false
    }
}

/// Whether `s` holds the candidate `c`.
pub open spec fn has_candidate(s: Seq<Seq<char>>, c: Seq<char>) -> bool {
    exists|i: int| 0 <= i < s.len() && s[i] == c
}

/// Strictly sorted candidate names: ascending with no duplicates.
pub open spec fn strictly_sorted(s: Seq<Seq<char>>) -> bool {
    forall|i: int|
        0 <= i < s.len() - 1 ==> lex_leq(#[trigger] s[i], s[i + 1]) && s[i] != s[i + 1]
}

/// Puts one candidate into a strictly sorted list, keeping it strictly
/// sorted; a candidate already present is dropped.
#[verifier::loop_isolation(false)]
fn insert_candidate(out: &mut Vec<String>, cand: String)
    requires
        strictly_sorted(views_of(old(out)@)),
    ensures
        strictly_sorted(views_of(final(out)@)),
        forall|c: Seq<char>|
            #[trigger] has_candidate(views_of(final(out)@), c) == (has_candidate(
                views_of(old(out)@),
                c,
            ) || c == cand@),
{
    let ghost before = views_of(out@);
    let mut j: usize = 0;
    while j < out.len() && str_lex_leq(out[j].as_str(), cand.as_str()) && !str_eq(
        out[j].as_str(),
        cand.as_str(),
    )
        invariant
            j <= out@.len(),
            forall|k: int|
                0 <= k < j ==> lex_leq(#[trigger] before[k], cand@) && before[k] != cand@,
        decreases out@.len() - j,
    {
        j += 1;
    }
    if j < out.len() && str_eq(out[j].as_str(), cand.as_str()) {
        proof {
            assert(before[j as int] == cand@);
            assert(has_candidate(before, cand@));
            assert forall|c: Seq<char>|
                #[trigger] has_candidate(views_of(out@), c) == (has_candidate(before, c) || c
                    == cand@) by {}
        }
        return ;
    }
    proof {
        if j < out@.len() {
            lemma_lex_total(before[j as int], cand@);
            if before[j as int] == cand@ {
                assert(lex_leq(before[j as int], cand@));
            }
            assert(lex_leq(cand@, before[j as int]) && cand@ != before[j as int]);
        }
    }
    out.insert(j, cand);
    proof {
        let after = views_of(out@);
        assert forall|k: int| 0 <= k < after.len() implies after[k] == (if k < j {
            before[k]
        } else if k == j {
            cand@
        } else {
            before[k - 1]
        }) by {
            assert(after[k] == out@[k]@);
        }
        assert forall|i: int|
            0 <= i < after.len() - 1 implies lex_leq(#[trigger] after[i], after[i + 1])
            && after[i] != after[i + 1] by {}
        assert forall|c: Seq<char>|
            #[trigger] has_candidate(after, c) == (has_candidate(before, c) || c == cand@) by {
            if has_candidate(before, c) {
                let i = choose|i: int| 0 <= i < before.len() && before[i] == c;
                if i < j {
                    assert(after[i] == c);
                } else {
                    assert(after[i + 1] == c);
                }
            }
            if c == cand@ {
                assert(after[j as int] == c);
            }
            if has_candidate(after, c) {
                let i = choose|i: int| 0 <= i < after.len() && after[i] == c;
                if i < j {
                    assert(before[i] == c);
                } else if i == j {
                } else {
                    assert(before[i - 1] == c);
                }
            }
        }
    }
}

/// The completion popup over the known agent names.
#[derive(Debug)]
pub struct MentionPopup {
    query: String,
    candidates: Vec<String>,
    state: ScrollState,
}

impl MentionPopup {
    /// The candidate names, in order.
    pub closed spec fn cands_view(&self) -> Seq<Seq<char>> {
        views_of(self.candidates@)
    }

    /// The current (trimmed) query.
    pub closed spec fn query_view(&self) -> Seq<char> {
        self.query@
    }

    /// The selected row among the matching candidates.
    pub closed spec fn sel_view(&self) -> Option<usize> {
        self.state.selected_idx
    }

    /// The first visible row.
    pub closed spec fn top_view(&self) -> usize {
        self.state.scroll_top
    }

    /// The rows the current query keeps.
    pub open spec fn filtered_view(&self) -> Seq<Seq<char>> {
        filtered_spec(self.cands_view(), self.query_view())
    }

    /// A popup over the given candidates with an empty query; the first
    /// candidate, if there is one, starts selected.
    pub fn new(candidates: Vec<String>) -> (r: Self)
        ensures
            r.cands_view() == views_of(candidates@),
            r.query_view() == Seq::<char>::empty(),
            r.sel_view() == clamp_sel_spec(None, r.filtered_view().len() as usize),
            r.top_view() == 0,
    {
        let mut s = MentionPopup { query: String::new(), candidates, state: ScrollState::new() };
        let len = s.filtered_items().len();
        s.state.clamp_selection(len);
        s
    }

    /// Replaces the candidates with the given names, sorted with duplicates
    /// dropped, and re-clamps the selection and window.
    pub fn set_candidates(&mut self, candidates: Vec<String>)
        ensures
            strictly_sorted(final(self).cands_view()),
            forall|c: Seq<char>|
                #[trigger] has_candidate(final(self).cands_view(), c) == has_candidate(
                    views_of(candidates@),
                    c,
                ),
            final(self).query_view() == old(self).query_view(),
            final(self).sel_view() == clamp_sel_spec(
                old(self).sel_view(),
                final(self).filtered_view().len() as usize,
            ),
            final(self).top_view() == visible_spec(
                final(self).sel_view(),
                old(self).top_view(),
                final(self).filtered_view().len() as usize,
                if final(self).filtered_view().len() as usize > MAX_POPUP_ROWS {
                    MAX_POPUP_ROWS as usize
                } else {
                    final(self).filtered_view().len() as usize
                },
            ),
    {
        let mut sorted: Vec<String> = Vec::new();
        let mut rest = candidates;
        let ghost all = views_of(rest@);
        let ghost mut i: int = 0;
        proof {
            assert(views_of(rest@) =~= all.skip(0));
            assert(views_of(sorted@) =~= Seq::<Seq<char>>::empty());
        }
        while rest.len() > 0
            invariant
                0 <= i <= all.len(),
                views_of(rest@) =~= all.skip(i),
                strictly_sorted(views_of(sorted@)),
                forall|c: Seq<char>|
                    #[trigger] has_candidate(views_of(sorted@), c) == has_candidate(
                        all.take(i),
                        c,
                    ),
            decreases rest@.len(),
        {
            let cand = rest.remove(0);
            proof {
                assert(views_of(rest@) =~= all.skip(i).drop_first());
                assert(all.skip(i).drop_first() =~= all.skip(i + 1));
                assert(all.skip(i)[0] == all[i]);
                assert(cand@ == all[i]);
            }
            let ghost prev = views_of(sorted@);
            insert_candidate(&mut sorted, cand);
            proof {
                assert forall|c: Seq<char>|
                    #[trigger] has_candidate(views_of(sorted@), c) == has_candidate(
                        all.take(i + 1),
                        c,
                    ) by {
                    assert(has_candidate(views_of(sorted@), c) == (has_candidate(prev, c) || c
                        == all[i]));
                    if has_candidate(all.take(i + 1), c) {
                        let k = choose|k: int| 0 <= k < i + 1 && #[trigger] all.take(i + 1)[k] == c;
                        if k < i {
                            assert(all.take(i)[k] == c);
                        } else {
                            assert(c == all[i]);
                        }
                    }
                    if has_candidate(all.take(i), c) {
                        let k = choose|k: int| 0 <= k < i && #[trigger] all.take(i)[k] == c;
                        assert(all.take(i + 1)[k] == c);
                    }
                    if c == all[i] {
                        assert(all.take(i + 1)[i] == c);
                    }
                }
                i = i + 1;
            }
        }
        proof {
            assert(all.take(all.len() as int) =~= all);
        }
        self.candidates = sorted;
        let len = self.filtered_items().len();
        self.state.clamp_selection(len);
        let visible = if len > MAX_POPUP_ROWS {
            MAX_POPUP_ROWS
        } else {
            len
        };
        self.state.ensure_visible(len, visible);
    }

    /// Replaces the query (trimmed); an unchanged query changes nothing,
    /// otherwise the selection and window are re-clamped.
    pub fn on_query_change(&mut self, query: String)
        ensures
            final(self).query_view() == trim_spec(query@),
            final(self).cands_view() == old(self).cands_view(),
            trim_spec(query@) == old(self).query_view() ==> *final(self) == *old(self),
            trim_spec(query@) != old(self).query_view() ==> {
                &&& final(self).sel_view() == clamp_sel_spec(
                    old(self).sel_view(),
                    final(self).filtered_view().len() as usize,
                )
                &&& final(self).top_view() == visible_spec(
                    final(self).sel_view(),
                    old(self).top_view(),
                    final(self).filtered_view().len() as usize,
                    if final(self).filtered_view().len() as usize > MAX_POPUP_ROWS {
                        MAX_POPUP_ROWS as usize
                    } else {
                        final(self).filtered_view().len() as usize
                    },
                )
            },
    {
        let trimmed = trim_str(query.as_str());
        if str_eq(trimmed.as_str(), self.query.as_str()) {
            return ;
        }
        self.query = trimmed;
        let len = self.filtered_items().len();
        self.state.clamp_selection(len);
        let visible = if len > MAX_POPUP_ROWS {
            MAX_POPUP_ROWS
        } else {
            len
        };
        self.state.ensure_visible(len, visible);
    }

    /// How many candidates the current query keeps.
    pub fn match_count(&self) -> (r: usize)
        ensures
            r == self.filtered_view().len(),
    {
        self.filtered_items().len()
    }

    /// Moves the selection one row up, wrapping.
    pub fn move_up(&mut self)
        ensures
            final(self).query_view() == old(self).query_view(),
            final(self).cands_view() == old(self).cands_view(),
            final(self).sel_view() == up_spec(
                old(self).sel_view(),
                old(self).filtered_view().len() as usize,
            ),
            final(self).top_view() == visible_spec(
                final(self).sel_view(),
                old(self).top_view(),
                old(self).filtered_view().len() as usize,
                if old(self).filtered_view().len() as usize > MAX_POPUP_ROWS {
                    MAX_POPUP_ROWS as usize
                } else {
                    old(self).filtered_view().len() as usize
                },
            ),
    {
        let len = self.filtered_items().len();
        self.state.move_up_wrap(len);
        let visible = if len > MAX_POPUP_ROWS {
            MAX_POPUP_ROWS
        } else {
            len
        };
        self.state.ensure_visible(len, visible);
    }

    /// Moves the selection one row down, wrapping.
    pub fn move_down(&mut self)
        ensures
            final(self).query_view() == old(self).query_view(),
            final(self).cands_view() == old(self).cands_view(),
            final(self).sel_view() == down_spec(
                old(self).sel_view(),
                old(self).filtered_view().len() as usize,
            ),
            final(self).top_view() == visible_spec(
                final(self).sel_view(),
                old(self).top_view(),
                old(self).filtered_view().len() as usize,
                if old(self).filtered_view().len() as usize > MAX_POPUP_ROWS {
                    MAX_POPUP_ROWS as usize
                } else {
                    old(self).filtered_view().len() as usize
                },
            ),
    {
        let len = self.filtered_items().len();
        self.state.move_down_wrap(len);
        let visible = if len > MAX_POPUP_ROWS {
            MAX_POPUP_ROWS
        } else {
            len
        };
        self.state.ensure_visible(len, visible);
    }

    /// The selected candidate, when the selection points at a matching row.
    pub fn selected_mention(&self) -> (r: Option<String>)
        ensures
            match r {
                Some(s) => self.sel_view() matches Some(ix) && ix < self.filtered_view().len()
                    && s@ == self.filtered_view()[ix as int],
                None => match self.sel_view() {
                    Some(ix) => ix >= self.filtered_view().len(),
                    None => true,
                },
            },
    {
        match self.state.selected_idx {
            Some(ix) => {
                let items = self.filtered_items();
                if ix < items.len() {
                    proof {
                        assert(views_of(items@)[ix as int] == items@[ix as int]@);
                    }
                    Some(items[ix].clone())
                } else {
                    None
                }
            },
            None => None,
        }
    }

    /// How many rows the popup needs: one per match, at least one, at most
    /// the row cap.
    pub fn calculate_required_height(&self) -> (r: u16)
        ensures
            r == if self.filtered_view().len() == 0 {
                1int
            } else if self.filtered_view().len() > MAX_POPUP_ROWS {
                MAX_POPUP_ROWS as int
            } else {
                self.filtered_view().len() as int
            },
    {
        let len = self.match_count();
        let h = if len == 0 {
            1
        } else if len > MAX_POPUP_ROWS {
            MAX_POPUP_ROWS
        } else {
            len
        };
        h as u16
    }

    /// The candidates the current query keeps, in order.
    pub fn filtered_items(&self) -> (r: Vec<String>)
        ensures
            views_of(r@) == self.filtered_view(),
    {
        let trimmed = trim_str(self.query.as_str());
        let qc = chars_of(trimmed.as_str());
        let empty_query = qc.len() == 0;
        let mut out: Vec<String> = Vec::new();
        let mut i: usize = 0;
        proof {
            assert(self.cands_view().take(0) =~= Seq::<Seq<char>>::empty());
            assert(views_of(out@) =~= filtered_spec(
                self.cands_view().take(0),
                self.query_view(),
            ));
        }
        while i < self.candidates.len()
            invariant
                i <= self.candidates@.len(),
                qc@ == trim_spec(self.query_view()),
                empty_query == (qc@.len() == 0),
                views_of(out@) == filtered_spec(
                    self.cands_view().take(i as int),
                    self.query_view(),
                ),
            decreases self.candidates@.len() - i,
        {
            proof {
                assert(self.cands_view().take(i + 1).drop_last() =~= self.cands_view().take(
                    i as int,
                ));
                assert(self.cands_view().take(i + 1).last() == self.cands_view()[i as int]);
                assert(self.cands_view()[i as int] == self.candidates@[i as int]@);
            }
            let keep = if empty_query {
                true
            } else {
                is_subseq_match(&qc, self.candidates[i].as_str())
            };
            if keep {
                let ghost prev = views_of(out@);
                out.push(self.candidates[i].clone());
                proof {
                    assert(views_of(out@) =~= prev.push(self.candidates@[i as int]@));
                }
            }
            i += 1;
        }
        proof {
            assert(self.cands_view().take(self.candidates@.len() as int) =~= self.cands_view());
        }
        out
    }
}

} // verus!
