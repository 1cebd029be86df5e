//! Mention-based addressing: `#name` tokens in outgoing text are resolved,
//! case-insensitively, to the known agents they name. The sender itself is
//! skipped and each recipient appears once, in first-mention order.
use vstd::prelude::*;
use crate::agents::{mention_text_spec, AgentV, WeaveAgent};
use crate::strutil::{
    chars_of, is_label_char, is_space, is_space_char, label_char, lower_seq, lower_str, str_eq,
    string_of, sub_chars,
};

verus! {

/// The white-space-separated pieces of `s`; `n` separator characters give
/// `n + 1` pieces, so runs of spaces give empty pieces, which resolve to
/// nothing.
pub open spec fn split_spaces(s: Seq<char>) -> Seq<Seq<char>>
    decreases s.len(),
{
    if s.len() == 0 {
        seq![Seq::<char>::empty()]
    } else if is_space_char(s[0]) {
        seq![Seq::<char>::empty()] + split_spaces(s.drop_first())
    } else {
        let rest = split_spaces(s.drop_first());
        seq![seq![s[0]] + rest[0]] + rest.drop_first()
    }
}

proof fn lemma_split_spaces_len(s: Seq<char>)
    ensures
        split_spaces(s).len() >= 1,
    decreases s.len(),
{
    if s.len() > 0 {
        lemma_split_spaces_len(s.drop_first());
    }
}

proof fn lemma_split_spaces_push(s: Seq<char>, c: char)
    ensures
        ({
            let parts = split_spaces(s);
            split_spaces(s.push(c)) == if is_space_char(c) {
                parts.push(Seq::<char>::empty())
            } else {
                parts.update(parts.len() - 1, parts.last().push(c))
            }
        }),
    decreases s.len(),
{
    lemma_split_spaces_len(s);
    let parts = split_spaces(s);
    if s.len() == 0 {
        assert(s.push(c) =~= seq![c]);
        assert(seq![c].drop_first() =~= Seq::<char>::empty());
        assert(s.push(c)[0] == c);
        assert(split_spaces(Seq::<char>::empty()) == seq![Seq::<char>::empty()]);
        if is_space_char(c) {
            assert(split_spaces(s.push(c)) == seq![Seq::<char>::empty()] + split_spaces(
                s.push(c).drop_first(),
            ));
            assert(split_spaces(s.push(c).drop_first()) == seq![Seq::<char>::empty()]);
            assert(split_spaces(s.push(c)) =~~= parts.push(Seq::<char>::empty()));
        } else {
            assert(seq![c] + split_spaces(Seq::<char>::empty())[0] =~= seq![c]);
            assert(split_spaces(s.push(c)) =~~= parts.update(
                parts.len() - 1,
                parts.last().push(c),
            ));
        }
    } else {
        let t = s.drop_first();
        assert(s.push(c).drop_first() =~= t.push(c));
        assert(s.push(c)[0] == s[0]);
        lemma_split_spaces_push(t, c);
        lemma_split_spaces_len(t);
        let rest = split_spaces(t);
        if is_space_char(s[0]) {
            if is_space_char(c) {
                assert(split_spaces(s.push(c)) =~~= parts.push(Seq::<char>::empty()));
            } else {
                assert(split_spaces(s.push(c)) =~~= parts.update(
                    parts.len() - 1,
                    parts.last().push(c),
                ));
            }
        } else {
            if is_space_char(c) {
                let restp = rest.push(Seq::<char>::empty());
                assert(restp[0] == rest[0]);
                assert(restp.drop_first() =~~= rest.drop_first().push(Seq::<char>::empty()));
                assert(split_spaces(s.push(c)) =~~= parts.push(Seq::<char>::empty()));
            } else {
                let restp = rest.update(rest.len() - 1, rest.last().push(c));
                if rest.len() == 1 {
                    assert(restp[0] == rest[0].push(c));
                    assert(restp.drop_first() =~~= rest.drop_first());
                    assert(seq![s[0]] + rest[0].push(c) =~= (seq![s[0]] + rest[0]).push(c));
                    assert(split_spaces(s.push(c)) =~~= parts.update(
                        parts.len() - 1,
                        parts.last().push(c),
                    ));
                } else {
                    assert(restp[0] == rest[0]);
                    assert(restp.drop_first() =~~= rest.drop_first().update(
                        rest.len() - 2,
                        rest.last().push(c),
                    ));
                    assert(parts.last() == rest.last());
                    assert(split_spaces(s.push(c)) =~~= parts.update(
                        parts.len() - 1,
                        parts.last().push(c),
                    ));
                }
            }
        }
    }
}

/// First index at or after `i` whose character cannot stand in a label;
/// `s.len()` if the label run reaches the end.
pub open spec fn label_run(s: Seq<char>, i: int) -> int
    decreases s.len() - i,
{
    if 0 <= i < s.len() && is_label_char(s[i]) {
        label_run(s, i + 1)
    } else {
        i
    }
}

/// The mention label of a token: after a leading `#`, the longest run of
/// ASCII alphanumerics, `-` and `_`; empty runs resolve to nothing.
pub open spec fn mention_label_spec(token: Seq<char>) -> Option<Seq<char>> {
    if token.len() > 0 && token[0] == '#' {
        let rest = token.skip(1);
        let end = label_run(rest, 0);
        if end > 0 {
            Some(rest.take(end))
        } else {
            None
        }
    } else {
        None
    }
}

/// The views of a sequence of agents.
pub open spec fn agent_views(s: Seq<WeaveAgent>) -> Seq<AgentV> {
    s.map_values(|a: WeaveAgent| a@)
}

/// The first agent whose lower-cased mention text equals `label_lower`:
/// on colliding mention texts the earliest agent wins.
pub open spec fn lookup_agent(agents: Seq<AgentV>, label_lower: Seq<char>) -> Option<AgentV>
    decreases agents.len(),
{
    if agents.len() == 0 {
        None
    } else if lower_seq(mention_text_spec(agents[0])) == label_lower {
        Some(agents[0])
    } else {
        lookup_agent(agents.drop_first(), label_lower)
    }
}

/// Whether some agent of `s` has the id `id`.
pub open spec fn has_agent_id(s: Seq<AgentV>, id: Seq<char>) -> bool {
    exists|i: int| 0 <= i < s.len() && s[i].id == id
}

pub open spec fn opt_str_view(o: Option<&str>) -> Option<Seq<char>> {
    match o {
        Some(s) => Some(s@),
        None => None,
    }
}

/// How one token extends the recipient list: a resolvable `#` label adds its
/// agent unless it names the sender or is already collected.
pub open spec fn mention_step(
    acc: Seq<AgentV>,
    agents: Seq<AgentV>,
    self_id: Option<Seq<char>>,
    token: Seq<char>,
) -> Seq<AgentV> {
    match mention_label_spec(token) {
        Some(label) => match lookup_agent(agents, lower_seq(label)) {
            Some(agent) => {
                if (self_id matches Some(sid) && agent.id == sid) || has_agent_id(acc, agent.id) {
                    acc
                } else {
                    acc.push(agent)
                }
            },
            None => acc,
        },
        None => acc,
    }
}

/// The recipients of a token list, in first-mention order.
pub open spec fn resolve_mentions_spec(
    tokens: Seq<Seq<char>>,
    agents: Seq<AgentV>,
    self_id: Option<Seq<char>>,
) -> Seq<AgentV>
    decreases tokens.len(),
{
    if tokens.len() == 0 {
        Seq::empty()
    } else {
        mention_step(
            resolve_mentions_spec(tokens.drop_last(), agents, self_id),
            agents,
            self_id,
            tokens.last(),
        )
    }
}

/// The label of a `#` mention token, if it has one.
pub fn parse_weave_mention_label(token: &str) -> (r: Option<String>)
    ensures
        (r is Some) == (mention_label_spec(token@) is Some),
        r matches Some(l) ==> Some(l@) == mention_label_spec(token@),
{
    let cs = chars_of(token);
    if cs.len() == 0 {
        return None;
    }
    if cs[0] != '#' {
        return None;
    }
    let ghost rest = token@.skip(1);
    let mut end: usize = 1;
    while end < cs.len() && label_char(cs[end])
        invariant
            1 <= end <= cs@.len(),
            cs@ == token@,
            rest == token@.skip(1),
            forall|j: int| 1 <= j < end ==> is_label_char(token@[j]),
            label_run(rest, 0) == label_run(rest, end - 1),
        decreases cs@.len() - end,
    {
        proof {
            assert(rest[end - 1] == token@[end as int]);
        }
        end += 1;
    }
    proof {
        if end < cs@.len() {
            assert(rest[end - 1] == token@[end as int]);
        }
        assert(label_run(rest, end - 1) == end - 1);
    }
    if end == 1 {
        return None;
    }
    let ls = sub_chars(&cs, 1, end);
    proof {
        assert(ls@ =~= rest.take(end - 1));
    }
    Some(string_of(&ls))
}

/// The index of the first agent whose lower-cased mention text is
/// `label_lower`.
fn lookup_agent_index(agents: &Vec<WeaveAgent>, label_lower: &str) -> (r: Option<usize>)
    ensures
        match r {
            Some(ix) => ix < agents@.len() && lookup_agent(agent_views(agents@), label_lower@)
                == Some(agent_views(agents@)[ix as int]),
            None => lookup_agent(agent_views(agents@), label_lower@) is None,
        },
{
    let ghost full = agent_views(agents@);
    let mut i: usize = 0;
    proof {
        assert(full.skip(0) =~= full);
    }
    while i < agents.len()
        invariant
            i <= agents@.len(),
            full == agent_views(agents@),
            lookup_agent(full, label_lower@) == lookup_agent(full.skip(i as int), label_lower@),
        decreases agents@.len() - i,
    {
        let mt = agents[i].mention_text();
        let low = lower_str(mt.as_str());
        proof {
            assert(full.skip(i as int)[0] == full[i as int]);
            assert(full[i as int] == agents@[i as int]@);
        }
        if str_eq(low.as_str(), label_lower) {
            return Some(i);
        }
        proof {
            assert(full.skip(i as int).drop_first() =~= full.skip(i + 1));
        }
        i += 1;
    }
    proof {
        assert(full.skip(agents@.len() as int) =~= Seq::<AgentV>::empty());
    }
    None
}

/// Whether some collected recipient has the id `id`.
fn contains_agent_id(v: &Vec<WeaveAgent>, id: &str) -> (r: bool)
    ensures
        r == has_agent_id(agent_views(v@), id@),
{
    let mut i: usize = 0;
    while i < v.len()
        invariant
            i <= v@.len(),
            forall|j: int| 0 <= j < i ==> agent_views(v@)[j].id != id@,
        decreases v@.len() - i,
    {
        if str_eq(v[i].id.as_str(), id) {
            proof {
                assert(agent_views(v@)[i as int].id == id@);
            }
            return true;
        }
        i += 1;
    }
    false
}

/// Applies one token to the collected recipients.
pub fn process_weave_token(
    recipients: &mut Vec<WeaveAgent>,
    agents: &Vec<WeaveAgent>,
    self_agent_id: Option<&str>,
    token: &str,
)
    ensures
        agent_views(final(recipients)@) == mention_step(
            agent_views(old(recipients)@),
            agent_views(agents@),
            opt_str_view(self_agent_id),
            token@,
        ),
{
    match parse_weave_mention_label(token) {
        None => {},
        Some(label) => {
            let low = lower_str(label.as_str());
            match lookup_agent_index(agents, low.as_str()) {
                None => {},
                Some(ix) => {
                    let agent = &agents[ix];
                    proof {
                        assert(agent_views(agents@)[ix as int] == agents@[ix as int]@);
                    }
                    let is_self = match self_agent_id {
                        Some(sid) => str_eq(agent.id.as_str(), sid),
                        None => false,
                    };
                    if !is_self && !contains_agent_id(recipients, agent.id.as_str()) {
                        let ghost prev = agent_views(recipients@);
                        recipients.push(agent.clone());
                        proof {
                            assert(agent_views(recipients@) =~= prev.push(agents@[ix as int]@));
                        }
                    }
                },
            }
        },
    }
}

/// Resolves the `#` mentions of `text` against `agents`, skipping
/// `self_agent_id`, each recipient once, in first-mention order.
pub fn find_weave_mentions(
    text: &str,
    agents: &Vec<WeaveAgent>,
    self_agent_id: Option<&str>,
) -> (r: Vec<WeaveAgent>)
    ensures
        agent_views(r@) == resolve_mentions_spec(
            split_spaces(text@),
            agent_views(agents@),
            opt_str_view(self_agent_id),
        ),
{
    let cs = chars_of(text);
    let mut recipients: Vec<WeaveAgent> = Vec::new();
    let mut cur: Vec<char> = Vec::new();
    let mut i: usize = 0;
    proof {
        assert(text@.take(0) =~= Seq::<char>::empty());
        assert(split_spaces(text@.take(0)) == seq![Seq::<char>::empty()]);
        assert(agent_views(recipients@) =~= resolve_mentions_spec(
            split_spaces(text@.take(0)).drop_last(),
            agent_views(agents@),
            opt_str_view(self_agent_id),
        ));
    }
    while i < cs.len()
        invariant
            i <= cs@.len(),
            cs@ == text@,
            agents@ == agents@,
            agent_views(recipients@) == resolve_mentions_spec(
                split_spaces(text@.take(i as int)).drop_last(),
                agent_views(agents@),
                opt_str_view(self_agent_id),
            ),
            cur@ == split_spaces(text@.take(i as int)).last(),
            split_spaces(text@.take(i as int)).len() >= 1,
        decreases cs@.len() - i,
    {
        let c = cs[i];
        let ghost parts = split_spaces(text@.take(i as int));
        proof {
            lemma_split_spaces_push(text@.take(i as int), c);
            assert(text@.take(i + 1 as int) =~= text@.take(i as int).push(text@[i as int]));
            lemma_split_spaces_len(text@.take(i + 1 as int));
        }
        if is_space(c) {
            let tok = string_of(&cur);
            process_weave_token(&mut recipients, agents, self_agent_id, tok.as_str());
            cur = Vec::new();
            proof {
                let partsp = split_spaces(text@.take(i + 1 as int));
                assert(partsp == parts.push(Seq::<char>::empty()));
                assert(partsp.drop_last() =~~= parts);
                assert(partsp.last() == Seq::<char>::empty());
                assert(cur@ =~= partsp.last());
            }
        } else {
            cur.push(c);
            proof {
                let partsp = split_spaces(text@.take(i + 1 as int));
                assert(partsp == parts.update(parts.len() - 1, parts.last().push(c)));
                assert(partsp.drop_last() =~~= parts.drop_last());
                assert(partsp.last() == parts.last().push(c));
            }
        }
        i += 1;
    }
    proof {
        assert(text@.take(cs@.len() as int) =~= text@);
    }
    let tok = string_of(&cur);
    process_weave_token(&mut recipients, agents, self_agent_id, tok.as_str());
    recipients
}

} // verus!
