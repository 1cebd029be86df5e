//! Sessions and agents: the participants of the chat network, with their
//! display and mention names.
use vstd::prelude::*;
use crate::strutil::{contains_space, is_space_char, trim_spec, trim_str};
use vstd::string::StrSliceExecFns;

verus! {

/// A named chat room that agents join.
#[derive(Debug, PartialEq, Eq)]
pub struct WeaveSession {
    pub id: String,
    pub name: Option<String>,
}

/// A participant identity; `name` may be absent, display falls back to `id`.
#[derive(Debug, PartialEq, Eq)]
pub struct WeaveAgent {
    pub id: String,
    pub name: Option<String>,
}

pub ghost struct AgentV {
    pub id: Seq<char>,
    pub name: Option<Seq<char>>,
}

impl View for WeaveAgent {
    type V = AgentV;

    open spec fn view(&self) -> AgentV {
        AgentV {
            id: self.id@,
            name: match self.name {
                Some(ref n) => Some(n@),
                None => None,
            },
        }
    }
}

impl View for WeaveSession {
    type V = AgentV;

    open spec fn view(&self) -> AgentV {
        AgentV {
            id: self.id@,
            name: match self.name {
                Some(ref n) => Some(n@),
                None => None,
            },
        }
    }
}

impl Clone for WeaveAgent {
    fn clone(&self) -> (res: Self)
        ensures
            res == *self,
    {
        WeaveAgent {
            id: self.id.clone(),
            name: match &self.name {
                Some(n) => Some(n.clone()),
                None => None,
            },
        }
    }
}

impl Clone for WeaveSession {
    fn clone(&self) -> (res: Self)
        ensures
            res == *self,
    {
        WeaveSession {
            id: self.id.clone(),
            name: match &self.name {
                Some(n) => Some(n.clone()),
                None => None,
            },
        }
    }
}

/// The name shown for a participant: the trimmed name when it is non-empty,
/// else the id.
pub open spec fn display_name_spec(a: AgentV) -> Seq<char> {
    match a.name {
        Some(n) => if trim_spec(n).len() > 0 {
            trim_spec(n)
        } else {
            a.id
        },
        None => a.id,
    }
}

/// The text a `#` mention must match for this agent: the trimmed name when it
/// is non-empty and free of white space, else the id.
pub open spec fn mention_text_spec(a: AgentV) -> Seq<char> {
    match a.name {
        Some(n) => if trim_spec(n).len() > 0 && (forall|i: int|
            0 <= i < trim_spec(n).len() ==> !is_space_char(trim_spec(n)[i])) {
            trim_spec(n)
        } else {
            a.id
        },
        None => a.id,
    }
}

impl WeaveSession {
    /// The name shown for this session, falling back to its id.
    pub fn display_name(&self) -> (r: String)
        ensures
            r@ == display_name_spec(self@),
    {
        match &self.name {
            Some(n) => {
                let t = trim_str(n.as_str());
                if t.as_str().unicode_len() > 0 {
                    t
                } else {
                    self.id.clone()
                }
            },
            None => self.id.clone(),
        }
    }
}

impl WeaveAgent {
    /// The name shown for this agent, falling back to its id.
    pub fn display_name(&self) -> (r: String)
        ensures
            r@ == display_name_spec(self@),
    {
        match &self.name {
            Some(n) => {
                let t = trim_str(n.as_str());
                if t.as_str().unicode_len() > 0 {
                    t
                } else {
                    self.id.clone()
                }
            },
            None => self.id.clone(),
        }
    }

    /// The text a `#` mention must match for this agent.
    pub fn mention_text(&self) -> (r: String)
        ensures
            r@ == mention_text_spec(self@),
    {
        match &self.name {
            Some(n) => {
                let t = trim_str(n.as_str());
                if t.as_str().unicode_len() > 0 && !contains_space(t.as_str()) {
                    t
                } else {
                    self.id.clone()
                }
            },
            None => self.id.clone(),
        }
    }
}

} // verus!
