//! What the agent is called.

use vstd::prelude::*;

verus! {

/// What the agent is called: its command, its name, and the file in which a
/// project keeps notes for it.
#[derive(Debug)]
pub struct AgentNames {
    pub command: String,
    pub title: String,
    pub guide: String,
}

/// What the agent is called, by value.
pub struct AgentNamesView {
    pub command: Seq<char>,
    pub title: Seq<char>,
    pub guide: Seq<char>,
}

impl View for AgentNames {
    type V = AgentNamesView;

    open spec fn view(&self) -> AgentNamesView {
        AgentNamesView { command: self.command@, title: self.title@, guide: self.guide@ }
    }
}

impl Clone for AgentNames {
    fn clone(&self) -> (r: Self)
        ensures
            r@ == self@,
    {
        AgentNames {
            command: self.command.clone(),
            title: self.title.clone(),
            guide: self.guide.clone(),
        }
    }
}

} // verus!
