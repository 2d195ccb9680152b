use vstd::prelude::*;

verus! {

/// The mathematical value of an optional string.
pub open spec fn opt_str_view(o: Option<String>) -> Option<Seq<char>> {
    match o {
        Some(s) => Some(s@),
        None => None,
    }
}

/// The value of one recorded reasoning step.
pub struct ThoughtView {
    pub thought: Seq<char>,
    pub thought_number: u32,
    pub total_thoughts: u32,
    pub next_thought_needed: bool,
    pub is_revision: Option<bool>,
    pub revises_thought: Option<u32>,
    pub branch_from_thought: Option<u32>,
    pub branch_id: Option<Seq<char>>,
    pub needs_more_thoughts: Option<bool>,
}

/// One recorded reasoning step with its sequence metadata.
#[derive(Debug, Clone)]
pub struct ThoughtData {
    pub thought: String,
    pub thought_number: u32,
    pub total_thoughts: u32,
    pub next_thought_needed: bool,
    pub is_revision: Option<bool>,
    pub revises_thought: Option<u32>,
    pub branch_from_thought: Option<u32>,
    pub branch_id: Option<String>,
    pub needs_more_thoughts: Option<bool>,
}

impl View for ThoughtData {
    type V = ThoughtView;

    open spec fn view(&self) -> ThoughtView {
        ThoughtView {
            thought: self.thought@,
            thought_number: self.thought_number,
            total_thoughts: self.total_thoughts,
            next_thought_needed: self.next_thought_needed,
            is_revision: self.is_revision,
            revises_thought: self.revises_thought,
            branch_from_thought: self.branch_from_thought,
            branch_id: opt_str_view(self.branch_id),
            needs_more_thoughts: self.needs_more_thoughts,
        }
    }
}

/// The value of a timeline: its steps in order.
pub open spec fn timeline_view(s: Seq<ThoughtData>) -> Seq<ThoughtView> {
    s.map_values(|t: ThoughtData| t@)
}

/// A copy of an optional string.
pub fn copy_opt_string(o: &Option<String>) -> (r: Option<String>)
    ensures
        r == *o,
{
    match o {
        Some(s) => Some(s.clone()),
        None => None,
    }
}

impl ThoughtData {
    /// A field-for-field copy of this step.
    pub fn duplicate(&self) -> (r: ThoughtData)
        ensures
            r == *self,
    {
        ThoughtData {
            thought: self.thought.clone(),
            thought_number: self.thought_number,
            total_thoughts: self.total_thoughts,
            next_thought_needed: self.next_thought_needed,
            is_revision: self.is_revision,
            revises_thought: self.revises_thought,
            branch_from_thought: self.branch_from_thought,
            branch_id: copy_opt_string(&self.branch_id),
            needs_more_thoughts: self.needs_more_thoughts,
        }
    }
}

} // verus!
