use vstd::prelude::*;
use crate::thought::{ThoughtData, ThoughtView, copy_opt_string, opt_str_view};

verus! {

/// The smallest value accepted for a step number or a step count.
pub const MIN_STEP_NUMBER: u32 = 1;

/// One submission: a reasoning step and how it is to be recorded.
#[derive(Debug, Clone)]
pub struct DeliberateThinkingRequest {
    pub thought: String,
    pub next_thought_needed: bool,
    pub thought_number: u32,
    pub total_thoughts: u32,
    pub is_revision: Option<bool>,
    pub revises_thought: Option<u32>,
    pub branch_from_thought: Option<u32>,
    pub branch_id: Option<String>,
    pub needs_more_thoughts: Option<bool>,
}

/// The numeric request fields that carry a minimum.
#[derive(Debug, Clone, Copy, PartialEq, Eq, Structural)]
pub enum RequestField {
    ThoughtNumber,
    TotalThoughts,
    RevisesThought,
    BranchFromThought,
}

/// A request field below its minimum.
#[derive(Debug, Clone, Copy, PartialEq, Eq, Structural)]
pub struct ValidationError {
    pub field: RequestField,
    pub minimum: u32,
}

/// How a submission is recorded.
#[derive(Debug)]
pub enum Submission {
    /// Start or continue the branch `branch_id`, created from step `from`.
    Branch { from: u32, branch_id: String },
    /// Revise step `target` of the active timeline.
    Revision { target: u32 },
    /// Append to the active timeline.
    Plain,
}

/// Whether an optional value is present and below `min`.
pub open spec fn below_min(v: Option<u32>, min: u32) -> bool {
    match v {
        Some(x) => x < min,
        None => false,
    }
}

impl DeliberateThinkingRequest {
    /// The first field, in the order checked, that is below its minimum.
    pub open spec fn first_invalid_field(&self) -> Option<RequestField> {
        if self.thought_number < MIN_STEP_NUMBER {
            Some(RequestField::ThoughtNumber)
        } else if self.total_thoughts < MIN_STEP_NUMBER {
            Some(RequestField::TotalThoughts)
        } else if below_min(self.revises_thought, MIN_STEP_NUMBER) {
            Some(RequestField::RevisesThought)
        } else if below_min(self.branch_from_thought, MIN_STEP_NUMBER) {
            Some(RequestField::BranchFromThought)
        } else {
            None
        }
    }

    /// The outcome of validation: the first field below its minimum, if any.
    pub open spec fn validation(&self) -> Result<(), ValidationError> {
        match self.first_invalid_field() {
            Some(f) => Err(ValidationError { field: f, minimum: MIN_STEP_NUMBER }),
            None => Ok(()),
        }
    }

    /// How this request is recorded: both branch fields make a branch
    /// submission, else a revision target makes a revision, else it is plain.
    pub open spec fn submission(&self) -> Submission {
        match (self.branch_from_thought, self.branch_id) {
            (Some(from), Some(id)) => Submission::Branch { from, branch_id: id },
            _ => match self.revises_thought {
                Some(k) => Submission::Revision { target: k },
                None => Submission::Plain,
            },
        }
    }

    /// The step this request records.
    pub open spec fn thought_view(&self) -> ThoughtView {
        ThoughtView {
            thought: self.thought@,
            thought_number: self.thought_number,
            total_thoughts: self.total_thoughts,
            next_thought_needed: self.next_thought_needed,
            is_revision: self.is_revision,
            revises_thought: self.revises_thought,
            branch_from_thought: self.branch_from_thought,
            branch_id: opt_str_view(self.branch_id),
            needs_more_thoughts: self.needs_more_thoughts,
        }
    }

    /// Checks each numeric field against its minimum and reports the first
    /// one below it.
    pub fn validate(&self) -> (r: Result<(), ValidationError>)
        ensures
            r == self.validation(),
    {
        validate_min_value(RequestField::ThoughtNumber, self.thought_number, MIN_STEP_NUMBER)?;
        validate_min_value(RequestField::TotalThoughts, self.total_thoughts, MIN_STEP_NUMBER)?;
        if let Some(revises) = self.revises_thought {
            validate_min_value(RequestField::RevisesThought, revises, MIN_STEP_NUMBER)?;
        }
        if let Some(branch_from) = self.branch_from_thought {
            validate_min_value(RequestField::BranchFromThought, branch_from, MIN_STEP_NUMBER)?;
        }
        Ok(())
    }

    /// Decides how this request is recorded.
    pub fn classify(&self) -> (r: Submission)
        ensures
            r == self.submission(),
    {
        match (self.branch_from_thought, &self.branch_id) {
            (Some(from), Some(id)) => Submission::Branch { from, branch_id: id.clone() },
            _ => match self.revises_thought {
                Some(k) => Submission::Revision { target: k },
                None => Submission::Plain,
            },
        }
    }

    /// A field-for-field copy of this request.
    pub fn duplicate(&self) -> (r: DeliberateThinkingRequest)
        ensures
            r == *self,
    {
        DeliberateThinkingRequest {
            thought: self.thought.clone(),
            next_thought_needed: self.next_thought_needed,
            thought_number: self.thought_number,
            total_thoughts: self.total_thoughts,
            is_revision: self.is_revision,
            revises_thought: self.revises_thought,
            branch_from_thought: self.branch_from_thought,
            branch_id: copy_opt_string(&self.branch_id),
            needs_more_thoughts: self.needs_more_thoughts,
        }
    }
}

/// Fails with `field` and `min` when `value` is below `min`.
pub fn validate_min_value(field: RequestField, value: u32, min: u32) -> (r: Result<(), ValidationError>)
    ensures
        r == (if value < min {
            Err(ValidationError { field, minimum: min })
        } else {
            Ok(())
        }),
{
    if value < min {
        Err(ValidationError { field, minimum: min })
    } else {
        Ok(())
    }
}

impl From<DeliberateThinkingRequest> for ThoughtData {
    fn from(req: DeliberateThinkingRequest) -> (r: Self) {
        ThoughtData {
            thought: req.thought,
            thought_number: req.thought_number,
            total_thoughts: req.total_thoughts,
            next_thought_needed: req.next_thought_needed,
            is_revision: req.is_revision,
            revises_thought: req.revises_thought,
            branch_from_thought: req.branch_from_thought,
            branch_id: req.branch_id,
            needs_more_thoughts: req.needs_more_thoughts,
        }
    }
}

impl vstd::std_specs::convert::FromSpecImpl<DeliberateThinkingRequest> for ThoughtData {
    open spec fn obeys_from_spec() -> bool {
        true
    }

    open spec fn from_spec(req: DeliberateThinkingRequest) -> Self {
        ThoughtData {
            thought: req.thought,
            thought_number: req.thought_number,
            total_thoughts: req.total_thoughts,
            next_thought_needed: req.next_thought_needed,
            is_revision: req.is_revision,
            revises_thought: req.revises_thought,
            branch_from_thought: req.branch_from_thought,
            branch_id: req.branch_id,
            needs_more_thoughts: req.needs_more_thoughts,
        }
    }
}

/// What a submission reports back: the echoed step fields, the known branch
/// names and the length of the active timeline after the submission.
#[derive(Debug, Clone)]
pub struct DeliberateThinkingResponse {
    pub thought_number: u32,
    pub total_thoughts: u32,
    pub next_thought_needed: bool,
    pub branches: Vec<String>,
    pub thought_history_length: u32,
}

impl DeliberateThinkingResponse {
    /// A response echoing `request` with the given branch names and length.
    pub fn new(request: &DeliberateThinkingRequest, branches: Vec<String>, thought_history_length: u32) -> (r: Self)
        ensures
            r.thought_number == request.thought_number,
            r.total_thoughts == request.total_thoughts,
            r.next_thought_needed == request.next_thought_needed,
            r.branches == branches,
            r.thought_history_length == thought_history_length,
    {
        DeliberateThinkingResponse {
            thought_number: request.thought_number,
            total_thoughts: request.total_thoughts,
            next_thought_needed: request.next_thought_needed,
            branches,
            thought_history_length,
        }
    }
}

} // verus!
