use vstd::prelude::*;
use vstd::string::StringExecFns;
use crate::request::{DeliberateThinkingRequest, RequestField, ValidationError};

verus! {

/// The character of a decimal digit.
pub open spec fn digit_char(d: nat) -> char {
    seq!['0', '1', '2', '3', '4', '5', '6', '7', '8', '9'][d as int]
}

/// The base-ten digits of `n`, most significant first, without leading zeros.
pub open spec fn decimal(n: nat) -> Seq<char>
    decreases n,
{
    if n < 10 {
        seq![digit_char(n)]
    } else {
        decimal(n / 10).push(digit_char(n % 10))
    }
}

/// Relies on the standard `Display` of `u32`, through `ToString::to_string`:
/// the number in base ten, with no sign, padding or separators.
#[verifier::external_body]
fn decimal_string(n: u32) -> (r: String)
    ensures
        r@ == decimal(n as nat),
{
    n.to_string()
}

impl RequestField {
    /// The field's name on the wire.
    pub open spec fn wire_name_spec(&self) -> Seq<char> {
        match self {
            RequestField::ThoughtNumber => "thoughtNumber"@,
            RequestField::TotalThoughts => "totalThoughts"@,
            RequestField::RevisesThought => "revisesThought"@,
            RequestField::BranchFromThought => "branchFromThought"@,
        }
    }

    /// The field's name on the wire.
    pub fn wire_name(&self) -> (r: &'static str)
        ensures
            r@ == self.wire_name_spec(),
    {
        match self {
            RequestField::ThoughtNumber => "thoughtNumber",
            RequestField::TotalThoughts => "totalThoughts",
            RequestField::RevisesThought => "revisesThought",
            RequestField::BranchFromThought => "branchFromThought",
        }
    }
}

impl ValidationError {
    /// The human-readable message: the field and the minimum it missed.
    pub open spec fn message_spec(&self) -> Seq<char> {
        self.field.wire_name_spec() + " must be at least "@ + decimal(self.minimum as nat)
    }

    /// The human-readable message: the field and the minimum it missed.
    pub fn message(&self) -> (r: String)
        ensures
            r@ == self.message_spec(),
    {
        let mut s = self.field.wire_name().to_owned();
        s.append(" must be at least ");
        let digits = decimal_string(self.minimum);
        s.append(digits.as_str());
        s
    }
}

/// The lines logged for one submission: the step with its count and text,
/// then its branch if it names one, then the revised step if it is flagged
/// as a revision and names its target.
pub open spec fn log_lines(request: &DeliberateThinkingRequest) -> Seq<Seq<char>> {
    let head = "Deliberate Thinking Step "@ + decimal(request.thought_number as nat) + "/"@
        + decimal(request.total_thoughts as nat) + ": "@ + request.thought@;
    let with_branch = match request.branch_id {
        Some(b) => seq![head, "  Branch: "@ + b@],
        None => seq![head],
    };
    match (request.is_revision, request.revises_thought) {
        (Some(true), Some(k)) => with_branch.push("  Revision of thought "@ + decimal(k as nat)),
        _ => with_branch,
    }
}

/// The informational lines to log for one submission.
pub fn log_thought_info(request: &DeliberateThinkingRequest) -> (r: Vec<String>)
    ensures
        r@.map_values(|s: String| s@) == log_lines(request),
{
    let mut lines: Vec<String> = Vec::new();
    let mut head = "Deliberate Thinking Step ".to_owned();
    let number = decimal_string(request.thought_number);
    head.append(number.as_str());
    head.append("/");
    let total = decimal_string(request.total_thoughts);
    head.append(total.as_str());
    head.append(": ");
    head.append(request.thought.as_str());
    lines.push(head);
    if let Some(branch_id) = &request.branch_id {
        let mut line = "  Branch: ".to_owned();
        line.append(branch_id.as_str());
        lines.push(line);
    }
    if let (Some(true), Some(revises)) = (request.is_revision, request.revises_thought) {
        let mut line = "  Revision of thought ".to_owned();
        let target = decimal_string(revises);
        line.append(target.as_str());
        lines.push(line);
    }
    assert(lines@.map_values(|s: String| s@) =~= log_lines(request));
    lines
}

} // verus!
