use deliberate_thinking::ledger::DeliberateThinkingState;
use deliberate_thinking::request::{
    DeliberateThinkingRequest, DeliberateThinkingResponse, RequestField, Submission, ValidationError,
};
use deliberate_thinking::text::log_thought_info;
use deliberate_thinking::thought::ThoughtData;

fn request(text: &str, number: u32, total: u32) -> DeliberateThinkingRequest {
    DeliberateThinkingRequest {
        thought: text.to_string(),
        next_thought_needed: true,
        thought_number: number,
        total_thoughts: total,
        is_revision: None,
        revises_thought: None,
        branch_from_thought: None,
        branch_id: None,
        needs_more_thoughts: None,
    }
}

fn revision(text: &str, number: u32, target: u32) -> DeliberateThinkingRequest {
    let mut r = request(text, number, 5);
    r.is_revision = Some(true);
    r.revises_thought = Some(target);
    r
}

fn branch(text: &str, number: u32, from: u32, id: &str) -> DeliberateThinkingRequest {
    let mut r = request(text, number, 5);
    r.branch_from_thought = Some(from);
    r.branch_id = Some(id.to_string());
    r
}

fn texts(state: &DeliberateThinkingState) -> Vec<String> {
    state.get_current_history().iter().map(|t| t.thought.clone()).collect()
}

fn numbers(state: &DeliberateThinkingState) -> Vec<u32> {
    state.get_current_history().iter().map(|t| t.thought_number).collect()
}

fn submit(state: &mut DeliberateThinkingState, r: DeliberateThinkingRequest) -> DeliberateThinkingResponse {
    state.process_request(r).unwrap()
}

#[test]
fn invalid_numbers_leave_ledger_unchanged() {
    let mut state = DeliberateThinkingState::new();
    submit(&mut state, request("A", 1, 3));
    let err = state.process_request(request("bad", 0, 3)).unwrap_err();
    assert_eq!(err, ValidationError { field: RequestField::ThoughtNumber, minimum: 1 });
    let err = state.process_request(request("bad", 2, 0)).unwrap_err();
    assert_eq!(err, ValidationError { field: RequestField::TotalThoughts, minimum: 1 });
    assert_eq!(state.get_history_length(), 1);
    assert_eq!(texts(&state), vec!["A".to_string()]);
}

#[test]
fn each_field_minimum_is_reported() {
    let r = revision("x", 2, 0);
    assert_eq!(r.validate(), Err(ValidationError { field: RequestField::RevisesThought, minimum: 1 }));
    let r = branch("x", 2, 0, "b");
    assert_eq!(r.validate(), Err(ValidationError { field: RequestField::BranchFromThought, minimum: 1 }));
    let mut r = request("x", 0, 0);
    r.revises_thought = Some(0);
    assert_eq!(r.validate(), Err(ValidationError { field: RequestField::ThoughtNumber, minimum: 1 }));
    assert_eq!(branch("x", 1, 1, "b").validate(), Ok(()));
}

#[test]
fn validation_messages_name_field_and_minimum() {
    let e = ValidationError { field: RequestField::ThoughtNumber, minimum: 1 };
    assert_eq!(e.message(), "thoughtNumber must be at least 1");
    let e = ValidationError { field: RequestField::BranchFromThought, minimum: 250 };
    assert_eq!(e.message(), "branchFromThought must be at least 250");
    assert_eq!(RequestField::TotalThoughts.wire_name(), "totalThoughts");
    assert_eq!(RequestField::RevisesThought.wire_name(), "revisesThought");
}

#[test]
fn plain_submissions_count_up() {
    let mut state = DeliberateThinkingState::new();
    for n in 1..=4u32 {
        let resp = submit(&mut state, request("step", n, 4));
        assert_eq!(resp.thought_history_length, n);
        assert!(resp.branches.is_empty());
    }
    assert_eq!(numbers(&state), vec![1, 2, 3, 4]);
}

#[test]
fn revision_replaces_matching_step() {
    let mut state = DeliberateThinkingState::new();
    submit(&mut state, request("A", 1, 3));
    submit(&mut state, request("B", 2, 3));
    submit(&mut state, request("C", 3, 3));
    let resp = submit(&mut state, revision("B2", 2, 2));
    assert_eq!(resp.thought_history_length, 3);
    assert_eq!(texts(&state), vec!["A".to_string(), "B2".to_string(), "C".to_string()]);
}

#[test]
fn revision_replaces_only_first_match() {
    let mut state = DeliberateThinkingState::new();
    submit(&mut state, request("A", 2, 3));
    submit(&mut state, request("B", 2, 3));
    submit(&mut state, revision("R", 4, 2));
    assert_eq!(texts(&state), vec!["R".to_string(), "B".to_string()]);
    assert_eq!(numbers(&state), vec![4, 2]);
}

#[test]
fn revision_of_missing_step_appends() {
    let mut state = DeliberateThinkingState::new();
    submit(&mut state, request("A", 1, 3));
    let resp = submit(&mut state, revision("Z", 2, 9));
    assert_eq!(resp.thought_history_length, 2);
    assert_eq!(texts(&state), vec!["A".to_string(), "Z".to_string()]);
}

#[test]
fn revise_or_append_on_empty_list_appends() {
    let mut v: Vec<ThoughtData> = Vec::new();
    let t = ThoughtData::from(request("only", 1, 1));
    DeliberateThinkingState::revise_or_append(&mut v, 1, t);
    assert_eq!(v.len(), 1);
    assert_eq!(v[0].thought, "only");
}

#[test]
fn revising_twice_equals_revising_once() {
    let mut once = DeliberateThinkingState::new();
    let mut twice = DeliberateThinkingState::new();
    for s in [&mut once, &mut twice] {
        submit(s, request("A", 1, 3));
        submit(s, request("B", 2, 3));
    }
    let a = submit(&mut once, revision("B'", 2, 2));
    submit(&mut twice, revision("B'", 2, 2));
    let b = submit(&mut twice, revision("B'", 2, 2));
    assert_eq!(texts(&once), texts(&twice));
    assert_eq!(numbers(&once), numbers(&twice));
    assert_eq!(a.thought_history_length, b.thought_history_length);
    assert_eq!(a.branches, b.branches);
}

#[test]
fn branch_copies_prefix_up_to_origin() {
    let mut state = DeliberateThinkingState::new();
    submit(&mut state, request("A", 1, 5));
    submit(&mut state, request("B", 2, 5));
    submit(&mut state, request("C", 3, 5));
    let resp = submit(&mut state, branch("B-alt", 3, 2, "b1"));
    assert_eq!(resp.branches, vec!["b1".to_string()]);
    assert_eq!(resp.thought_history_length, 3);
    assert_eq!(texts(&state), vec!["A".to_string(), "B".to_string(), "B-alt".to_string()]);
    assert_eq!(state.current_branch(), Some("b1".to_string()));
}

#[test]
fn branch_prefix_stops_at_first_larger_number() {
    let mut state = DeliberateThinkingState::new();
    submit(&mut state, request("A", 1, 5));
    submit(&mut state, request("C", 3, 5));
    submit(&mut state, request("B", 2, 5));
    let resp = submit(&mut state, branch("X", 4, 2, "b1"));
    assert_eq!(resp.thought_history_length, 2);
    assert_eq!(texts(&state), vec!["A".to_string(), "X".to_string()]);
}

#[test]
fn plain_after_branch_goes_to_branch() {
    let mut state = DeliberateThinkingState::new();
    submit(&mut state, request("A", 1, 5));
    submit(&mut state, request("B", 2, 5));
    submit(&mut state, branch("B-alt", 2, 1, "b1"));
    let resp = submit(&mut state, request("C-alt", 3, 5));
    assert_eq!(resp.thought_history_length, 3);
    assert_eq!(texts(&state), vec!["A".to_string(), "B-alt".to_string(), "C-alt".to_string()]);
    let mut fresh_main = DeliberateThinkingState::new();
    submit(&mut fresh_main, request("A", 1, 5));
    let resp = submit(&mut fresh_main, request("B", 2, 5));
    assert_eq!(resp.thought_history_length, 2);
}

#[test]
fn existing_branch_is_extended_not_replaced() {
    let mut state = DeliberateThinkingState::new();
    submit(&mut state, request("A", 1, 5));
    submit(&mut state, branch("B1", 2, 1, "b1"));
    submit(&mut state, branch("C2", 2, 1, "b2"));
    let resp = submit(&mut state, branch("B1b", 3, 1, "b1"));
    assert_eq!(resp.branches, vec!["b1".to_string(), "b2".to_string()]);
    assert_eq!(resp.thought_history_length, 3);
    assert_eq!(texts(&state), vec!["A".to_string(), "B1".to_string(), "B1b".to_string()]);
    assert_eq!(state.current_branch(), Some("b1".to_string()));
}

#[test]
fn branch_fields_take_precedence_over_revision() {
    let mut state = DeliberateThinkingState::new();
    submit(&mut state, request("A", 1, 5));
    submit(&mut state, request("B", 2, 5));
    let mut r = branch("X", 3, 1, "alt");
    r.revises_thought = Some(1);
    r.is_revision = Some(true);
    assert!(matches!(r.classify(), Submission::Branch { from: 1, .. }));
    let resp = submit(&mut state, r);
    assert_eq!(resp.branches, vec!["alt".to_string()]);
    assert_eq!(texts(&state), vec!["A".to_string(), "X".to_string()]);
}

#[test]
fn branch_id_without_origin_is_not_a_branch() {
    let mut r = request("x", 2, 3);
    r.branch_id = Some("b".to_string());
    assert!(matches!(r.classify(), Submission::Plain));
    r.revises_thought = Some(1);
    assert!(matches!(r.classify(), Submission::Revision { target: 1 }));
}

#[test]
fn concrete_scenario_with_alt_branch() {
    let mut state = DeliberateThinkingState::new();
    let resp = submit(&mut state, request("A", 1, 3));
    assert_eq!(resp.thought_number, 1);
    assert_eq!(resp.total_thoughts, 3);
    assert!(resp.next_thought_needed);
    assert!(resp.branches.is_empty());
    assert_eq!(resp.thought_history_length, 1);
    let resp = submit(&mut state, branch("B-alt", 2, 1, "alt"));
    assert_eq!(resp.thought_number, 2);
    assert_eq!(resp.branches, vec!["alt".to_string()]);
    assert_eq!(resp.thought_history_length, 2);
}

#[test]
fn log_lines_cover_branch_and_revision() {
    let mut r = request("think", 12, 30);
    assert_eq!(log_thought_info(&r), vec!["Deliberate Thinking Step 12/30: think".to_string()]);
    r.branch_id = Some("b7".to_string());
    r.is_revision = Some(true);
    r.revises_thought = Some(105);
    assert_eq!(
        log_thought_info(&r),
        vec![
            "Deliberate Thinking Step 12/30: think".to_string(),
            "  Branch: b7".to_string(),
            "  Revision of thought 105".to_string(),
        ]
    );
    r.is_revision = Some(false);
    assert_eq!(log_thought_info(&r).len(), 2);
}

#[test]
fn response_echoes_request() {
    let mut r = request("x", 7, 9);
    r.next_thought_needed = false;
    let resp = DeliberateThinkingResponse::new(&r, vec!["a".to_string()], 4);
    assert_eq!(resp.thought_number, 7);
    assert_eq!(resp.total_thoughts, 9);
    assert!(!resp.next_thought_needed);
    assert_eq!(resp.branches, vec!["a".to_string()]);
    assert_eq!(resp.thought_history_length, 4);
}

#[test]
fn thought_from_request_keeps_fields() {
    let r = branch("x", 3, 2, "b");
    let t = ThoughtData::from(r.duplicate());
    assert_eq!(t.thought, "x");
    assert_eq!(t.thought_number, 3);
    assert_eq!(t.branch_from_thought, Some(2));
    assert_eq!(t.branch_id, Some("b".to_string()));
    assert_eq!(t.duplicate().thought, "x");
}
