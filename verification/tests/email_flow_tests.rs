use orgbrain::email::{canonical_employee_id_from_email, derive_topics};
use orgbrain::flow::{EndNode, FlowNode, FlowState, GetInputNode, InputRequest};

#[test]
fn canonical_ids_replace_everything_but_letters_and_digits() {
    assert_eq!(
        canonical_employee_id_from_email("John.Doe@Example.com"),
        "employee_email_john_doe_example_com"
    );
    assert_eq!(canonical_employee_id_from_email("  a1@b2.io \n"), "employee_email_a1_b2_io");
    assert_eq!(canonical_employee_id_from_email(""), "employee_email_");
    assert_eq!(canonical_employee_id_from_email("x y+z"), "employee_email_x_y_z");
    assert_eq!(canonical_employee_id_from_email("é@ü"), "employee_email____");
}

#[test]
fn topics_come_from_the_subject() {
    assert_eq!(derive_topics(&Some("  Q3 Budget ".to_string())), vec!["q3 budget".to_string()]);
    assert_eq!(derive_topics(&Some("   ".to_string())), vec!["(no subject)".to_string()]);
    assert_eq!(derive_topics(&None), vec!["(no subject)".to_string()]);
}

#[test]
fn lines_are_understood_as_requests() {
    assert_eq!(GetInputNode::interpret(None), InputRequest::Exit);
    assert_eq!(GetInputNode::interpret(Some("exit\n")), InputRequest::Exit);
    assert_eq!(GetInputNode::interpret(Some("  exit  ")), InputRequest::Exit);
    assert_eq!(GetInputNode::interpret(Some("Exit")), InputRequest::Text("Exit".to_string()));
    assert_eq!(
        GetInputNode::interpret(Some("stt: /tmp/a.wav \n")),
        InputRequest::Transcribe("/tmp/a.wav".to_string())
    );
    assert_eq!(GetInputNode::interpret(Some("stt:")), InputRequest::Transcribe(String::new()));
    assert_eq!(
        GetInputNode::interpret(Some(" raise the budget \n")),
        InputRequest::Text("raise the budget".to_string())
    );
    assert_eq!(GetInputNode::interpret(Some("")), InputRequest::Text(String::new()));
}

#[test]
fn nodes_end_in_the_right_state() {
    assert_eq!(GetInputNode::post_process(None), FlowState::Failure);
    assert_eq!(GetInputNode::post_process(Some(&InputRequest::Exit)), FlowState::Exit);
    assert_eq!(
        GetInputNode::post_process(Some(&InputRequest::Text("x".to_string()))),
        FlowState::Success
    );
    assert_eq!(
        GetInputNode::post_process(Some(&InputRequest::Transcribe("p".to_string()))),
        FlowState::Success
    );
    assert_eq!(EndNode::post_process(), FlowState::Exit);
    assert_eq!(FlowState::of_stage(true), FlowState::Success);
    assert_eq!(FlowState::of_stage(false), FlowState::Failure);
}

#[test]
fn the_flow_follows_its_edges() {
    assert_eq!(FlowNode::GetInput.next(FlowState::Success), Some(FlowNode::Employee));
    assert_eq!(FlowNode::GetInput.next(FlowState::Failure), Some(FlowNode::GetInput));
    assert_eq!(FlowNode::GetInput.next(FlowState::Exit), Some(FlowNode::End));
    assert_eq!(FlowNode::Employee.next(FlowState::Success), Some(FlowNode::Brain));
    assert_eq!(FlowNode::Employee.next(FlowState::Failure), Some(FlowNode::GetInput));
    assert_eq!(FlowNode::Employee.next(FlowState::Exit), None);
    assert_eq!(FlowNode::Brain.next(FlowState::Success), Some(FlowNode::GetInput));
    assert_eq!(FlowNode::Brain.next(FlowState::Failure), Some(FlowNode::GetInput));
    assert_eq!(FlowNode::Brain.next(FlowState::Exit), None);
    assert_eq!(FlowNode::End.next(FlowState::Success), None);
    assert_eq!(FlowNode::End.next(FlowState::Exit), None);
}
