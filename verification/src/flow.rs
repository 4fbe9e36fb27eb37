//! The interactive flow: read a line, run stage A, run stage B, repeat.
//!
//! Reading the line and everything the stages ask of the outside happen
//! elsewhere; here is how a line is understood, and which node runs next.

use crate::text::{has_prefix, opt_str_view, strip_prefix, to_chars, trim, trimmed};
use vstd::prelude::*;

verus! {

/// How a node ended.
#[derive(Debug, Clone, Copy, PartialEq, Eq, Structural)]
pub enum FlowState {
    Success,
    Failure,
    Exit,
}

/// The nodes of the flow.
#[derive(Debug, Clone, Copy, PartialEq, Eq, Structural)]
pub enum FlowNode {
    GetInput,
    Employee,
    Brain,
    End,
}

/// The node that reads what the user enters.
pub struct GetInputNode;

/// The node at which the flow ends.
pub struct EndNode;

/// What a line that the user entered asks for.
#[derive(Debug, PartialEq, Eq)]
pub enum InputRequest {
    /// To leave.
    Exit,
    /// To transcribe the audio file at this path and process the text.
    Transcribe(String),
    /// To process this text.
    Text(String),
}

/// Mathematical content of an [`InputRequest`].
pub enum InputRequestView {
    Exit,
    Transcribe(Seq<char>),
    Text(Seq<char>),
}

impl View for InputRequest {
    type V = InputRequestView;

    open spec fn view(&self) -> InputRequestView {
        match self {
            InputRequest::Exit => InputRequestView::Exit,
            InputRequest::Transcribe(p) => InputRequestView::Transcribe(p@),
            InputRequest::Text(t) => InputRequestView::Text(t@),
        }
    }
}

/// What a line asks for; `None` stands for the end of the input. The line
/// is trimmed; `exit` and the end of the input ask to leave; a line that
/// begins with `stt:` names an audio file, whose path is the rest, trimmed.
pub open spec fn request_of(line: Option<Seq<char>>) -> InputRequestView {
    match line {
        None => InputRequestView::Exit,
        Some(l) => {
            let raw = trimmed(l);
            if raw == "exit"@ {
                InputRequestView::Exit
            } else if has_prefix(raw, "stt:"@) {
                InputRequestView::Transcribe(
                    trimmed(raw.subrange("stt:"@.len() as int, raw.len() as int)),
                )
            } else {
                InputRequestView::Text(raw)
            }
        },
    }
}

/// The node that runs after `node` ended in `state`, if any.
pub open spec fn successor(node: FlowNode, state: FlowState) -> Option<FlowNode> {
    match (node, state) {
        (FlowNode::GetInput, FlowState::Success) => Some(FlowNode::Employee),
        (FlowNode::GetInput, FlowState::Failure) => Some(FlowNode::GetInput),
        (FlowNode::GetInput, FlowState::Exit) => Some(FlowNode::End),
        (FlowNode::Employee, FlowState::Success) => Some(FlowNode::Brain),
        (FlowNode::Employee, FlowState::Failure) => Some(FlowNode::GetInput),
        (FlowNode::Brain, FlowState::Success) => Some(FlowNode::GetInput),
        (FlowNode::Brain, FlowState::Failure) => Some(FlowNode::GetInput),
        _ => None,
    }
}

impl GetInputNode {
    /// What a line asks for; `None` stands for the end of the input.
    pub fn interpret(line: Option<&str>) -> (r: InputRequest)
        ensures
            r@ == request_of(
                opt_str_view(line),
            ),
    {
        match line {
            None => InputRequest::Exit,
            Some(l) => {
                let raw = trim(l);
                if raw.eq("exit") {
                    InputRequest::Exit
                } else {
                    match strip_prefix(raw, "stt:") {
                        Some(path) => InputRequest::Transcribe(trim(path.as_str()).to_owned()),
                        None => InputRequest::Text(raw.to_owned()),
                    }
                }
            },
        }
    }

    /// How the node ends: in failure where reading or transcribing failed
    /// (`request` is `None`), with an exit where the user asked to leave,
    /// else in success.
    pub fn post_process(request: Option<&InputRequest>) -> (r: FlowState)
        ensures
            r == (match request {
                None => FlowState::Failure,
                Some(InputRequest::Exit) => FlowState::Exit,
                Some(_) => FlowState::Success,
            }),
    {
        match request {
            None => FlowState::Failure,
            Some(InputRequest::Exit) => FlowState::Exit,
            Some(_) => FlowState::Success,
        }
    }
}

impl EndNode {
    /// How the node ends: always with an exit.
    pub fn post_process() -> (r: FlowState)
        ensures
            r == FlowState::Exit,
    {
        FlowState::Exit
    }
}

impl FlowState {
    /// How a stage ends: in success where its work succeeded, else in
    /// failure.
    pub fn of_stage(succeeded: bool) -> (r: FlowState)
        ensures
            r == (if succeeded {
                FlowState::Success
            } else {
                FlowState::Failure
            }),
    {
        if succeeded {
            FlowState::Success
        } else {
            FlowState::Failure
        }
    }
}

impl FlowNode {
    /// The node that runs after this one ended in `state`, if any.
    pub fn next(&self, state: FlowState) -> (r: Option<FlowNode>)
        ensures
            r == successor(*self, state),
    {
        match (self, state) {
            (FlowNode::GetInput, FlowState::Success) => Some(FlowNode::Employee),
            (FlowNode::GetInput, FlowState::Failure) => Some(FlowNode::GetInput),
            (FlowNode::GetInput, FlowState::Exit) => Some(FlowNode::End),
            (FlowNode::Employee, FlowState::Success) => Some(FlowNode::Brain),
            (FlowNode::Employee, FlowState::Failure) => Some(FlowNode::GetInput),
            (FlowNode::Brain, FlowState::Success) => Some(FlowNode::GetInput),
            (FlowNode::Brain, FlowState::Failure) => Some(FlowNode::GetInput),
            _ => None,
        }
    }
}

/// A character with an ASCII upper-case letter turned into lower case.
pub open spec fn ascii_lower(c: char) -> char {
    if c == 'T' {
        't'
    } else if c == 'R' {
        'r'
    } else if c == 'U' {
        'u'
    } else if c == 'E' {
        'e'
    } else {
        c
    }
}

/// Whether a text reads `true`, whatever the case of its letters.
pub open spec fn reads_true(s: Seq<char>) -> bool {
    &&& s.len() == 4
    &&& ascii_lower(s[0]) == 't'
    &&& ascii_lower(s[1]) == 'r'
    &&& ascii_lower(s[2]) == 'u'
    &&& ascii_lower(s[3]) == 'e'
}

/// Whether the HTTP interface is served rather than the interactive flow:
/// unless the setting is given and is neither `1` nor `true`.
pub open spec fn serves_http(setting: Option<Seq<char>>) -> bool {
    match setting {
        Some(v) => v == seq!['1'] || reads_true(v),
        None => true,
    }
}

/// Whether `c` is the letter `lower` in either case, for a lower-case
/// letter of `true`.
fn is_letter(c: char, lower: char, upper: char) -> (r: bool)
    ensures
        r == (c == lower || c == upper),
{
    c == lower || c == upper
}

/// Whether the HTTP interface is served rather than the interactive flow.
pub fn http_enabled(setting: Option<&str>) -> (r: bool)
    ensures
        r == serves_http(
            opt_str_view(setting),
        ),
{
    match setting {
        None => true,
        Some(v) => {
            let c = to_chars(v);
            if c.len() == 1 {
                assert(v@ =~= seq![v@[0]]);
                c[0] == '1'
            } else if c.len() == 4 {
                is_letter(c[0], 't', 'T') && is_letter(c[1], 'r', 'R') && is_letter(c[2], 'u', 'U')
                    && is_letter(c[3], 'e', 'E')
            } else {
                false
            }
        },
    }
}

} // verus!
