//! The tool-calling turn: seeding, request counting, dispatch decisions
//! and the conversation's shape.

use aish::agent::{
    classify_call, command_result_text, parse_model_reply, tool_error_text, unknown_tool_text,
    AgentTurn, ChatMessage, Dispatch, Role, ToolCall, TurnPhase,
};
use aish::json::{parse_json, Json};
use aish::registry::ToolRegistry;

fn field<'a>(v: &'a Json, key: &str) -> Option<&'a Json> {
    match v {
        Json::Obj(m) => m.iter().rev().find(|(k, _)| k == key.as_bytes()).map(|(_, w)| w),
        _ => None,
    }
}

fn text_reply(text: &str) -> ChatMessage {
    ChatMessage {
        role: Role::Assistant,
        content: Some(text.as_bytes().to_vec()),
        tool_calls: None,
        tool_call_id: None,
    }
}

fn run_command_reply(id: &str, arguments: &str) -> ChatMessage {
    ChatMessage {
        role: Role::Assistant,
        content: Some(b"**** Running command".to_vec()),
        tool_calls: Some(vec![ToolCall {
            id: id.as_bytes().to_vec(),
            call_kind: b"function".to_vec(),
            name: b"run_command".to_vec(),
            arguments: arguments.as_bytes().to_vec(),
        }]),
        tool_call_id: None,
    }
}

#[test]
fn plain_reply_ends_turn_after_one_request() {
    let reg = ToolRegistry::new();
    let mut turn = AgentTurn::start(b"hello".to_vec());
    assert_eq!(turn.requests_sent, 0);
    let _body = turn.take_request(&b"gpt-4".to_vec(), &b"0.7".to_vec(), 1000, &reg);
    turn.on_reply(text_reply("hi there"));
    assert_eq!(turn.phase, TurnPhase::Done);
    assert_eq!(turn.requests_sent, 1);
    assert_eq!(turn.conversation.len(), 3);
    assert_eq!(turn.answer, Some(b"hi there".to_vec()));
}

#[test]
fn one_command_turn_reaches_endpoint_twice() {
    let reg = ToolRegistry::new();
    let mut turn = AgentTurn::start(b"say hi".to_vec());
    let _first = turn.take_request(&b"gpt-4".to_vec(), &b"0.7".to_vec(), 1000, &reg);
    turn.on_reply(run_command_reply("call_1", "{\"command\":\"echo hi\"}"));
    assert_eq!(turn.phase, TurnPhase::Dispatching);
    match turn.classify_current(&reg) {
        Dispatch::RunCommand(cmd) => assert_eq!(cmd, b"echo hi".to_vec()),
        _ => panic!("the built-in tool must be classified as a command run"),
    }
    let output = command_result_text(&b"hi\n".to_vec(), &b"".to_vec(), true, 0);
    assert_eq!(output, b"hi\n".to_vec());
    turn.record_result(output);
    assert_eq!(turn.phase, TurnPhase::ReadyToSend);
    let _second = turn.take_request(&b"gpt-4".to_vec(), &b"0.7".to_vec(), 1000, &reg);
    turn.on_reply(text_reply("done"));
    assert_eq!(turn.requests_sent, 2);
    assert_eq!(turn.phase, TurnPhase::Done);
    assert_eq!(turn.conversation.len(), 5);
    assert_eq!(turn.conversation[2].role, Role::Assistant);
    assert_eq!(turn.conversation[3].role, Role::Tool);
    assert_eq!(turn.conversation[3].content, Some(b"hi\n".to_vec()));
    assert_eq!(turn.conversation[3].tool_call_id, Some(b"call_1".to_vec()));
    assert_eq!(turn.conversation[4].role, Role::Assistant);
    let tool_messages = turn.conversation[2..]
        .iter()
        .filter(|m| m.role == Role::Tool)
        .count();
    assert_eq!(tool_messages, 1);
}

#[test]
fn failed_command_is_recorded_and_turn_continues() {
    let reg = ToolRegistry::new();
    let mut turn = AgentTurn::start(b"try it".to_vec());
    let _body = turn.take_request(&b"gpt-4".to_vec(), &b"0.7".to_vec(), 1000, &reg);
    turn.on_reply(run_command_reply("call_9", "{\"command\":\"false\"}"));
    let text = command_result_text(&b"partial".to_vec(), &b"went wrong".to_vec(), false, 1);
    assert_eq!(
        String::from_utf8(text.clone()).unwrap(),
        "partial\nSTDERR: went wrong\nExit code: 1"
    );
    turn.record_result(text);
    assert_ne!(turn.phase, TurnPhase::Failed);
    assert_eq!(turn.phase, TurnPhase::ReadyToSend);
    assert_eq!(turn.conversation.len(), 4);
    assert_eq!(turn.conversation[3].role, Role::Tool);
}

#[test]
fn malformed_arguments_abort_the_turn() {
    let reg = ToolRegistry::new();
    let call = ToolCall {
        id: b"x".to_vec(),
        call_kind: b"function".to_vec(),
        name: b"run_command".to_vec(),
        arguments: b"{not json".to_vec(),
    };
    assert!(matches!(classify_call(&call, &reg), Dispatch::Invalid));
    let no_command = ToolCall {
        id: b"x".to_vec(),
        call_kind: b"function".to_vec(),
        name: b"run_command".to_vec(),
        arguments: b"{\"other\":1}".to_vec(),
    };
    assert!(matches!(classify_call(&no_command, &reg), Dispatch::Invalid));
}

#[test]
fn known_and_unknown_tools_classify_apart() {
    let mut reg = ToolRegistry::new();
    assert!(reg.register(b"git_status".to_vec(), b"d".to_vec(), &b"{}".to_vec()));
    let known = ToolCall {
        id: b"1".to_vec(),
        call_kind: b"function".to_vec(),
        name: b"git_status".to_vec(),
        arguments: b"{}".to_vec(),
    };
    match classify_call(&known, &reg) {
        Dispatch::ScriptTool(name, args) => {
            assert_eq!(name, b"git_status".to_vec());
            assert_eq!(args, b"{}".to_vec());
        },
        _ => panic!("a registered tool must go to the script"),
    }
    let unknown = ToolCall {
        id: b"2".to_vec(),
        call_kind: b"function".to_vec(),
        name: b"mystery".to_vec(),
        arguments: b"{}".to_vec(),
    };
    match classify_call(&unknown, &reg) {
        Dispatch::Unknown(name) => {
            assert_eq!(unknown_tool_text(&name), b"Unknown tool: mystery".to_vec())
        },
        _ => panic!("an unregistered tool must be reported unknown"),
    }
    assert_eq!(tool_error_text(&b"boom".to_vec()), b"Tool error: boom".to_vec());
}

#[test]
fn request_body_carries_protocol_fields() {
    let mut reg = ToolRegistry::new();
    assert!(reg.register(b"read_file".to_vec(), b"reads".to_vec(), &b"{}".to_vec()));
    let mut turn = AgentTurn::start(b"what is in x?".to_vec());
    let body = turn.take_request(&b"gpt-4o".to_vec(), &b"0.2".to_vec(), 256, &reg);
    let v = parse_json(&body).expect("the request body must be valid JSON");
    assert!(matches!(field(&v, "model"), Some(Json::Str(m)) if m == b"gpt-4o"));
    assert!(matches!(field(&v, "tool_choice"), Some(Json::Str(c)) if c == b"auto"));
    assert!(matches!(field(&v, "temperature"), Some(Json::Num(t)) if t == b"0.2"));
    assert!(matches!(field(&v, "max_tokens"), Some(Json::Num(n)) if n == b"256"));
    match field(&v, "messages") {
        Some(Json::Arr(ms)) => {
            assert_eq!(ms.len(), 2);
            assert!(matches!(field(&ms[0], "role"), Some(Json::Str(r)) if r == b"system"));
            assert!(matches!(field(&ms[1], "role"), Some(Json::Str(r)) if r == b"user"));
        },
        _ => panic!("the body must carry the conversation"),
    }
    match field(&v, "tools") {
        Some(Json::Arr(ts)) => {
            assert_eq!(ts.len(), 2, "the built-in tool plus one registered tool");
            let f0 = field(&ts[0], "function").unwrap();
            assert!(matches!(field(f0, "name"), Some(Json::Str(n)) if n == b"run_command"));
            let f1 = field(&ts[1], "function").unwrap();
            assert!(matches!(field(f1, "name"), Some(Json::Str(n)) if n == b"read_file"));
        },
        _ => panic!("the body must carry the merged catalogue"),
    }
}

#[test]
fn reply_parsing_reads_message_and_calls() {
    let body = "{\"choices\":[{\"message\":{\"role\":\"assistant\",\"content\":null,\
        \"tool_calls\":[{\"id\":\"c1\",\"type\":\"function\",\"function\":\
        {\"name\":\"run_command\",\"arguments\":\"{\\\"command\\\":\\\"ls\\\"}\"}}]},\
        \"finish_reason\":\"tool_calls\"}]}";
    let m = parse_model_reply(&body.as_bytes().to_vec()).expect("a well-shaped reply must parse");
    assert_eq!(m.role, Role::Assistant);
    assert_eq!(m.content, None);
    let calls = m.tool_calls.expect("the call list must be kept");
    assert_eq!(calls.len(), 1);
    assert_eq!(calls[0].id, b"c1".to_vec());
    assert_eq!(calls[0].name, b"run_command".to_vec());
    assert_eq!(calls[0].arguments, b"{\"command\":\"ls\"}".to_vec());
}

#[test]
fn reply_parsing_rejects_unusable_bodies() {
    for bad in [
        "not json",
        "{}",
        "{\"choices\":[]}",
        "{\"choices\":[{\"message\":{\"content\":\"no role\"}}]}",
        "{\"choices\":[{\"message\":{\"role\":\"oracle\"}}]}",
    ] {
        assert!(parse_model_reply(&bad.as_bytes().to_vec()).is_none(), "{:?}", bad);
    }
}

#[test]
fn aborted_turn_keeps_its_conversation() {
    let reg = ToolRegistry::new();
    let mut turn = AgentTurn::start(b"hi".to_vec());
    let _body = turn.take_request(&b"gpt-4".to_vec(), &b"0.7".to_vec(), 1000, &reg);
    turn.abort();
    assert_eq!(turn.phase, TurnPhase::Failed);
    assert_eq!(turn.conversation.len(), 2);
}

#[test]
fn request_cap_stops_further_sending() {
    let reg = ToolRegistry::new();
    let mut turn = AgentTurn::start_with_limit(b"hi".to_vec(), 1);
    assert!(turn.can_send());
    let _body = turn.take_request(&b"gpt-4".to_vec(), &b"0.7".to_vec(), 1000, &reg);
    assert!(!turn.can_send(), "the cap admits no second request");
    let default_turn = AgentTurn::start(b"hi".to_vec());
    assert_eq!(default_turn.request_limit, 25);
}
