//! The tool-calling turn with the remote model.
//!
//! A turn seeds a conversation with the fixed system instruction and the
//! user's request, sends it to the model together with the merged tool
//! catalogue, and then either finishes on a plain answer or dispatches the
//! tool invocations the model asked for, appending one tool-result message
//! per invocation, and asks again. [`AgentTurn`] is that state machine; the
//! host program only moves bytes: it sends the request bodies built here,
//! hands every reply back, runs the commands and script calls decided here,
//! and hands their output back.

use vstd::prelude::*;
use crate::json::{Json, JsonVal, ser, sp_json, write_json, parse_json, view_seq, view_members,
    lemma_view_seq_len, lemma_view_seq_index, lemma_view_members_len, lemma_view_members_index};
use crate::registry::ToolRegistry;
use crate::bridge::descriptor_val;
use crate::text::{bytes_of, byte_vec, bytes_eq_str, copy_bytes, dec_digits, dec_u64, int_digits,
    dec_i64};

verus! {

/// Who a conversation message is from.
#[derive(Clone, Copy, Debug, PartialEq, Eq, Structural)]
pub enum Role {
    System,
    User,
    Assistant,
    Tool,
}

/// The protocol spelling of a role.
pub open spec fn role_bytes(r: Role) -> Seq<u8> {
    match r {
        Role::System => bytes_of("system"),
        Role::User => bytes_of("user"),
        Role::Assistant => bytes_of("assistant"),
        Role::Tool => bytes_of("tool"),
    }
}

/// One tool invocation requested by the model: a correlation id, the
/// protocol's call type, the tool's name and the raw JSON text of its
/// arguments.
pub struct ToolCall {
    pub id: Vec<u8>,
    pub call_kind: Vec<u8>,
    pub name: Vec<u8>,
    pub arguments: Vec<u8>,
}

/// The model of one tool invocation.
pub struct CallVal {
    pub id: Seq<u8>,
    pub call_kind: Seq<u8>,
    pub name: Seq<u8>,
    pub arguments: Seq<u8>,
}

/// The model of one executable invocation.
pub open spec fn call_model(c: ToolCall) -> CallVal {
    CallVal { id: c.id@, call_kind: c.call_kind@, name: c.name@, arguments: c.arguments@ }
}

/// The element-wise model of a sequence of invocations.
pub open spec fn calls_model(a: Seq<ToolCall>) -> Seq<CallVal>
    decreases a,
{
    if a.len() == 0 {
        Seq::empty()
    } else {
        seq![call_model(a[0])] + calls_model(a.subrange(1, a.len() as int))
    }
}

/// A sequence of invocations and its model have the same length.
pub broadcast proof fn lemma_calls_model_len(a: Seq<ToolCall>)
    ensures
        #[trigger] calls_model(a).len() == a.len(),
    decreases a,
{
    if a.len() > 0 {
        lemma_calls_model_len(a.subrange(1, a.len() as int));
    }
}

/// The model of a sequence of invocations, taken element by element.
pub broadcast proof fn lemma_calls_model_index(a: Seq<ToolCall>, i: int)
    requires
        0 <= i < a.len(),
    ensures
        #[trigger] calls_model(a)[i] == call_model(a[i]),
    decreases a,
{
    lemma_calls_model_len(a);
    if i > 0 {
        lemma_calls_model_index(a.subrange(1, a.len() as int), i - 1);
    }
}

/// One conversation message: a role, optional text, the invocations an
/// assistant message requests, and for a tool-result message the id of the
/// invocation it answers.
pub struct ChatMessage {
    pub role: Role,
    pub content: Option<Vec<u8>>,
    pub tool_calls: Option<Vec<ToolCall>>,
    pub tool_call_id: Option<Vec<u8>>,
}

/// The model of one message.
pub struct MsgVal {
    pub role: Role,
    pub content: Option<Seq<u8>>,
    pub tool_calls: Option<Seq<CallVal>>,
    pub tool_call_id: Option<Seq<u8>>,
}

/// The model of one executable message.
pub open spec fn msg_model(m: ChatMessage) -> MsgVal {
    MsgVal {
        role: m.role,
        content: match m.content {
            Option::Some(c) => Option::Some(c@),
            Option::None => Option::None,
        },
        tool_calls: match m.tool_calls {
            Option::Some(a) => Option::Some(calls_model(a@)),
            Option::None => Option::None,
        },
        tool_call_id: match m.tool_call_id {
            Option::Some(t) => Option::Some(t@),
            Option::None => Option::None,
        },
    }
}

/// The element-wise model of a conversation.
pub open spec fn conv_model(a: Seq<ChatMessage>) -> Seq<MsgVal>
    decreases a,
{
    if a.len() == 0 {
        Seq::empty()
    } else {
        seq![msg_model(a[0])] + conv_model(a.subrange(1, a.len() as int))
    }
}

/// A conversation and its model have the same length.
pub broadcast proof fn lemma_conv_model_len(a: Seq<ChatMessage>)
    ensures
        #[trigger] conv_model(a).len() == a.len(),
    decreases a,
{
    if a.len() > 0 {
        lemma_conv_model_len(a.subrange(1, a.len() as int));
    }
}

/// The model of a conversation, taken message by message.
pub broadcast proof fn lemma_conv_model_index(a: Seq<ChatMessage>, i: int)
    requires
        0 <= i < a.len(),
    ensures
        #[trigger] conv_model(a)[i] == msg_model(a[i]),
    decreases a,
{
    lemma_conv_model_len(a);
    if i > 0 {
        lemma_conv_model_index(a.subrange(1, a.len() as int), i - 1);
    }
}

/// Appending a message appends its model.
pub broadcast proof fn lemma_conv_model_push(a: Seq<ChatMessage>, m: ChatMessage)
    ensures
        #[trigger] conv_model(a.push(m)) == conv_model(a).push(msg_model(m)),
{
    broadcast use lemma_conv_model_len, lemma_conv_model_index;

    assert(conv_model(a.push(m)) =~= conv_model(a).push(msg_model(m)));
}

/// The fixed system instruction that seeds every turn.
pub open spec fn system_prompt_bytes() -> Seq<u8> {
    bytes_of(
        "You are an AI assistant integrated into a Unix shell called 'aish'. Your role is to help users accomplish tasks by analyzing their requests and executing appropriate commands when needed.\n\nYou have access to a 'run_command' tool that can execute shell commands. Use this tool when the user's request requires running commands.\n\nWhen you use run_command, always prefix your explanation with:\n'**** Running command'\nThen show the command being executed with a '$ ' prefix.\n\nAfter executing commands and getting the results, provide a helpful response to the user. If the command output answers their question, you can simply acknowledge the result. If additional explanation is needed, provide it.\n\nAlways be concise and helpful.",
    )
}

/// The system message of a fresh conversation.
pub open spec fn system_msg() -> MsgVal {
    MsgVal {
        role: Role::System,
        content: Option::Some(system_prompt_bytes()),
        tool_calls: Option::None,
        tool_call_id: Option::None,
    }
}

/// The user message carrying the request text.
pub open spec fn user_msg(prompt: Seq<u8>) -> MsgVal {
    MsgVal {
        role: Role::User,
        content: Option::Some(prompt),
        tool_calls: Option::None,
        tool_call_id: Option::None,
    }
}

/// A tool-result message answering the invocation `id` with `text`.
pub open spec fn tool_msg(id: Seq<u8>, text: Seq<u8>) -> MsgVal {
    MsgVal {
        role: Role::Tool,
        content: Option::Some(text),
        tool_calls: Option::None,
        tool_call_id: Option::Some(id),
    }
}

/// Whether a reply carries no tool invocations at all.
pub open spec fn no_calls(m: MsgVal) -> bool {
    m.tool_calls is None || m.tool_calls->Some_0.len() == 0
}

/// The text a tool-result message gets for a finished command: the captured
/// standard output; the captured standard error after a `STDERR: ` tag; and
/// for a failing command an `Exit code: ` line. Stream sections are
/// separated by single newlines and included only when nonempty.
pub open spec fn spec_command_result_text(
    stdout: Seq<u8>,
    stderr: Seq<u8>,
    success: bool,
    code: int,
) -> Seq<u8> {
    let part1: Seq<u8> = stdout;
    let part2: Seq<u8> = if stderr.len() > 0 {
        if part1.len() > 0 {
            part1 + seq![0x0a] + bytes_of("STDERR: ") + stderr
        } else {
            bytes_of("STDERR: ") + stderr
        }
    } else {
        part1
    };
    if !success {
        if part2.len() > 0 {
            part2 + seq![0x0a] + bytes_of("Exit code: ") + int_digits(code)
        } else {
            bytes_of("Exit code: ") + int_digits(code)
        }
    } else {
        part2
    }
}

/// Appends all of `tail` to `out`.
pub fn push_all(out: &mut Vec<u8>, tail: &Vec<u8>)
    ensures
        final(out)@ == old(out)@ + tail@,
{
    let mut k: usize = 0;
    while k < tail.len()
        invariant
            0 <= k <= tail.len(),
            out@ == old(out)@ + tail@.take(k as int),
        decreases tail.len() - k,
    {
        out.push(tail[k]);
        proof {
            assert(tail@.take(k + 1) =~= tail@.take(k as int) + seq![tail@[k as int]]);
            assert(old(out)@ + (tail@.take(k as int) + seq![tail@[k as int]]) =~= (old(out)@
                + tail@.take(k as int)) + seq![tail@[k as int]]);
        }
        k = k + 1;
    }
    proof {
        assert(tail@.take(tail@.len() as int) =~= tail@);
    }
}

/// Appends the bytes of a string slice to `out`.
pub fn push_str_bytes(out: &mut Vec<u8>, s: &str)
    ensures
        final(out)@ == old(out)@ + bytes_of(s),
{
    let v = byte_vec(s);
    push_all(out, &v);
}

/// Builds the tool-result text of a finished command.
pub fn command_result_text(stdout: &Vec<u8>, stderr: &Vec<u8>, success: bool, code: i32) -> (r: Vec<
    u8,
>)
    ensures
        r@ == spec_command_result_text(stdout@, stderr@, success, code as int),
{
    let mut out: Vec<u8> = Vec::new();
    proof {
        assert(out@ =~= Seq::<u8>::empty());
    }
    push_all(&mut out, stdout);
    proof {
        assert(Seq::<u8>::empty() + stdout@ =~= stdout@);
    }
    if stderr.len() > 0 {
        if out.len() > 0 {
            out.push(0x0a);
            proof {
                assert(out@ =~= stdout@ + seq![0x0a_u8]);
            }
        }
        push_str_bytes(&mut out, "STDERR: ");
        push_all(&mut out, stderr);
    }
    let ghost part2 = out@;
    proof {
        if stderr@.len() > 0 {
            if stdout@.len() > 0 {
                assert(part2 =~= stdout@ + seq![0x0a_u8] + bytes_of("STDERR: ") + stderr@);
            } else {
                assert(part2 =~= bytes_of("STDERR: ") + stderr@);
            }
        }
        assert(part2 == spec_command_result_text(stdout@, stderr@, true, code as int));
    }
    if !success {
        if out.len() > 0 {
            out.push(0x0a);
            proof {
                assert(out@ =~= part2 + seq![0x0a_u8]);
            }
        }
        push_str_bytes(&mut out, "Exit code: ");
        let digits = dec_i64(code as i64);
        push_all(&mut out, &digits);
        proof {
            if part2.len() > 0 {
                assert(out@ =~= part2 + seq![0x0a_u8] + bytes_of("Exit code: ") + int_digits(
                    code as int,
                ));
            } else {
                assert(out@ =~= bytes_of("Exit code: ") + int_digits(code as int));
            }
        }
    }
    out
}

/// The textual result recorded for a request naming no known tool.
pub open spec fn spec_unknown_tool_text(name: Seq<u8>) -> Seq<u8> {
    bytes_of("Unknown tool: ") + name
}

/// Builds the textual result for a request naming no known tool.
pub fn unknown_tool_text(name: &Vec<u8>) -> (r: Vec<u8>)
    ensures
        r@ == spec_unknown_tool_text(name@),
{
    let mut out = byte_vec("Unknown tool: ");
    push_all(&mut out, name);
    out
}

/// The textual result recorded when a script tool's dispatch failed.
pub open spec fn spec_tool_error_text(message: Seq<u8>) -> Seq<u8> {
    bytes_of("Tool error: ") + message
}

/// Builds the textual result for a failed script-tool dispatch.
pub fn tool_error_text(message: &Vec<u8>) -> (r: Vec<u8>)
    ensures
        r@ == spec_tool_error_text(message@),
{
    let mut out = byte_vec("Tool error: ");
    push_all(&mut out, message);
    out
}

/// The value of an object member, later members shadowing earlier ones of
/// the same key, as the reference JSON reader has it.
pub open spec fn obj_lookup(m: Seq<(Seq<u8>, JsonVal)>, k: Seq<u8>) -> Option<JsonVal>
    decreases m.len(),
{
    if m.len() == 0 {
        Option::None
    } else {
        let rest = obj_lookup(m.subrange(1, m.len() as int), k);
        if rest is Some {
            rest
        } else if m[0].0 == k {
            Option::Some(m[0].1)
        } else {
            Option::None
        }
    }
}

/// Finds the value of an object member, later members shadowing earlier
/// ones.
#[verifier::loop_isolation(false)]
pub fn json_obj_get<'a>(m: &'a Vec<(Vec<u8>, Json)>, k: &str) -> (r: Option<&'a Json>)
    ensures
        r matches Some(v) ==> obj_lookup(view_members(m@), bytes_of(k)) == Option::Some(v@),
        r is None ==> obj_lookup(view_members(m@), bytes_of(k)) is None,
{
    broadcast use lemma_view_members_len, lemma_view_members_index;

    let mut i: usize = m.len();
    proof {
        lemma_view_members_len(m@);
        assert(view_members(m@).take(i as int) =~= view_members(m@));
    }
    while i > 0
        invariant
            0 <= i <= m.len(),
            obj_lookup(view_members(m@), bytes_of(k)) == obj_lookup(
                view_members(m@).take(i as int),
                bytes_of(k),
            ),
        decreases i,
    {
        i = i - 1;
        proof {
            lemma_view_members_len(m@);
            lemma_view_members_index(m@, i as int);
        }
        if bytes_eq_str(&m[i].0, k) {
            proof {
                assert(view_members(m@).take(i + 1).last() == view_members(m@)[i as int]);
                lemma_obj_lookup_found(view_members(m@).take(i + 1), bytes_of(k));
                assert(view_members(m@).take(i + 1).last() == (m@[i as int].0@, m@[i as int].1@));
            }
            return Some(&m[i].1);
        }
        proof {
            lemma_obj_lookup_pop(view_members(m@).take(i + 1), bytes_of(k));
            assert(view_members(m@).take(i + 1).drop_last() =~= view_members(m@).take(i as int));
        }
    }
    proof {
        assert(view_members(m@).take(0) =~= Seq::<(Seq<u8>, JsonVal)>::empty());
    }
    None
}

/// When the last member has the key, lookup answers it.
proof fn lemma_obj_lookup_found(m: Seq<(Seq<u8>, JsonVal)>, k: Seq<u8>)
    requires
        m.len() > 0,
        m.last().0 == k,
    ensures
        obj_lookup(m, k) == Option::Some(m.last().1),
    decreases m.len(),
{
    if m.len() > 1 {
        assert(m.subrange(1, m.len() as int).last() == m.last());
        lemma_obj_lookup_found(m.subrange(1, m.len() as int), k);
    } else {
        assert(m.subrange(1, 1).len() == 0);
        assert(obj_lookup(m.subrange(1, 1), k) is None);
        assert(m[0] == m.last());
    }
}

/// When the last member has another key, it plays no part in lookup.
proof fn lemma_obj_lookup_pop(m: Seq<(Seq<u8>, JsonVal)>, k: Seq<u8>)
    requires
        m.len() > 0,
        m.last().0 != k,
    ensures
        obj_lookup(m, k) == obj_lookup(m.drop_last(), k),
    decreases m.len(),
{
    if m.len() == 1 {
        assert(m.drop_last() =~= Seq::<(Seq<u8>, JsonVal)>::empty());
        assert(m.subrange(1, 1) =~= Seq::<(Seq<u8>, JsonVal)>::empty());
    } else {
        assert(m.subrange(1, m.len() as int).last() == m.last());
        lemma_obj_lookup_pop(m.subrange(1, m.len() as int), k);
        assert(m.subrange(1, m.len() as int).drop_last() =~= m.drop_last().subrange(
            1,
            m.drop_last().len() as int,
        ));
        assert(m.drop_last()[0] == m[0]);
        assert(m.drop_last().len() > 0);
    }
}

/// One dispatch decision of the orchestrator: the whole turn is invalid on
/// malformed arguments, the built-in command tool runs a command, a
/// registered name goes to the script, and anything else gets an
/// unknown-tool result.
pub enum Dispatch {
    Invalid,
    RunCommand(Vec<u8>),
    ScriptTool(Vec<u8>, Vec<u8>),
    Unknown(Vec<u8>),
}

/// The model of a dispatch decision.
pub enum DispatchVal {
    Invalid,
    RunCommand(Seq<u8>),
    ScriptTool(Seq<u8>, Seq<u8>),
    Unknown(Seq<u8>),
}

/// The model of one executable decision.
pub open spec fn dispatch_model(d: Dispatch) -> DispatchVal {
    match d {
        Dispatch::Invalid => DispatchVal::Invalid,
        Dispatch::RunCommand(c) => DispatchVal::RunCommand(c@),
        Dispatch::ScriptTool(n, a) => DispatchVal::ScriptTool(n@, a@),
        Dispatch::Unknown(n) => DispatchVal::Unknown(n@),
    }
}

/// How one requested invocation is dispatched, against a registry: its
/// argument text must parse as JSON, else the turn aborts; the built-in
/// name must carry a string `command` member, which is run; a registered
/// name is dispatched to the script; any other name yields an unknown-tool
/// result.
pub open spec fn spec_classify(c: CallVal, reg: Seq<(Seq<u8>, Seq<u8>, JsonVal)>) -> DispatchVal {
    match sp_json(c.arguments) {
        Option::None => DispatchVal::Invalid,
        Option::Some(args) => {
            if c.name == bytes_of("run_command") {
                if args matches JsonVal::Obj(m) && obj_lookup(m, bytes_of("command")) matches Option::Some(
                    JsonVal::Str(cmd),
                ) {
                    DispatchVal::RunCommand(
                        obj_lookup(args->Obj_0, bytes_of("command"))->Some_0->Str_0,
                    )
                } else {
                    DispatchVal::Invalid
                }
            } else if crate::registry::spec_lookup(reg, c.name) is Some {
                DispatchVal::ScriptTool(c.name, c.arguments)
            } else {
                DispatchVal::Unknown(c.name)
            }
        },
    }
}

/// The protocol shape of one requested invocation.
pub open spec fn call_json(c: CallVal) -> JsonVal {
    JsonVal::Obj(
        seq![
            (bytes_of("id"), JsonVal::Str(c.id)),
            (bytes_of("type"), JsonVal::Str(c.call_kind)),
            (
                bytes_of("function"),
                JsonVal::Obj(
                    seq![
                        (bytes_of("name"), JsonVal::Str(c.name)),
                        (bytes_of("arguments"), JsonVal::Str(c.arguments)),
                    ],
                ),
            ),
        ],
    )
}

/// Optional text as a JSON value: the text, or null.
pub open spec fn opt_str_json(o: Option<Seq<u8>>) -> JsonVal {
    match o {
        Option::Some(s) => JsonVal::Str(s),
        Option::None => JsonVal::Null,
    }
}

/// The protocol shape of one conversation message.
pub open spec fn msg_json(m: MsgVal) -> JsonVal {
    JsonVal::Obj(
        seq![
            (bytes_of("role"), JsonVal::Str(role_bytes(m.role))),
            (bytes_of("content"), opt_str_json(m.content)),
            (
                bytes_of("tool_calls"),
                match m.tool_calls {
                    Option::Some(a) => JsonVal::Arr(Seq::new(a.len(), |i: int| call_json(a[i]))),
                    Option::None => JsonVal::Null,
                },
            ),
            (bytes_of("tool_call_id"), opt_str_json(m.tool_call_id)),
        ],
    )
}

/// The catalogue entry of the built-in command tool.
pub open spec fn builtin_tool_val() -> JsonVal {
    JsonVal::Obj(
        seq![
            (bytes_of("type"), JsonVal::Str(bytes_of("function"))),
            (
                bytes_of("function"),
                JsonVal::Obj(
                    seq![
                        (bytes_of("name"), JsonVal::Str(bytes_of("run_command"))),
                        (
                            bytes_of("description"),
                            JsonVal::Str(bytes_of("Execute a shell command and return the output")),
                        ),
                        (
                            bytes_of("parameters"),
                            JsonVal::Obj(
                                seq![
                                    (bytes_of("type"), JsonVal::Str(bytes_of("object"))),
                                    (
                                        bytes_of("properties"),
                                        JsonVal::Obj(
                                            seq![
                                                (
                                                    bytes_of("command"),
                                                    JsonVal::Obj(
                                                        seq![
                                                            (
                                                                bytes_of("type"),
                                                                JsonVal::Str(bytes_of("string")),
                                                            ),
                                                            (
                                                                bytes_of("description"),
                                                                JsonVal::Str(
                                                                    bytes_of(
                                                                        "The shell command to execute",
                                                                    ),
                                                                ),
                                                            ),
                                                        ],
                                                    ),
                                                ),
                                            ],
                                        ),
                                    ),
                                    (
                                        bytes_of("required"),
                                        JsonVal::Arr(seq![JsonVal::Str(bytes_of("command"))]),
                                    ),
                                ],
                            ),
                        ),
                    ],
                ),
            ),
        ],
    )
}

/// The request body of one model call: the model name, the whole
/// conversation, the merged tool catalogue with the built-in tool first,
/// automatic tool choice, and the sampling settings.
pub open spec fn request_body_val(
    conv: Seq<MsgVal>,
    model: Seq<u8>,
    temperature_lit: Seq<u8>,
    max_tokens: nat,
    tools: Seq<(Seq<u8>, Seq<u8>, JsonVal)>,
) -> JsonVal {
    JsonVal::Obj(
        seq![
            (bytes_of("model"), JsonVal::Str(model)),
            (bytes_of("messages"), JsonVal::Arr(Seq::new(conv.len(), |i: int| msg_json(conv[i])))),
            (
                bytes_of("tools"),
                JsonVal::Arr(
                    seq![builtin_tool_val()] + Seq::new(
                        tools.len(),
                        |i: int| descriptor_val(tools[i]),
                    ),
                ),
            ),
            (bytes_of("tool_choice"), JsonVal::Str(bytes_of("auto"))),
            (bytes_of("temperature"), JsonVal::Num(temperature_lit)),
            (bytes_of("max_tokens"), JsonVal::Num(dec_digits(max_tokens))),
        ],
    )
}

/// The protocol spelling of a role, as bytes.
fn role_bytes_exec(r: Role) -> (v: Vec<u8>)
    ensures
        v@ == role_bytes(r),
{
    match r {
        Role::System => byte_vec("system"),
        Role::User => byte_vec("user"),
        Role::Assistant => byte_vec("assistant"),
        Role::Tool => byte_vec("tool"),
    }
}

/// Builds the protocol shape of one invocation.
fn build_call_json(c: &ToolCall) -> (r: Json)
    ensures
        r@ == call_json(call_model(*c)),
{
    let mut f: Vec<(Vec<u8>, Json)> = Vec::new();
    f.push((byte_vec("name"), Json::Str(copy_bytes(&c.name))));
    f.push((byte_vec("arguments"), Json::Str(copy_bytes(&c.arguments))));
    let ghost gf = f@;
    let mut o: Vec<(Vec<u8>, Json)> = Vec::new();
    o.push((byte_vec("id"), Json::Str(copy_bytes(&c.id))));
    o.push((byte_vec("type"), Json::Str(copy_bytes(&c.call_kind))));
    o.push((byte_vec("function"), Json::Obj(f)));
    let r = Json::Obj(o);
    proof {
        broadcast use lemma_view_members_len, lemma_view_members_index;

        assert(view_members(gf) =~~= seq![
            (bytes_of("name"), JsonVal::Str(c.name@)),
            (bytes_of("arguments"), JsonVal::Str(c.arguments@)),
        ]);
        assert(o@[2].1@ == JsonVal::Obj(view_members(gf)));
        assert(view_members(o@) =~~= seq![
            (bytes_of("id"), JsonVal::Str(c.id@)),
            (bytes_of("type"), JsonVal::Str(c.call_kind@)),
            (bytes_of("function"), JsonVal::Obj(view_members(gf))),
        ]);
        assert(r@ == call_json(call_model(*c)));
    }
    r
}

/// Builds the protocol shape of one conversation message.
#[verifier::loop_isolation(false)]
fn build_msg_json(m: &ChatMessage) -> (r: Json)
    ensures
        r@ == msg_json(msg_model(*m)),
{
    broadcast use lemma_view_members_len, lemma_view_members_index, lemma_view_seq_len,
        lemma_view_seq_index, lemma_calls_model_len, lemma_calls_model_index;

    let content_json: Json = match &m.content {
        Some(c) => Json::Str(copy_bytes(c)),
        None => Json::Null,
    };
    let calls_json: Json = match &m.tool_calls {
        Some(a) => {
            let mut items: Vec<Json> = Vec::new();
            let mut i: usize = 0;
            while i < a.len()
                invariant
                    0 <= i <= a.len(),
                    items@.len() == i,
                    forall|j: int|
                        0 <= j < i ==> #[trigger] items@[j]@ == call_json(calls_model(a@)[j]),
                decreases a.len() - i,
            {
                let d = build_call_json(&a[i]);
                items.push(d);
                i = i + 1;
            }
            let arr = Json::Arr(items);
            proof {
                assert(view_seq(items@).len() == calls_model(a@).len());
                assert forall|j: int|
                    0 <= j < items@.len() implies #[trigger] view_seq(items@)[j] == call_json(
                    calls_model(a@)[j],
                ) by {
                    assert(view_seq(items@)[j] == items@[j]@);
                }
                assert(view_seq(items@) =~= Seq::new(
                    calls_model(a@).len(),
                    |i: int| call_json(calls_model(a@)[i]),
                ));
                assert(arr@ == JsonVal::Arr(
                    Seq::new(calls_model(a@).len(), |i: int| call_json(calls_model(a@)[i])),
                ));
                assert(msg_model(*m).tool_calls == Option::Some(calls_model(a@)));
                assert(arr@ =~~= (match msg_model(*m).tool_calls {
                    Option::Some(aa) => JsonVal::Arr(
                        Seq::new(aa.len(), |i: int| call_json(aa[i])),
                    ),
                    Option::None => JsonVal::Null,
                }));
            }
            arr
        },
        None => Json::Null,
    };
    let id_json: Json = match &m.tool_call_id {
        Some(t) => Json::Str(copy_bytes(t)),
        None => Json::Null,
    };
    let mut o: Vec<(Vec<u8>, Json)> = Vec::new();
    o.push((byte_vec("role"), Json::Str(role_bytes_exec(m.role))));
    o.push((byte_vec("content"), content_json));
    o.push((byte_vec("tool_calls"), calls_json));
    o.push((byte_vec("tool_call_id"), id_json));
    let r = Json::Obj(o);
    proof {
        let mm = msg_model(*m);
        assert(content_json@ == opt_str_json(mm.content));
        assert(id_json@ == opt_str_json(mm.tool_call_id));
        assert(calls_json@ =~~= (match mm.tool_calls {
            Option::Some(aa) => JsonVal::Arr(Seq::new(aa.len(), |i: int| call_json(aa[i]))),
            Option::None => JsonVal::Null,
        }));
        assert(view_members(o@).len() == 4);
        assert(view_members(o@)[0] == (o@[0].0@, o@[0].1@));
        assert(view_members(o@)[1] == (o@[1].0@, o@[1].1@));
        assert(view_members(o@)[2] == (o@[2].0@, o@[2].1@));
        assert(view_members(o@)[3] == (o@[3].0@, o@[3].1@));
        assert(view_members(o@) =~~= msg_json(mm)->Obj_0);
        assert(r@ =~~= msg_json(mm));
    }
    r
}

/// Builds one member holding a string value.
fn str_member(k: &str, v: &str) -> (r: (Vec<u8>, Json))
    ensures
        r.0@ == bytes_of(k),
        r.1@ == JsonVal::Str(bytes_of(v)),
{
    (byte_vec(k), Json::Str(byte_vec(v)))
}

/// Builds the catalogue entry of the built-in command tool.
fn build_builtin_tool() -> (r: Json)
    ensures
        r@ == builtin_tool_val(),
{
    broadcast use lemma_view_members_len, lemma_view_members_index, lemma_view_seq_len,
        lemma_view_seq_index;

    let mut command_desc: Vec<(Vec<u8>, Json)> = Vec::new();
    command_desc.push(str_member("type", "string"));
    command_desc.push(str_member("description", "The shell command to execute"));
    let ghost g_cmd = command_desc@;
    let mut props: Vec<(Vec<u8>, Json)> = Vec::new();
    props.push((byte_vec("command"), Json::Obj(command_desc)));
    let ghost g_props = props@;
    let mut required: Vec<Json> = Vec::new();
    required.push(Json::Str(byte_vec("command")));
    let ghost g_req = required@;
    let mut params: Vec<(Vec<u8>, Json)> = Vec::new();
    params.push(str_member("type", "object"));
    params.push((byte_vec("properties"), Json::Obj(props)));
    params.push((byte_vec("required"), Json::Arr(required)));
    let ghost g_params = params@;
    let mut func: Vec<(Vec<u8>, Json)> = Vec::new();
    func.push(str_member("name", "run_command"));
    func.push(str_member("description", "Execute a shell command and return the output"));
    func.push((byte_vec("parameters"), Json::Obj(params)));
    let ghost g_func = func@;
    let mut outer: Vec<(Vec<u8>, Json)> = Vec::new();
    outer.push(str_member("type", "function"));
    outer.push((byte_vec("function"), Json::Obj(func)));
    let r = Json::Obj(outer);
    proof {
        assert(view_members(g_cmd) =~~= seq![
            (bytes_of("type"), JsonVal::Str(bytes_of("string"))),
            (bytes_of("description"), JsonVal::Str(bytes_of("The shell command to execute"))),
        ]);
        assert(view_members(g_props) =~~= seq![
            (bytes_of("command"), JsonVal::Obj(view_members(g_cmd))),
        ]);
        assert(view_seq(g_req) =~~= seq![JsonVal::Str(bytes_of("command"))]);
        assert(view_members(g_params) =~~= seq![
            (bytes_of("type"), JsonVal::Str(bytes_of("object"))),
            (bytes_of("properties"), JsonVal::Obj(view_members(g_props))),
            (bytes_of("required"), JsonVal::Arr(view_seq(g_req))),
        ]);
        assert(view_members(g_func) =~~= seq![
            (bytes_of("name"), JsonVal::Str(bytes_of("run_command"))),
            (
                bytes_of("description"),
                JsonVal::Str(bytes_of("Execute a shell command and return the output")),
            ),
            (bytes_of("parameters"), JsonVal::Obj(view_members(g_params))),
        ]);
        assert(view_members(outer@) =~~= seq![
            (bytes_of("type"), JsonVal::Str(bytes_of("function"))),
            (bytes_of("function"), JsonVal::Obj(view_members(g_func))),
        ]);
        assert(r@ == builtin_tool_val());
    }
    r
}

/// Builds the request body for the model: the conversation so far, the
/// merged tool catalogue with the built-in tool first, automatic tool
/// choice, and the sampling settings.
#[verifier::loop_isolation(false)]
pub fn build_request_body(
    conversation: &Vec<ChatMessage>,
    model: &Vec<u8>,
    temperature_lit: &Vec<u8>,
    max_tokens: u64,
    reg: &ToolRegistry,
) -> (r: Vec<u8>)
    ensures
        r@ == ser(
            request_body_val(
                conv_model(conversation@),
                model@,
                temperature_lit@,
                max_tokens as nat,
                reg.model(),
            ),
        ),
{
    broadcast use lemma_view_members_len, lemma_view_members_index, lemma_view_seq_len,
        lemma_view_seq_index, lemma_conv_model_len, lemma_conv_model_index,
        crate::registry::lemma_reg_model_len, crate::registry::lemma_reg_model_index;

    let mut messages: Vec<Json> = Vec::new();
    let mut i: usize = 0;
    while i < conversation.len()
        invariant
            0 <= i <= conversation.len(),
            messages@.len() == i,
            forall|j: int|
                0 <= j < i ==> #[trigger] messages@[j]@ == msg_json(conv_model(conversation@)[j]),
        decreases conversation.len() - i,
    {
        let d = build_msg_json(&conversation[i]);
        messages.push(d);
        i = i + 1;
    }
    let messages_json = Json::Arr(messages);
    proof {
        assert(view_seq(messages@).len() == conv_model(conversation@).len());
        assert forall|j: int|
            0 <= j < messages@.len() implies #[trigger] view_seq(messages@)[j] == msg_json(
            conv_model(conversation@)[j],
        ) by {
            assert(view_seq(messages@)[j] == messages@[j]@);
        }
        assert(view_seq(messages@) =~= Seq::new(
            conv_model(conversation@).len(),
            |j: int| msg_json(conv_model(conversation@)[j]),
        ));
    }
    let mut tools: Vec<Json> = Vec::new();
    tools.push(build_builtin_tool());
    let mut k: usize = 0;
    while k < reg.tools.len()
        invariant
            0 <= k <= reg.tools.len(),
            tools@.len() == k + 1,
            tools@[0]@ == builtin_tool_val(),
            forall|j: int|
                0 <= j < k ==> #[trigger] tools@[j + 1]@ == descriptor_val(reg.model()[j]),
        decreases reg.tools.len() - k,
    {
        let t = &reg.tools[k];
        let d = crate::bridge::build_descriptor(&t.name, &t.description, &t.parameters);
        proof {
            crate::registry::lemma_reg_model_index(reg.tools@, k as int);
        }
        tools.push(d);
        k = k + 1;
    }
    let tools_json = Json::Arr(tools);
    proof {
        let spec_tools = seq![builtin_tool_val()] + Seq::new(
            reg.model().len(),
            |j: int| descriptor_val(reg.model()[j]),
        );
        assert(view_seq(tools@).len() == spec_tools.len());
        assert forall|j: int|
            0 <= j < tools@.len() implies #[trigger] view_seq(tools@)[j] == spec_tools[j] by {
            assert(view_seq(tools@)[j] == tools@[j]@);
            if j > 0 {
                assert(tools@[(j - 1) + 1]@ == descriptor_val(reg.model()[j - 1]));
            }
        }
        assert(view_seq(tools@) =~= spec_tools);
    }
    let mut o: Vec<(Vec<u8>, Json)> = Vec::new();
    o.push((byte_vec("model"), Json::Str(copy_bytes(model))));
    o.push((byte_vec("messages"), messages_json));
    o.push((byte_vec("tools"), tools_json));
    o.push((byte_vec("tool_choice"), Json::Str(byte_vec("auto"))));
    o.push((byte_vec("temperature"), Json::Num(copy_bytes(temperature_lit))));
    o.push((byte_vec("max_tokens"), Json::Num(dec_u64(max_tokens))));
    let body = Json::Obj(o);
    proof {
        assert(view_members(o@).len() == 6);
        assert(view_members(o@)[0] == (o@[0].0@, o@[0].1@));
        assert(view_members(o@)[1] == (o@[1].0@, o@[1].1@));
        assert(view_members(o@)[2] == (o@[2].0@, o@[2].1@));
        assert(view_members(o@)[3] == (o@[3].0@, o@[3].1@));
        assert(view_members(o@)[4] == (o@[4].0@, o@[4].1@));
        assert(view_members(o@)[5] == (o@[5].0@, o@[5].1@));
        assert(view_members(o@) =~~= request_body_val(
            conv_model(conversation@),
            model@,
            temperature_lit@,
            max_tokens as nat,
            reg.model(),
        )->Obj_0);
        assert(body@ =~~= request_body_val(
            conv_model(conversation@),
            model@,
            temperature_lit@,
            max_tokens as nat,
            reg.model(),
        ));
    }
    write_json(&body)
}

/// What the model's reply must look like: a `choices` array whose first
/// element carries a `message` object with a role among the four known
/// ones, optional text content, optional invocations each naming a
/// function with raw argument text, and an optional answered-invocation
/// id. Anything else is unusable and fails the turn.
pub open spec fn spec_parse_call(v: JsonVal) -> Option<CallVal> {
    if v is Obj {
        let m = v->Obj_0;
        let id_v = obj_lookup(m, bytes_of("id"));
        let kind_v = obj_lookup(m, bytes_of("type"));
        let f_v = obj_lookup(m, bytes_of("function"));
        if id_v is Some && id_v->Some_0 is Str && kind_v is Some && kind_v->Some_0 is Str && f_v
            is Some && f_v->Some_0 is Obj {
            let f = f_v->Some_0->Obj_0;
            let n_v = obj_lookup(f, bytes_of("name"));
            let a_v = obj_lookup(f, bytes_of("arguments"));
            if n_v is Some && n_v->Some_0 is Str && a_v is Some && a_v->Some_0 is Str {
                Option::Some(
                    CallVal {
                        id: id_v->Some_0->Str_0,
                        call_kind: kind_v->Some_0->Str_0,
                        name: n_v->Some_0->Str_0,
                        arguments: a_v->Some_0->Str_0,
                    },
                )
            } else {
                Option::None
            }
        } else {
            Option::None
        }
    } else {
        Option::None
    }
}

/// Every element of a `tool_calls` array, parsed in order.
pub open spec fn spec_parse_calls(a: Seq<JsonVal>) -> Option<Seq<CallVal>>
    decreases a,
{
    if a.len() == 0 {
        Option::Some(Seq::empty())
    } else {
        match spec_parse_call(a[0]) {
            Option::None => Option::None,
            Option::Some(c) => match spec_parse_calls(a.subrange(1, a.len() as int)) {
                Option::None => Option::None,
                Option::Some(rest) => Option::Some(seq![c] + rest),
            },
        }
    }
}

/// The role named by a protocol value.
pub open spec fn spec_parse_role(s: Seq<u8>) -> Option<Role> {
    if s == bytes_of("system") {
        Option::Some(Role::System)
    } else if s == bytes_of("user") {
        Option::Some(Role::User)
    } else if s == bytes_of("assistant") {
        Option::Some(Role::Assistant)
    } else if s == bytes_of("tool") {
        Option::Some(Role::Tool)
    } else {
        Option::None
    }
}

/// One `message` object of a reply, parsed.
pub open spec fn spec_parse_msg(v: JsonVal) -> Option<MsgVal> {
    if v is Obj {
        let m = v->Obj_0;
        let role_v = obj_lookup(m, bytes_of("role"));
        if role_v is Some && role_v->Some_0 is Str && spec_parse_role(role_v->Some_0->Str_0)
            is Some {
            let role = spec_parse_role(role_v->Some_0->Str_0)->Some_0;
            let content_v = obj_lookup(m, bytes_of("content"));
            let calls_v = obj_lookup(m, bytes_of("tool_calls"));
            let id_v = obj_lookup(m, bytes_of("tool_call_id"));
            if (content_v is None || content_v->Some_0 is Null || content_v->Some_0 is Str) && (
            calls_v is None || calls_v->Some_0 is Null || calls_v->Some_0 is Arr) && (id_v is None
                || id_v->Some_0 is Null || id_v->Some_0 is Str) {
                let has_calls = calls_v is Some && calls_v->Some_0 is Arr;
                let calls = if has_calls {
                    spec_parse_calls(calls_v->Some_0->Arr_0)
                } else {
                    Option::Some(Seq::empty())
                };
                if calls is None {
                    Option::None
                } else {
                    Option::Some(
                        MsgVal {
                            role: role,
                            content: if content_v is Some && content_v->Some_0 is Str {
                                Option::Some(content_v->Some_0->Str_0)
                            } else {
                                Option::None
                            },
                            tool_calls: if has_calls {
                                Option::Some(calls->Some_0)
                            } else {
                                Option::None
                            },
                            tool_call_id: if id_v is Some && id_v->Some_0 is Str {
                                Option::Some(id_v->Some_0->Str_0)
                            } else {
                                Option::None
                            },
                        },
                    )
                }
            } else {
                Option::None
            }
        } else {
            Option::None
        }
    } else {
        Option::None
    }
}

/// A whole reply body, parsed down to the first choice's message.
pub open spec fn spec_parse_response(v: JsonVal) -> Option<MsgVal> {
    if v is Obj {
        let ch_v = obj_lookup(v->Obj_0, bytes_of("choices"));
        if ch_v is Some && ch_v->Some_0 is Arr && ch_v->Some_0->Arr_0.len() > 0
            && ch_v->Some_0->Arr_0[0] is Obj {
            let msg_v = obj_lookup(ch_v->Some_0->Arr_0[0]->Obj_0, bytes_of("message"));
            if msg_v is Some {
                spec_parse_msg(msg_v->Some_0)
            } else {
                Option::None
            }
        } else {
            Option::None
        }
    } else {
        Option::None
    }
}

/// Reads one invocation object of a reply.
fn parse_call_exec(v: &Json) -> (r: Option<ToolCall>)
    ensures
        r matches Some(c) ==> spec_parse_call(v@) == Option::Some(call_model(c)),
        r is None ==> spec_parse_call(v@) is None,
{
    let m = match v {
        Json::Obj(m) => m,
        _ => {
            return None;
        },
    };
    let id = match json_obj_get(m, "id") {
        Some(Json::Str(s)) => copy_bytes(s),
        _ => {
            return None;
        },
    };
    let kind = match json_obj_get(m, "type") {
        Some(Json::Str(s)) => copy_bytes(s),
        _ => {
            return None;
        },
    };
    let f = match json_obj_get(m, "function") {
        Some(Json::Obj(f)) => f,
        _ => {
            return None;
        },
    };
    let name = match json_obj_get(f, "name") {
        Some(Json::Str(s)) => copy_bytes(s),
        _ => {
            return None;
        },
    };
    let arguments = match json_obj_get(f, "arguments") {
        Some(Json::Str(s)) => copy_bytes(s),
        _ => {
            return None;
        },
    };
    Some(ToolCall { id, call_kind: kind, name, arguments })
}

/// Reads the invocation objects `a[i..]` of a reply, in order.
fn parse_calls_from(a: &Vec<Json>, i: usize) -> (r: Option<Vec<ToolCall>>)
    requires
        i <= a.len(),
    ensures
        r matches Some(cs) ==> spec_parse_calls(view_seq(a@).skip(i as int)) == Option::Some(
            calls_model(cs@),
        ),
        r is None ==> spec_parse_calls(view_seq(a@).skip(i as int)) is None,
    decreases a.len() - i,
{
    broadcast use lemma_view_seq_len, lemma_view_seq_index, lemma_calls_model_len,
        lemma_calls_model_index;

    let ghost s = view_seq(a@).skip(i as int);
    if i == a.len() {
        let empty: Vec<ToolCall> = Vec::new();
        proof {
            assert(s =~= Seq::<JsonVal>::empty());
            assert(calls_model(empty@) =~= Seq::<CallVal>::empty());
        }
        return Some(empty);
    }
    proof {
        assert(s[0] == a@[i as int]@);
        assert(s.subrange(1, s.len() as int) =~= view_seq(a@).skip(i + 1));
    }
    let c = match parse_call_exec(&a[i]) {
        None => {
            return None;
        },
        Some(c) => c,
    };
    match parse_calls_from(a, i + 1) {
        None => None,
        Some(rest) => {
            let ghost restv = rest@;
            let mut all = rest;
            all.insert(0, c);
            proof {
                assert(all@.subrange(1, all@.len() as int) =~= restv);
                assert(calls_model(all@) =~= seq![call_model(all@[0])] + calls_model(restv));
            }
            Some(all)
        },
    }
}

/// Reads the `message` object of a reply's first choice.
fn parse_msg_exec(v: &Json) -> (r: Option<ChatMessage>)
    ensures
        r matches Some(m) ==> spec_parse_msg(v@) == Option::Some(msg_model(m)),
        r is None ==> spec_parse_msg(v@) is None,
{
    let m = match v {
        Json::Obj(m) => m,
        _ => {
            return None;
        },
    };
    let role = match json_obj_get(m, "role") {
        Some(Json::Str(s)) => {
            if bytes_eq_str(s, "system") {
                Role::System
            } else if bytes_eq_str(s, "user") {
                Role::User
            } else if bytes_eq_str(s, "assistant") {
                Role::Assistant
            } else if bytes_eq_str(s, "tool") {
                Role::Tool
            } else {
                return None;
            }
        },
        _ => {
            return None;
        },
    };
    let content: Option<Vec<u8>> = match json_obj_get(m, "content") {
        Some(Json::Str(s)) => Some(copy_bytes(s)),
        Some(Json::Null) => None,
        None => None,
        _ => {
            return None;
        },
    };
    let tool_calls: Option<Vec<ToolCall>> = match json_obj_get(m, "tool_calls") {
        Some(Json::Arr(a)) => {
            match parse_calls_from(a, 0) {
                None => {
                    proof {
                        assert(view_seq(a@).skip(0) =~= view_seq(a@));
                    }
                    return None;
                },
                Some(cs) => {
                    proof {
                        assert(view_seq(a@).skip(0) =~= view_seq(a@));
                    }
                    Some(cs)
                },
            }
        },
        Some(Json::Null) => None,
        None => None,
        _ => {
            return None;
        },
    };
    let tool_call_id: Option<Vec<u8>> = match json_obj_get(m, "tool_call_id") {
        Some(Json::Str(s)) => Some(copy_bytes(s)),
        Some(Json::Null) => None,
        None => None,
        _ => {
            return None;
        },
    };
    Some(ChatMessage { role, content, tool_calls, tool_call_id })
}

/// Reads a whole reply body into the message of its first choice. Fails on
/// anything that is not a well-shaped reply with at least one choice.
pub fn parse_model_reply(body: &Vec<u8>) -> (r: Option<ChatMessage>)
    ensures
        r matches Some(m) ==> sp_json(body@) is Some && spec_parse_response(sp_json(body@)->Some_0)
            == Option::Some(msg_model(m)),
        r is None ==> sp_json(body@) is None || spec_parse_response(sp_json(body@)->Some_0) is None,
{
    broadcast use lemma_view_seq_len, lemma_view_seq_index;

    let parsed = match parse_json(body) {
        None => {
            return None;
        },
        Some(p) => p,
    };
    let m = match &parsed {
        Json::Obj(m) => m,
        _ => {
            return None;
        },
    };
    let choices = match json_obj_get(m, "choices") {
        Some(Json::Arr(ch)) => ch,
        _ => {
            return None;
        },
    };
    if choices.len() == 0 {
        return None;
    }
    let c0 = match &choices[0] {
        Json::Obj(c0) => c0,
        _ => {
            proof {
                assert(view_seq(choices@)[0] == choices@[0]@);
            }
            return None;
        },
    };
    proof {
        assert(view_seq(choices@)[0] == choices@[0]@);
        assert(view_seq(choices@).len() == choices@.len());
    }
    let msg = match json_obj_get(c0, "message") {
        Some(msg) => msg,
        None => {
            return None;
        },
    };
    parse_msg_exec(msg)
}

/// Classifies one invocation against the registry.
pub fn classify_call(c: &ToolCall, reg: &ToolRegistry) -> (r: Dispatch)
    ensures
        dispatch_model(r) == spec_classify(call_model(*c), reg.model()),
{
    let parsed = match parse_json(&c.arguments) {
        None => {
            return Dispatch::Invalid;
        },
        Some(p) => p,
    };
    if bytes_eq_str(&c.name, "run_command") {
        match &parsed {
            Json::Obj(m) => {
                match json_obj_get(m, "command") {
                    Some(v) => match v {
                        Json::Str(cmd) => Dispatch::RunCommand(copy_bytes(cmd)),
                        _ => Dispatch::Invalid,
                    },
                    None => Dispatch::Invalid,
                }
            },
            _ => Dispatch::Invalid,
        }
    } else {
        if reg.contains(&c.name) {
            Dispatch::ScriptTool(copy_bytes(&c.name), copy_bytes(&c.arguments))
        } else {
            Dispatch::Unknown(copy_bytes(&c.name))
        }
    }
}

/// Where a turn stands: a request is ready to go out, a reply is awaited,
/// requested invocations are being dispatched, or the turn has ended in a
/// final answer or a failure.
#[derive(Clone, Copy, Debug, PartialEq, Eq, Structural)]
pub enum TurnPhase {
    ReadyToSend,
    AwaitingReply,
    Dispatching,
    Done,
    Failed,
}

/// The model of a turn: its conversation, how many requests have gone to
/// the model endpoint and how many the turn may make at most, its phase,
/// the invocations still to dispatch, and the final answer once there is
/// one.
pub struct TurnModel {
    pub conv: Seq<MsgVal>,
    pub requests: nat,
    pub limit: nat,
    pub phase: TurnPhase,
    pub pending: Seq<CallVal>,
    pub next: nat,
    pub answer: Option<Seq<u8>>,
}

/// How many model requests one turn may make unless told otherwise: a
/// guard against an unbounded tool-calling loop.
pub const DEFAULT_REQUEST_LIMIT: u64 = 25;

/// A fresh turn: the system instruction, the user's request, nothing sent,
/// and the given cap on model requests.
pub open spec fn spec_start_with_limit(prompt: Seq<u8>, limit: nat) -> TurnModel {
    TurnModel {
        conv: seq![system_msg(), user_msg(prompt)],
        requests: 0,
        limit: limit,
        phase: TurnPhase::ReadyToSend,
        pending: Seq::empty(),
        next: 0,
        answer: Option::None,
    }
}

/// A fresh turn with the default request cap.
pub open spec fn spec_start(prompt: Seq<u8>) -> TurnModel {
    spec_start_with_limit(prompt, DEFAULT_REQUEST_LIMIT as nat)
}

/// Sending the pending request: one more request is out, a reply is owed.
pub open spec fn spec_send(t: TurnModel) -> TurnModel {
    TurnModel { requests: t.requests + 1, phase: TurnPhase::AwaitingReply, ..t }
}

/// Receiving the model's reply: it joins the conversation verbatim; with no
/// invocations in it the turn is done and its text is the answer, else its
/// invocations are dispatched in order.
pub open spec fn spec_reply(t: TurnModel, m: MsgVal) -> TurnModel {
    if no_calls(m) {
        TurnModel {
            conv: t.conv.push(m),
            phase: TurnPhase::Done,
            answer: m.content,
            pending: Seq::empty(),
            next: 0,
            ..t
        }
    } else {
        TurnModel {
            conv: t.conv.push(m),
            phase: TurnPhase::Dispatching,
            pending: m.tool_calls->Some_0,
            next: 0,
            ..t
        }
    }
}

/// Recording one dispatch result: a tool message carrying the invocation's
/// id joins the conversation; once every invocation is answered the next
/// request is ready.
pub open spec fn spec_record(t: TurnModel, text: Seq<u8>) -> TurnModel {
    TurnModel {
        conv: t.conv.push(tool_msg(t.pending[t.next as int].id, text)),
        next: t.next + 1,
        phase: if t.next + 1 == t.pending.len() {
            TurnPhase::ReadyToSend
        } else {
            TurnPhase::Dispatching
        },
        ..t
    }
}

/// Aborting the turn: nothing else changes, the turn has failed.
pub open spec fn spec_abort(t: TurnModel) -> TurnModel {
    TurnModel { phase: TurnPhase::Failed, ..t }
}

/// One tool-calling turn with the model, as a state machine over plain
/// values. The host sends what `take_request` hands it, reports the
/// outcome through `on_reply` or `abort`, performs the dispatches that
/// `classify_current` decides, and records each textual result.
pub struct AgentTurn {
    pub conversation: Vec<ChatMessage>,
    pub requests_sent: u64,
    pub request_limit: u64,
    pub phase: TurnPhase,
    pub pending: Vec<ToolCall>,
    pub next_call: usize,
    pub answer: Option<Vec<u8>>,
}

impl AgentTurn {
    /// The model of this turn.
    pub open spec fn model(self) -> TurnModel {
        TurnModel {
            conv: conv_model(self.conversation@),
            requests: self.requests_sent as nat,
            limit: self.request_limit as nat,
            phase: self.phase,
            pending: calls_model(self.pending@),
            next: self.next_call as nat,
            answer: match self.answer {
                Option::Some(a) => Option::Some(a@),
                Option::None => Option::None,
            },
        }
    }

    /// The dispatch cursor stays within the pending invocations, and the
    /// request count never passes the turn's cap.
    pub open spec fn wf(self) -> bool {
        self.next_call <= self.pending@.len() && (self.phase == TurnPhase::Dispatching
            ==> self.next_call < self.pending@.len()) && self.requests_sent <= self.request_limit
    }

    /// Opens a turn on the user's request, capped at the given number of
    /// model requests.
    pub fn start_with_limit(prompt: Vec<u8>, request_limit: u64) -> (t: AgentTurn)
        ensures
            t.model() == spec_start_with_limit(prompt@, request_limit as nat),
            t.wf(),
    {
        let mut t = AgentTurn::start(prompt);
        t.request_limit = request_limit;
        t
    }

    /// Opens a turn on the user's request, with the default request cap.
    pub fn start(prompt: Vec<u8>) -> (t: AgentTurn)
        ensures
            t.model() == spec_start(prompt@),
            t.wf(),
    {
        broadcast use lemma_conv_model_len, lemma_conv_model_index;

        let mut conversation: Vec<ChatMessage> = Vec::new();
        conversation.push(
            ChatMessage {
                role: Role::System,
                content: Some(
                    byte_vec(
                        "You are an AI assistant integrated into a Unix shell called 'aish'. Your role is to help users accomplish tasks by analyzing their requests and executing appropriate commands when needed.\n\nYou have access to a 'run_command' tool that can execute shell commands. Use this tool when the user's request requires running commands.\n\nWhen you use run_command, always prefix your explanation with:\n'**** Running command'\nThen show the command being executed with a '$ ' prefix.\n\nAfter executing commands and getting the results, provide a helpful response to the user. If the command output answers their question, you can simply acknowledge the result. If additional explanation is needed, provide it.\n\nAlways be concise and helpful.",
                    ),
                ),
                tool_calls: None,
                tool_call_id: None,
            },
        );
        conversation.push(
            ChatMessage {
                role: Role::User,
                content: Some(prompt),
                tool_calls: None,
                tool_call_id: None,
            },
        );
        let t = AgentTurn {
            conversation,
            requests_sent: 0,
            request_limit: DEFAULT_REQUEST_LIMIT,
            phase: TurnPhase::ReadyToSend,
            pending: Vec::new(),
            next_call: 0,
            answer: None,
        };
        proof {
            assert(conv_model(t.conversation@) =~= seq![system_msg(), user_msg(prompt@)]);
            assert(calls_model(t.pending@) =~= Seq::<CallVal>::empty());
        }
        t
    }

    /// Whether the turn may still reach the model endpoint under its cap.
    pub fn can_send(&self) -> (r: bool)
        ensures
            r == (self.requests_sent < self.request_limit),
    {
        self.requests_sent < self.request_limit
    }

    /// Hands out the body of the next model request and counts it as sent.
    /// The host must send exactly this body to the endpoint, once; the
    /// turn's cap admits no request beyond it.
    pub fn take_request(
        &mut self,
        model_name: &Vec<u8>,
        temperature_lit: &Vec<u8>,
        max_tokens: u64,
        reg: &ToolRegistry,
    ) -> (body: Vec<u8>)
        requires
            old(self).wf(),
            old(self).phase == TurnPhase::ReadyToSend,
            old(self).requests_sent < old(self).request_limit,
        ensures
            final(self).model() == spec_send(old(self).model()),
            final(self).wf(),
            body@ == ser(
                request_body_val(
                    old(self).model().conv,
                    model_name@,
                    temperature_lit@,
                    max_tokens as nat,
                    reg.model(),
                ),
            ),
    {
        let body = build_request_body(
            &self.conversation,
            model_name,
            temperature_lit,
            max_tokens,
            reg,
        );
        self.requests_sent = self.requests_sent + 1;
        self.phase = TurnPhase::AwaitingReply;
        body
    }

    /// Takes the model's reply into the turn.
    pub fn on_reply(&mut self, msg: ChatMessage)
        requires
            old(self).wf(),
            old(self).phase == TurnPhase::AwaitingReply,
        ensures
            final(self).model() == spec_reply(old(self).model(), msg_model(msg)),
            final(self).wf(),
    {
        broadcast use lemma_conv_model_push, lemma_calls_model_len;

        let ghost gm = msg_model(msg);
        let has_calls: bool = match &msg.tool_calls {
            Some(a) => a.len() > 0,
            None => false,
        };
        if !has_calls {
            self.answer = match &msg.content {
                Some(c) => Some(copy_bytes(c)),
                None => None,
            };
            self.pending = Vec::new();
            self.next_call = 0;
            self.phase = TurnPhase::Done;
            proof {
                assert(calls_model(self.pending@) =~= Seq::<CallVal>::empty());
            }
        } else {
            let calls = match &msg.tool_calls {
                Some(a) => copy_calls(a),
                None => Vec::new(),
            };
            self.pending = calls;
            self.next_call = 0;
            self.phase = TurnPhase::Dispatching;
        }
        self.conversation.push(msg);
    }

    /// Abandons the turn after a failed model request or an invalid
    /// invocation; the conversation stays as it was.
    pub fn abort(&mut self)
        requires
            old(self).wf(),
        ensures
            final(self).model() == spec_abort(old(self).model()),
            final(self).wf(),
    {
        self.phase = TurnPhase::Failed;
    }

    /// The invocation now being dispatched.
    pub fn current_call(&self) -> (c: &ToolCall)
        requires
            self.wf(),
            self.phase == TurnPhase::Dispatching,
        ensures
            call_model(*c) == self.model().pending[self.model().next as int],
    {
        proof {
            broadcast use lemma_calls_model_len, lemma_calls_model_index;

        }
        &self.pending[self.next_call]
    }

    /// Decides how the invocation now being dispatched is handled.
    pub fn classify_current(&self, reg: &ToolRegistry) -> (r: Dispatch)
        requires
            self.wf(),
            self.phase == TurnPhase::Dispatching,
        ensures
            dispatch_model(r) == spec_classify(
                self.model().pending[self.model().next as int],
                reg.model(),
            ),
    {
        proof {
            broadcast use lemma_calls_model_len, lemma_calls_model_index;

        }
        classify_call(&self.pending[self.next_call], reg)
    }

    /// Records the textual result of the invocation now being dispatched,
    /// as one tool message carrying its id, and moves to the next one — or
    /// back to the model once all are answered.
    pub fn record_result(&mut self, text: Vec<u8>)
        requires
            old(self).wf(),
            old(self).phase == TurnPhase::Dispatching,
        ensures
            final(self).model() == spec_record(old(self).model(), text@),
            final(self).wf(),
    {
        broadcast use lemma_conv_model_push, lemma_calls_model_len, lemma_calls_model_index;

        let id = copy_bytes(&self.pending[self.next_call].id);
        self.conversation.push(
            ChatMessage {
                role: Role::Tool,
                content: Some(text),
                tool_calls: None,
                tool_call_id: Some(id),
            },
        );
        let n = self.pending.len();
        assert(self.next_call < n);
        self.next_call = self.next_call + 1;
        if self.next_call == n {
            self.phase = TurnPhase::ReadyToSend;
        } else {
            self.phase = TurnPhase::Dispatching;
        }
    }
}

/// A fresh copy of a sequence of invocations.
fn copy_calls(a: &Vec<ToolCall>) -> (r: Vec<ToolCall>)
    ensures
        calls_model(r@) == calls_model(a@),
        r@.len() == a@.len(),
{
    broadcast use lemma_calls_model_len, lemma_calls_model_index;

    let mut out: Vec<ToolCall> = Vec::new();
    let mut i: usize = 0;
    while i < a.len()
        invariant
            0 <= i <= a.len(),
            out@.len() == i,
            forall|j: int| 0 <= j < i ==> #[trigger] call_model(out@[j]) == call_model(a@[j]),
        decreases a.len() - i,
    {
        let c = &a[i];
        out.push(
            ToolCall {
                id: copy_bytes(&c.id),
                call_kind: copy_bytes(&c.call_kind),
                name: copy_bytes(&c.name),
                arguments: copy_bytes(&c.arguments),
            },
        );
        i = i + 1;
    }
    proof {
        assert(calls_model(out@) =~= calls_model(a@));
    }
    out
}

/// A turn whose reply carries no tool invocations ends after exactly one
/// request to the model endpoint: the conversation is the seed plus that
/// reply, the turn is done, and the reply's text is the answer.
pub proof fn lemma_single_request_turn(prompt: Seq<u8>, reply: MsgVal)
    requires
        no_calls(reply),
    ensures
        spec_reply(spec_send(spec_start(prompt)), reply).requests == 1,
        spec_reply(spec_send(spec_start(prompt)), reply).phase == TurnPhase::Done,
        spec_reply(spec_send(spec_start(prompt)), reply).conv == seq![
            system_msg(),
            user_msg(prompt),
            reply,
        ],
        spec_reply(spec_send(spec_start(prompt)), reply).answer == reply.content,
{
    assert(spec_reply(spec_send(spec_start(prompt)), reply).conv =~= seq![
        system_msg(),
        user_msg(prompt),
        reply,
    ]);
}

/// A turn in which the model first requests exactly one invocation of the
/// built-in tool and then answers in plain text reaches the endpoint
/// exactly twice, and its conversation is the seed, the first reply,
/// exactly one tool-result message carrying the invocation's id and the
/// command's output, and the final reply.
pub proof fn lemma_one_command_turn(
    prompt: Seq<u8>,
    reply1: MsgVal,
    c: CallVal,
    output: Seq<u8>,
    reply2: MsgVal,
)
    requires
        reply1.tool_calls == Option::Some(seq![c]),
        no_calls(reply2),
    ensures
        ({
            let end = spec_reply(
                spec_send(spec_record(spec_reply(spec_send(spec_start(prompt)), reply1), output)),
                reply2,
            );
            end.requests == 2 && end.phase == TurnPhase::Done && end.conv == seq![
                system_msg(),
                user_msg(prompt),
                reply1,
                tool_msg(c.id, output),
                reply2,
            ] && end.answer == reply2.content
        }),
{
    let t1 = spec_reply(spec_send(spec_start(prompt)), reply1);
    assert(!no_calls(reply1));
    assert(t1.pending == seq![c]);
    assert(t1.pending[0] == c);
    let t2 = spec_record(t1, output);
    let end = spec_reply(spec_send(t2), reply2);
    assert(end.conv =~= seq![system_msg(), user_msg(prompt), reply1, tool_msg(c.id, output),
        reply2]);
}

/// A failing command does not end the turn: its captured streams and exit
/// code become the recorded tool-result text, the conversation grows by
/// exactly that one tool message, and the turn carries on — it never moves
/// to `Failed`.
pub proof fn lemma_failed_command_continues(
    t: TurnModel,
    stdout: Seq<u8>,
    stderr: Seq<u8>,
    code: int,
)
    requires
        t.phase == TurnPhase::Dispatching,
        t.next < t.pending.len(),
    ensures
        ({
            let text = spec_command_result_text(stdout, stderr, false, code);
            let after = spec_record(t, text);
            after.conv == t.conv.push(tool_msg(t.pending[t.next as int].id, text))
                && after.phase != TurnPhase::Failed && after.requests == t.requests
        }),
{
}

} // verus!
