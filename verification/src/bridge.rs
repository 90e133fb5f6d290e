//! The native operation bridge: what the host offers to running scripts.
//!
//! A script can ask for shell information, read and set environment
//! variables, log, run a subprocess, and register, list or call agent tools.
//! The operations that only move values in and out of the process (the
//! actual environment access, the spawned subprocess, the writes to the
//! terminal) live with the host program; everything the bridge decides —
//! defaults, error classification, registry changes, the listed catalogue —
//! is here with its contract.

use vstd::prelude::*;
use crate::json::{Json, JsonVal, ser, write_json, json_clone, lemma_view_seq_len, lemma_view_seq_index, lemma_view_members_len, lemma_view_members_index};
use crate::registry::{ToolRegistry, spec_lookup, lemma_reg_model_len, lemma_reg_model_index};
use crate::text::{bytes_of, byte_vec, copy_bytes, int_digits, dec_i64, spec_trim, trim_bytes};

verus! {

/// An error crossing the bridge: a subprocess that failed, or a call to a
/// tool nobody registered.
pub enum AishError {
    CommandFailed { exit_code: i32, stdout: Vec<u8>, stderr: Vec<u8> },
    ToolNotFound(Vec<u8>),
}

/// The message text of an error.
pub open spec fn spec_message(e: AishError) -> Seq<u8> {
    match e {
        AishError::CommandFailed { exit_code, stdout, stderr } => bytes_of(
            "Command execution failed: exit code ",
        ) + int_digits(exit_code as int),
        AishError::ToolNotFound(name) => bytes_of("Tool not found: ") + name@,
    }
}

impl AishError {
    /// The error class a script sees; every bridge error is a plain `Error`.
    pub fn get_class(&self) -> (r: &'static str)
        ensures
            r@ == "Error"@,
    {
        "Error"
    }

    /// The message text a script sees.
    pub fn get_message(&self) -> (r: Vec<u8>)
        ensures
            r@ == spec_message(*self),
    {
        match self {
            AishError::CommandFailed { exit_code, stdout, stderr } => {
                let mut out = byte_vec("Command execution failed: exit code ");
                let tail = dec_i64(*exit_code as i64);
                let ghost pre = out@;
                let mut k: usize = 0;
                while k < tail.len()
                    invariant
                        0 <= k <= tail.len(),
                        out@ == pre + tail@.take(k as int),
                    decreases tail.len() - k,
                {
                    out.push(tail[k]);
                    proof {
                        assert(tail@.take(k + 1) =~= tail@.take(k as int) + seq![tail@[k as int]]);
                        assert(pre + (tail@.take(k as int) + seq![tail@[k as int]]) =~= (pre
                            + tail@.take(k as int)) + seq![tail@[k as int]]);
                    }
                    k = k + 1;
                }
                proof {
                    assert(tail@.take(tail@.len() as int) =~= tail@);
                }
                out
            },
            AishError::ToolNotFound(name) => {
                let mut out = byte_vec("Tool not found: ");
                let tail = copy_bytes(name);
                let ghost pre = out@;
                let mut k: usize = 0;
                while k < tail.len()
                    invariant
                        0 <= k <= tail.len(),
                        out@ == pre + tail@.take(k as int),
                    decreases tail.len() - k,
                {
                    out.push(tail[k]);
                    proof {
                        assert(tail@.take(k + 1) =~= tail@.take(k as int) + seq![tail@[k as int]]);
                        assert(pre + (tail@.take(k as int) + seq![tail@[k as int]]) =~= (pre
                            + tail@.take(k as int)) + seq![tail@[k as int]]);
                    }
                    k = k + 1;
                }
                proof {
                    assert(tail@.take(tail@.len() as int) =~= tail@);
                }
                out
            },
        }
    }
}

/// What the shell-information query answers: each field comes from the
/// process environment where set, and otherwise takes its documented
/// default.
pub struct ShellInfo {
    pub current_dir: Vec<u8>,
    pub mode: Vec<u8>,
    pub user: Vec<u8>,
    pub hostname: Vec<u8>,
    pub home_dir: Option<Vec<u8>>,
}

impl ShellInfo {
    /// Builds the answer from what the host could observe. A missing
    /// working directory becomes `/`, a missing mode `agent`, a missing
    /// user `user`, a missing host name `localhost`; the home directory
    /// stays optional.
    pub fn from_env(
        current_dir: Option<Vec<u8>>,
        mode: Option<Vec<u8>>,
        user: Option<Vec<u8>>,
        hostname: Option<Vec<u8>>,
        home_dir: Option<Vec<u8>>,
    ) -> (r: ShellInfo)
        ensures
            r.current_dir@ == (match current_dir {
                Some(d) => d@,
                None => bytes_of("/"),
            }),
            r.mode@ == (match mode {
                Some(m) => m@,
                None => bytes_of("agent"),
            }),
            r.user@ == (match user {
                Some(u) => u@,
                None => bytes_of("user"),
            }),
            r.hostname@ == (match hostname {
                Some(h) => h@,
                None => bytes_of("localhost"),
            }),
            r.home_dir is Some <==> home_dir is Some,
            r.home_dir matches Some(h) ==> h@ == home_dir->Some_0@,
    {
        ShellInfo {
            current_dir: match current_dir {
                Some(d) => d,
                None => byte_vec("/"),
            },
            mode: match mode {
                Some(m) => m,
                None => byte_vec("agent"),
            },
            user: match user {
                Some(u) => u,
                None => byte_vec("user"),
            },
            hostname: match hostname {
                Some(h) => h,
                None => byte_vec("localhost"),
            },
            home_dir,
        }
    }
}

/// The host name the shell reports: the environment's value when set,
/// else the trimmed output of a host-name query when one succeeded, else
/// `localhost`.
pub fn hostname_or_default(env_value: Option<Vec<u8>>, command_output: Option<Vec<u8>>) -> (r: Vec<
    u8,
>)
    ensures
        r@ == (match env_value {
            Some(h) => h@,
            None => match command_output {
                Some(o) => spec_trim(o@),
                None => bytes_of("localhost"),
            },
        }),
{
    match env_value {
        Some(h) => h,
        None => match command_output {
            Some(o) => trim_bytes(&o),
            None => byte_vec("localhost"),
        },
    }
}

/// How the bridge reports a finished subprocess: on success the captured
/// standard output, and otherwise a `CommandFailed` carrying the exit code
/// and both captured streams.
pub fn execute_outcome(stdout: Vec<u8>, stderr: Vec<u8>, success: bool, exit_code: i32) -> (r:
    Result<Vec<u8>, AishError>)
    ensures
        success ==> (r matches Ok(o) && o@ == stdout@),
        !success ==> (r matches Err(e) && e == (AishError::CommandFailed {
            exit_code,
            stdout,
            stderr,
        })),
{
    if success {
        Ok(stdout)
    } else {
        Err(AishError::CommandFailed { exit_code, stdout, stderr })
    }
}

/// The descriptor a listed tool gets: its registry entry in the shape the
/// model protocol wants.
pub open spec fn descriptor_val(e: (Seq<u8>, Seq<u8>, JsonVal)) -> JsonVal {
    JsonVal::Obj(
        seq![
            (bytes_of("type"), JsonVal::Str(bytes_of("function"))),
            (
                bytes_of("function"),
                JsonVal::Obj(
                    seq![
                        (bytes_of("name"), JsonVal::Str(e.0)),
                        (bytes_of("description"), JsonVal::Str(e.1)),
                        (bytes_of("parameters"), e.2),
                    ],
                ),
            ),
        ],
    )
}

/// The descriptors of a whole registry model, in its order.
pub open spec fn descriptors_val(m: Seq<(Seq<u8>, Seq<u8>, JsonVal)>) -> JsonVal {
    JsonVal::Arr(Seq::new(m.len(), |i: int| descriptor_val(m[i])))
}

/// Builds the executable descriptor of one registered tool.
pub fn build_descriptor(name: &Vec<u8>, description: &Vec<u8>, parameters: &Json) -> (r: Json)
    ensures
        r@ == descriptor_val((name@, description@, parameters@)),
{
    let mut inner: Vec<(Vec<u8>, Json)> = Vec::new();
    inner.push((byte_vec("name"), Json::Str(copy_bytes(name))));
    inner.push((byte_vec("description"), Json::Str(copy_bytes(description))));
    inner.push((byte_vec("parameters"), json_clone(parameters)));
    let ghost ginner = inner@;
    let mut outer: Vec<(Vec<u8>, Json)> = Vec::new();
    outer.push((byte_vec("type"), Json::Str(byte_vec("function"))));
    outer.push((byte_vec("function"), Json::Obj(inner)));
    let r = Json::Obj(outer);
    proof {
        broadcast use lemma_view_members_len, lemma_view_members_index;

        assert(crate::json::view_members(ginner) =~~= seq![
            (bytes_of("name"), JsonVal::Str(name@)),
            (bytes_of("description"), JsonVal::Str(description@)),
            (bytes_of("parameters"), parameters@),
        ]);
        assert(outer@[1].1@ == JsonVal::Obj(crate::json::view_members(ginner)));
        assert(crate::json::view_members(outer@) =~~= seq![
            (bytes_of("type"), JsonVal::Str(bytes_of("function"))),
            (bytes_of("function"), JsonVal::Obj(crate::json::view_members(ginner))),
        ]);
        assert(r@ == JsonVal::Obj(crate::json::view_members(outer@)));
        assert(r@ == descriptor_val((name@, description@, parameters@)));
    }
    r
}

/// Lists the registry as the JSON text of its descriptors, in insertion
/// order.
#[verifier::loop_isolation(false)]
pub fn list_tools_text(reg: &ToolRegistry) -> (r: Vec<u8>)
    ensures
        r@ == ser(descriptors_val(reg.model())),
{
    let mut items: Vec<Json> = Vec::new();
    let mut i: usize = 0;
    proof {
        lemma_reg_model_len(reg.tools@);
    }
    while i < reg.tools.len()
        invariant
            0 <= i <= reg.tools.len(),
            items@.len() == i,
            forall|j: int|
                0 <= j < i ==> #[trigger] items@[j]@ == descriptor_val(reg.model()[j]),
        decreases reg.tools.len() - i,
    {
        let t = &reg.tools[i];
        let d = build_descriptor(&t.name, &t.description, &t.parameters);
        proof {
            lemma_reg_model_index(reg.tools@, i as int);
        }
        items.push(d);
        i = i + 1;
    }
    let arr = Json::Arr(items);
    proof {
        broadcast use lemma_view_seq_len, lemma_view_seq_index;

        assert(crate::json::view_seq(items@).len() == items@.len());
        assert(reg.model().len() == items@.len());
        assert forall|j: int| 0 <= j < items@.len() implies #[trigger] crate::json::view_seq(
            items@,
        )[j] == descriptor_val(reg.model()[j]) by {
            assert(crate::json::view_seq(items@)[j] == items@[j]@);
        }
        assert(crate::json::view_seq(items@) =~~= Seq::new(
            reg.model().len(),
            |i: int| descriptor_val(reg.model()[i]),
        ));
        assert(arr@ == JsonVal::Arr(crate::json::view_seq(items@)));
        assert(arr@ == descriptors_val(reg.model()));
    }
    write_json(&arr)
}

/// What calling a tool through the bridge decides before any dispatch: an
/// unknown name is refused with `ToolNotFound`, a known name is dispatched
/// to the script function of that name.
pub fn call_tool_target(reg: &ToolRegistry, name: &Vec<u8>) -> (r: Result<Vec<u8>, AishError>)
    ensures
        r matches Ok(n) ==> spec_lookup(reg.model(), name@) is Some && n@ == name@,
        r matches Err(e) ==> spec_lookup(reg.model(), name@) is None && (e matches
            AishError::ToolNotFound(n) && n@ == name@),
{
    if reg.contains(name) {
        Ok(copy_bytes(name))
    } else {
        Err(AishError::ToolNotFound(copy_bytes(name)))
    }
}

} // verus!
