//! The script-host side of the embedded engine.
//!
//! Each top-level operation — loading the configuration, calling a prompt
//! function, loading the tools table, calling a tool — re-creates a fresh
//! engine context, runs the whole script, performs exactly one query and
//! discards the context; only the tool registry outlives it. The engine
//! itself executes elsewhere; this module builds the exact query text the
//! engine is given and decides what every engine outcome means.

use vstd::prelude::*;
use crate::json::{Json, JsonVal, ser};
use crate::registry::{ToolRegistry, spec_register};
use crate::agent::{obj_lookup, push_all, push_str_bytes};
use crate::config::TypeScriptConfig;
use crate::text::{bytes_of, byte_vec, copy_bytes};

verus! {

/// The argument list of a query: the printed arguments joined by a comma
/// and a space.
pub open spec fn spec_join_args(args: Seq<JsonVal>) -> Seq<u8>
    decreases args,
{
    if args.len() == 0 {
        Seq::empty()
    } else if args.len() == 1 {
        ser(args[0])
    } else {
        ser(args[0]) + bytes_of(", ") + spec_join_args(args.subrange(1, args.len() as int))
    }
}

/// The query text that calls a script function: it checks the global of
/// that name is a function, calls it with the arguments, and hands back
/// the JSON spelling of its return value — and throws when the name is
/// absent or not callable.
pub open spec fn spec_call_script(name: Seq<u8>, args: Seq<JsonVal>) -> Seq<u8> {
    bytes_of("(function() { if (typeof globalThis.") + name + bytes_of(
        " === 'function') { const result = globalThis.",
    ) + name + bytes_of("(") + spec_join_args(args) + bytes_of(
        "); return JSON.stringify(result); } else { throw new Error('Function ",
    ) + name + bytes_of(" not found or not a function'); } })()")
}

/// The query text that reads a global binding without invoking it: it
/// hands back the JSON spelling of the global of that name, and throws
/// when the name is absent.
pub open spec fn spec_export_script(name: Seq<u8>) -> Seq<u8> {
    bytes_of("(function() { if (typeof globalThis.") + name + bytes_of(
        " !== 'undefined') { return JSON.stringify(globalThis.",
    ) + name + bytes_of("); } else { throw new Error('Export ") + name + bytes_of(
        " not found'); } })()",
    )
}

/// Appends the printed arguments `args[i..]`, comma separated, to `out`.
fn write_args(args: &Vec<Json>, i: usize, out: &mut Vec<u8>)
    requires
        i <= args.len(),
    ensures
        final(out)@ == old(out)@ + spec_join_args(crate::json::view_seq(args@).skip(i as int)),
    decreases args, args.len() - i,
{
    broadcast use crate::json::lemma_view_seq_len, crate::json::lemma_view_seq_index;

    let ghost s = crate::json::view_seq(args@).skip(i as int);
    if i == args.len() {
        assert(s =~= Seq::<JsonVal>::empty());
        assert(out@ + Seq::<u8>::empty() =~= out@);
    } else {
        crate::json::write_json_onto(&args[i], out);
        proof {
            assert(s[0] == args@[i as int]@);
        }
        if i + 1 == args.len() {
            assert(s.len() == 1);
        } else {
            let ghost mid = out@;
            push_str_bytes(out, ", ");
            let ghost mid2 = out@;
            write_args(args, i + 1, out);
            proof {
                assert(s.subrange(1, s.len() as int) =~= crate::json::view_seq(args@).skip(i + 1));
                assert(mid2 =~= old(out)@ + ser(s[0]) + bytes_of(", "));
            }
        }
    }
}

/// Builds the query text that calls the script function `name` with the
/// given arguments.
pub fn call_function_script(name: &Vec<u8>, args: &Vec<Json>) -> (r: Vec<u8>)
    ensures
        r@ == spec_call_script(name@, crate::json::view_seq(args@)),
{
    let mut out = byte_vec("(function() { if (typeof globalThis.");
    push_all(&mut out, name);
    push_str_bytes(&mut out, " === 'function') { const result = globalThis.");
    push_all(&mut out, name);
    push_str_bytes(&mut out, "(");
    write_args(args, 0, &mut out);
    proof {
        assert(crate::json::view_seq(args@).skip(0) =~= crate::json::view_seq(args@));
    }
    push_str_bytes(&mut out, "); return JSON.stringify(result); } else { throw new Error('Function ");
    push_all(&mut out, name);
    push_str_bytes(&mut out, " not found or not a function'); } })()");
    out
}

/// Builds the query text that reads the script global `name`.
pub fn get_export_script(name: &Vec<u8>) -> (r: Vec<u8>)
    ensures
        r@ == spec_export_script(name@),
{
    let mut out = byte_vec("(function() { if (typeof globalThis.");
    push_all(&mut out, name);
    push_str_bytes(&mut out, " !== 'undefined') { return JSON.stringify(globalThis.");
    push_all(&mut out, name);
    push_str_bytes(&mut out, "); } else { throw new Error('Export ");
    push_all(&mut out, name);
    push_str_bytes(&mut out, " not found'); } })()");
    out
}

/// One entry of the script's tools table: its key names the tool; its
/// value must carry a string `name`, a string `description`, and some
/// `parameters` value.
pub open spec fn spec_tool_entry(k: Seq<u8>, v: JsonVal) -> Option<(Seq<u8>, Seq<u8>, JsonVal)> {
    if v is Obj {
        let m = v->Obj_0;
        let n_v = obj_lookup(m, bytes_of("name"));
        let d_v = obj_lookup(m, bytes_of("description"));
        let p_v = obj_lookup(m, bytes_of("parameters"));
        if n_v is Some && n_v->Some_0 is Str && d_v is Some && d_v->Some_0 is Str && p_v is Some {
            Option::Some((k, d_v->Some_0->Str_0, p_v->Some_0))
        } else {
            Option::None
        }
    } else {
        Option::None
    }
}

/// The registry the tools-table members build up, entry by entry in table
/// order, later entries of the same name overwriting earlier ones.
pub open spec fn spec_load_tools(
    m: Seq<(Seq<u8>, Seq<u8>, JsonVal)>,
    ms: Seq<(Seq<u8>, JsonVal)>,
) -> Option<Seq<(Seq<u8>, Seq<u8>, JsonVal)>>
    decreases ms.len(),
{
    if ms.len() == 0 {
        Option::Some(m)
    } else {
        match spec_tool_entry(ms[0].0, ms[0].1) {
            Option::None => Option::None,
            Option::Some(e) => spec_load_tools(
                spec_register(m, e.0, e.1, e.2),
                ms.subrange(1, ms.len() as int),
            ),
        }
    }
}

/// Coordinates the per-operation engine runs for one script file: it
/// remembers which script to run and decides what each engine outcome
/// means. The engine runs and their I/O stay with the host.
pub struct TypeScriptConfigLoader {
    pub script_path: Vec<u8>,
}

impl TypeScriptConfigLoader {
    /// A loader bound to one script path.
    pub fn new(script_path: Vec<u8>) -> (r: TypeScriptConfigLoader)
        ensures
            r.script_path@ == script_path@,
    {
        TypeScriptConfigLoader { script_path }
    }

    /// The candidate configuration paths, in search order: `.aish.ts` and
    /// `aish.ts` under the home directory when one is known, then
    /// `aish.ts` beside the shell.
    pub fn config_candidates(home_dir: Option<&Vec<u8>>) -> (r: Vec<Vec<u8>>)
        ensures
            (match home_dir {
                Some(h) => r@.len() == 3 && r@[0]@ == h@ + bytes_of("/.aish.ts") && r@[1]@ == h@
                    + bytes_of("/aish.ts") && r@[2]@ == bytes_of("aish.ts"),
                None => r@.len() == 1 && r@[0]@ == bytes_of("aish.ts"),
            }),
    {
        let mut out: Vec<Vec<u8>> = Vec::new();
        match home_dir {
            Some(h) => {
                let mut a = copy_bytes(h);
                push_str_bytes(&mut a, "/.aish.ts");
                out.push(a);
                let mut b = copy_bytes(h);
                push_str_bytes(&mut b, "/aish.ts");
                out.push(b);
                out.push(byte_vec("aish.ts"));
            },
            None => {
                out.push(byte_vec("aish.ts"));
            },
        }
        out
    }

    /// Where a fresh default configuration is written: `.aish.ts` under
    /// the home directory when one is known, else beside the shell.
    pub fn default_config_path(home_dir: Option<&Vec<u8>>) -> (r: Vec<u8>)
        ensures
            (match home_dir {
                Some(h) => r@ == h@ + bytes_of("/.aish.ts"),
                None => r@ == bytes_of(".aish.ts"),
            }),
    {
        match home_dir {
            Some(h) => {
                let mut a = copy_bytes(h);
                push_str_bytes(&mut a, "/.aish.ts");
                a
            },
            None => byte_vec(".aish.ts"),
        }
    }

    /// The configuration the script's `config` export means: a well-formed
    /// export keeps every specified leaf exactly and fills every
    /// unspecified leaf with its one documented default; a malformed or
    /// missing export means the whole default configuration.
    pub fn load_config(&self, export: Option<&Json>) -> (r: TypeScriptConfig)
        ensures
            (match export {
                Some(v) => crate::config::spec_config_of(v@) matches Some(c)
                    && crate::config::config_model(r) == crate::config::spec_with_defaults(c),
                None => false,
            }) || ((match export {
                Some(v) => crate::config::spec_config_of(v@) is None,
                None => true,
            }) && crate::config::config_model(r) == crate::config::spec_default_config()),
    {
        TypeScriptConfig::from_export(export)
    }

    /// What a prompt-function call produced: the prompt text when the call
    /// answered a string, and no value on any other answer or on a failed
    /// call — an absent prompt function never surfaces as an error.
    pub fn call_prompt_function(&self, outcome: Option<&Json>) -> (r: Option<Vec<u8>>)
        ensures
            r is Some <==> (outcome matches Some(v) && v@ is Str),
            r matches Some(p) ==> p@ == outcome->Some_0@->Str_0,
    {
        match outcome {
            Some(Json::Str(s)) => Some(copy_bytes(s)),
            _ => None,
        }
    }

    /// The registry the script's `agentTools` export builds: its `tools`
    /// table read entry by entry in order. A missing export means an empty
    /// registry; a malformed table means no registry at all.
    #[verifier::loop_isolation(false)]
    pub fn load_agent_tools(&self, export: Option<&Json>) -> (r: Option<ToolRegistry>)
        ensures
            (match export {
                None => r matches Some(reg) && reg.model() == Seq::<(Seq<u8>, Seq<u8>,
                    JsonVal)>::empty() && reg.well_formed(),
                Some(v) => {
                    let table = obj_lookup(v@->Obj_0, bytes_of("tools"));
                    if v@ is Obj && table is Some && table->Some_0 is Obj {
                        match spec_load_tools(Seq::empty(), table->Some_0->Obj_0) {
                            Option::Some(fm) => r matches Some(reg) && reg.model() == fm
                                && reg.well_formed(),
                            Option::None => r is None,
                        }
                    } else {
                        r is None
                    }
                },
            }),
    {
        broadcast use crate::json::lemma_view_members_len, crate::json::lemma_view_members_index;

        let v = match export {
            None => {
                return Some(ToolRegistry::new());
            },
            Some(v) => v,
        };
        let vm = match v {
            Json::Obj(vm) => vm,
            _ => {
                return None;
            },
        };
        let tm = match crate::agent::json_obj_get(vm, "tools") {
            Some(Json::Obj(tm)) => tm,
            _ => {
                return None;
            },
        };
        let ghost tms = crate::json::view_members(tm@);
        let mut reg = ToolRegistry::new();
        let mut i: usize = 0;
        proof {
            assert(tms.skip(0) =~= tms);
        }
        while i < tm.len()
            invariant
                0 <= i <= tm.len(),
                reg.well_formed(),
                spec_load_tools(Seq::empty(), tms) == spec_load_tools(
                    reg.model(),
                    tms.skip(i as int),
                ),
            decreases tm.len() - i,
        {
            let ghost s = tms.skip(i as int);
            proof {
                assert(s[0] == (tm@[i as int].0@, tm@[i as int].1@));
                assert(s.subrange(1, s.len() as int) =~= tms.skip(i + 1));
            }
            let entry = &tm[i].1;
            let em = match entry {
                Json::Obj(em) => em,
                _ => {
                    return None;
                },
            };
            match crate::agent::json_obj_get(em, "name") {
                Some(Json::Str(_)) => {
                },
                _ => {
                    return None;
                },
            }
            let desc = match crate::agent::json_obj_get(em, "description") {
                Some(Json::Str(d)) => copy_bytes(d),
                _ => {
                    return None;
                },
            };
            let params = match crate::agent::json_obj_get(em, "parameters") {
                Some(p) => crate::json::json_clone(p),
                None => {
                    return None;
                },
            };
            let key = copy_bytes(&tm[i].0);
            reg.insert_value(key, desc, params);
            i = i + 1;
        }
        proof {
            assert(tms.skip(tms.len() as int) =~= Seq::<(Seq<u8>, JsonVal)>::empty());
        }
        Some(reg)
    }

    /// The query text that dispatches one tool call to the script function
    /// of that name, with the parameters as its one argument.
    pub fn call_agent_tool(&self, tool_name: &Vec<u8>, parameters: &Json) -> (r: Vec<u8>)
        ensures
            r@ == spec_call_script(tool_name@, seq![parameters@]),
    {
        let mut args: Vec<Json> = Vec::new();
        args.push(crate::json::json_clone(parameters));
        proof {
            broadcast use crate::json::lemma_view_seq_len, crate::json::lemma_view_seq_index;

            assert(crate::json::view_seq(args@) =~= seq![parameters@]);
        }
        call_function_script(tool_name, &args)
    }
}

} // verus!
