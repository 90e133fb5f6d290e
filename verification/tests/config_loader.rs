//! Configuration loading, the shell mode, the script host's queries and
//! the module resolver.

use aish::config::{InputAction, ModeToggleHandler, ShellMode, TypeScriptConfig, route_input};
use aish::isolate::TypeScriptConfigLoader;
use aish::json::{parse_json, Json};
use aish::loader::{LoadedKind, MediaKind, ResolutionError, TsModuleLoader};

fn loader() -> TypeScriptConfigLoader {
    TypeScriptConfigLoader::new(b"/home/ada/.aish.ts".to_vec())
}

fn json_text(s: &str) -> Json {
    parse_json(&s.as_bytes().to_vec()).expect("test text must be valid JSON")
}

#[test]
fn config_fields_match_the_export() {
    let export = json_text(
        "{\"ai\":{\"model\":\"gpt-4\",\"api_key\":\"SECRET-REDACTED\",\"temperature\":0.7,\
         \"max_tokens\":1000},\"shell\":{\"prompt\":\"aish> \",\"history_size\":1000,\
         \"multiline_continuation\":\"... \"}}",
    );
    let c = loader().load_config(Some(&export));
    let ai = c.ai.as_ref().expect("the AI section was exported");
    assert_eq!(ai.model, Some(b"gpt-4".to_vec()));
    assert_eq!(ai.api_key, Some(b"SECRET-REDACTED".to_vec()));
    assert_eq!(ai.base_url, Some(b"https://api.openai.com/v1".to_vec()));
    assert_eq!(ai.temperature, Some(b"0.7".to_vec()));
    assert_eq!(ai.max_tokens, Some(1000));
    let sh = c.shell.as_ref().expect("the shell section was exported");
    assert_eq!(sh.prompt, Some(b"aish> ".to_vec()));
    assert_eq!(sh.history_size, Some(1000));
    assert_eq!(sh.multiline_continuation, Some(b"... ".to_vec()));
    assert_eq!(sh.mode_toggle_key, Some(b"esc-x".to_vec()));
}

#[test]
fn unspecified_leaves_take_documented_defaults() {
    let export = json_text("{\"ai\":{\"model\":\"my-model\"}}");
    let c = loader().load_config(Some(&export));
    let ai = c.ai.as_ref().expect("defaults must fill the AI section");
    assert_eq!(ai.model, Some(b"my-model".to_vec()));
    assert_eq!(ai.api_key, None, "no credential is ever invented");
    assert_eq!(ai.base_url, Some(b"https://api.openai.com/v1".to_vec()));
    assert_eq!(ai.temperature, Some(b"0.7".to_vec()));
    assert_eq!(ai.max_tokens, Some(1000));
    let sh = c.shell.as_ref().expect("a missing section becomes the default section");
    assert_eq!(sh.prompt, Some(b"aish> ".to_vec()));
    assert_eq!(sh.history_size, Some(1000));
    assert_eq!(sh.multiline_continuation, Some(b"... ".to_vec()));
    assert_eq!(sh.mode_toggle_key, Some(b"esc-x".to_vec()));
}

#[test]
fn missing_export_takes_defaults() {
    let c = loader().load_config(None);
    let ai = c.ai.as_ref().unwrap();
    assert_eq!(ai.model, Some(b"gpt-3.5-turbo".to_vec()));
    assert_eq!(ai.base_url, Some(b"https://api.openai.com/v1".to_vec()));
    assert_eq!(ai.temperature, Some(b"0.7".to_vec()));
    assert_eq!(ai.max_tokens, Some(1000));
    let sh = c.shell.as_ref().unwrap();
    assert_eq!(sh.prompt, Some(b"aish> ".to_vec()));
    assert_eq!(sh.history_size, Some(1000));
    assert_eq!(sh.multiline_continuation, Some(b"... ".to_vec()));
    assert_eq!(sh.mode_toggle_key, Some(b"esc-x".to_vec()));
}

#[test]
fn malformed_export_falls_back_to_defaults() {
    let export = json_text("{\"ai\":{\"max_tokens\":\"plenty\"}}");
    let c = loader().load_config(Some(&export));
    assert_eq!(c.ai.as_ref().unwrap().model, Some(b"gpt-3.5-turbo".to_vec()));
    let not_an_object = json_text("[1,2]");
    let d = loader().load_config(Some(&not_an_object));
    assert_eq!(d.shell.as_ref().unwrap().prompt, Some(b"aish> ".to_vec()));
}

#[test]
fn use_site_defaults_fill_unset_leaves() {
    let c = TypeScriptConfig { ai: None, shell: None };
    assert_eq!(c.effective_model(), b"gpt-3.5-turbo".to_vec());
    assert_eq!(c.effective_base_url(), b"https://api.openai.com/v1".to_vec());
    assert_eq!(c.effective_temperature(), b"0.7".to_vec());
    assert_eq!(c.effective_max_tokens(), 1000);
    assert_eq!(c.api_key(), None);
    assert_eq!(c.get_prompt(), b"aish> ".to_vec());
    assert_eq!(c.get_continuation_prompt(), b"... ".to_vec());
}

#[test]
fn absent_prompt_function_yields_no_value() {
    assert_eq!(loader().call_prompt_function(None), None);
    let not_a_string = json_text("{\"x\":1}");
    assert_eq!(loader().call_prompt_function(Some(&not_a_string)), None);
    let custom = json_text("\"[12:00] ada@box$ \"");
    assert_eq!(
        loader().call_prompt_function(Some(&custom)),
        Some(b"[12:00] ada@box$ ".to_vec())
    );
}

#[test]
fn tools_export_builds_the_registry() {
    let export = json_text(
        "{\"tools\":{\"list_files\":{\"name\":\"list_files\",\"description\":\"ls\",\
         \"parameters\":{\"type\":\"object\"}},\"git_status\":{\"name\":\"git_status\",\
         \"description\":\"st\",\"parameters\":{}}}}",
    );
    let reg = loader().load_agent_tools(Some(&export)).expect("a well-formed table must load");
    assert_eq!(reg.count(), 2);
    assert!(reg.contains(&b"list_files".to_vec()));
    assert!(reg.contains(&b"git_status".to_vec()));
    let empty = loader().load_agent_tools(None).unwrap();
    assert_eq!(empty.count(), 0);
    let malformed = json_text("{\"tools\":{\"x\":{\"description\":\"no name\"}}}");
    assert!(loader().load_agent_tools(Some(&malformed)).is_none());
}

#[test]
fn query_texts_name_the_target() {
    let script = loader().call_agent_tool(&b"list_files".to_vec(), &json_text("{\"path\":\".\"}"));
    let text = String::from_utf8(script).unwrap();
    assert_eq!(
        text,
        "(function() { if (typeof globalThis.list_files === 'function') { const result = \
         globalThis.list_files({\"path\":\".\"}); return JSON.stringify(result); } else { throw \
         new Error('Function list_files not found or not a function'); } })()"
    );
    let export = aish::isolate::get_export_script(&b"config".to_vec());
    assert!(String::from_utf8(export).unwrap().contains("JSON.stringify(globalThis.config)"));
}

#[test]
fn candidates_search_home_then_cwd() {
    let home = b"/home/ada".to_vec();
    let cands = TypeScriptConfigLoader::config_candidates(Some(&home));
    assert_eq!(cands.len(), 3);
    assert_eq!(cands[0], b"/home/ada/.aish.ts".to_vec());
    assert_eq!(cands[1], b"/home/ada/aish.ts".to_vec());
    assert_eq!(cands[2], b"aish.ts".to_vec());
    let bare = TypeScriptConfigLoader::config_candidates(None);
    assert_eq!(bare, vec![b"aish.ts".to_vec()]);
    assert_eq!(
        TypeScriptConfigLoader::default_config_path(Some(&home)),
        b"/home/ada/.aish.ts".to_vec()
    );
}

#[test]
fn mode_spelling_round_trips() {
    assert_eq!(ShellMode::from_str("command"), ShellMode::Command);
    assert_eq!(ShellMode::from_str("CoMmAnD"), ShellMode::Command);
    assert_eq!(ShellMode::from_str("agent"), ShellMode::Agent);
    assert_eq!(ShellMode::from_str("anything else"), ShellMode::Agent);
    assert_eq!(ShellMode::Agent.as_str(), "agent");
    assert_eq!(ShellMode::Command.as_str(), "command");
    assert_eq!(ShellMode::Agent.toggled(), ShellMode::Command);
    assert_eq!(ShellMode::Command.toggled(), ShellMode::Agent);
}

#[test]
fn toggle_handler_reads_once() {
    let mut h = ModeToggleHandler::new();
    assert!(!h.check_toggle());
    h.set_toggle();
    assert!(h.check_toggle());
    assert!(!h.check_toggle());
}

#[test]
fn resolver_joins_relative_specifiers() {
    let l = TsModuleLoader;
    let absolute = l
        .resolve(&b"file:///opt/tool.ts".to_vec(), &b"file:///opt/main.ts".to_vec())
        .unwrap();
    assert_eq!(absolute, b"file:///opt/tool.ts".to_vec());
    let relative = l
        .resolve(&b"./helper.ts".to_vec(), &b"file:///opt/app/main.ts".to_vec())
        .unwrap();
    assert_eq!(relative, b"file:///opt/app/helper.ts".to_vec());
    let upward = l
        .resolve(&b"../shared.ts".to_vec(), &b"file:///opt/app/main.ts".to_vec())
        .unwrap();
    assert_eq!(upward, b"file:///opt/shared.ts".to_vec());
    assert!(matches!(
        l.resolve(&b"bare_specifier".to_vec(), &b"file:///opt/main.ts".to_vec()),
        Err(ResolutionError::PrefixMissing)
    ));
}

#[test]
fn loading_classifies_and_lowers() {
    let l = TsModuleLoader;
    assert_eq!(l.classify(&b"a/b.ts".to_vec()), MediaKind::Ts);
    assert_eq!(l.classify(&b"a/b.d.ts".to_vec()), MediaKind::Js);
    assert_eq!(l.classify(&b"a/b.tsx".to_vec()), MediaKind::Tsx);
    assert_eq!(l.classify(&b"a/b.json".to_vec()), MediaKind::Data);
    assert_eq!(l.classify(&b"a/b.js".to_vec()), MediaKind::Js);
    assert_eq!(l.classify(&b"a/b".to_vec()), MediaKind::Js);

    let js = l.load(&b"m.js".to_vec(), b"export const x = 1;".to_vec()).unwrap();
    assert_eq!(js.0, LoadedKind::JavaScript);
    assert_eq!(js.1, b"export const x = 1;".to_vec());

    let data = l.load(&b"m.json".to_vec(), b"{\"a\":1}".to_vec()).unwrap();
    assert_eq!(data.0, LoadedKind::Data);

    let lowered = l
        .load(&b"m.ts".to_vec(), b"export const x: number = 1;".to_vec())
        .unwrap();
    assert_eq!(lowered.0, LoadedKind::JavaScript);
    let text = String::from_utf8(lowered.1).unwrap();
    assert!(!text.contains(": number"), "type annotations must be stripped: {}", text);
    assert!(text.contains("const x"));

    assert!(l.load(&b"m.ts".to_vec(), b"const ] = broken".to_vec()).is_err());
}

#[test]
fn input_routing_follows_the_mode() {
    let route = |mode, s: &str| route_input(mode, &s.as_bytes().to_vec());
    assert!(matches!(route(ShellMode::Agent, "  exit  "), InputAction::Exit));
    assert!(matches!(route(ShellMode::Command, "quit"), InputAction::Exit));
    assert!(matches!(route(ShellMode::Agent, "help"), InputAction::Help));
    assert!(matches!(route(ShellMode::Agent, ""), InputAction::Nothing));
    assert!(matches!(route(ShellMode::Agent, "$   "), InputAction::Nothing));
    match route(ShellMode::Agent, "$ ls -la") {
        InputAction::RunCommand(c) => assert_eq!(c, b"ls -la".to_vec()),
        _ => panic!("a dollar prefix must run a command"),
    }
    match route(ShellMode::Agent, "list all files") {
        InputAction::AskModel(p) => assert_eq!(p, b"list all files".to_vec()),
        _ => panic!("plain agent-mode text must go to the model"),
    }
    match route(ShellMode::Command, " ls -la ") {
        InputAction::RunCommand(c) => assert_eq!(c, b"ls -la".to_vec()),
        _ => panic!("command-mode text must run as a command"),
    }
}
