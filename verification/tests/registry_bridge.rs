//! The tool registry and the native bridge: registration, listing,
//! lookup, shell information and subprocess outcomes.

use aish::bridge::{call_tool_target, execute_outcome, hostname_or_default, list_tools_text, AishError, ShellInfo};
use aish::registry::ToolRegistry;

#[test]
fn register_inserts_and_lists_in_order() {
    let mut reg = ToolRegistry::new();
    assert!(reg.register(b"alpha".to_vec(), b"first".to_vec(), &b"{}".to_vec()));
    assert!(reg.register(b"beta".to_vec(), b"second".to_vec(), &b"{\"type\":\"object\"}".to_vec()));
    assert_eq!(reg.count(), 2);
    let listed = String::from_utf8(list_tools_text(&reg)).unwrap();
    assert_eq!(
        listed,
        "[{\"type\":\"function\",\"function\":{\"name\":\"alpha\",\"description\":\"first\",\
         \"parameters\":{}}},{\"type\":\"function\",\"function\":{\"name\":\"beta\",\
         \"description\":\"second\",\"parameters\":{\"type\":\"object\"}}}]"
    );
}

#[test]
fn register_rejects_malformed_parameters() {
    let mut reg = ToolRegistry::new();
    assert!(reg.register(b"good".to_vec(), b"d".to_vec(), &b"{}".to_vec()));
    let before = String::from_utf8(list_tools_text(&reg)).unwrap();
    assert!(!reg.register(b"bad".to_vec(), b"d".to_vec(), &b"{not json".to_vec()));
    assert_eq!(reg.count(), 1);
    let after = String::from_utf8(list_tools_text(&reg)).unwrap();
    assert_eq!(before, after);
    assert!(!reg.contains(&b"bad".to_vec()));
}

#[test]
fn register_overwrites_in_place() {
    let mut reg = ToolRegistry::new();
    assert!(reg.register(b"a".to_vec(), b"one".to_vec(), &b"1".to_vec()));
    assert!(reg.register(b"b".to_vec(), b"two".to_vec(), &b"2".to_vec()));
    assert!(reg.register(b"a".to_vec(), b"changed".to_vec(), &b"3".to_vec()));
    assert_eq!(reg.count(), 2);
    let listed = String::from_utf8(list_tools_text(&reg)).unwrap();
    assert!(listed.contains("\"name\":\"a\",\"description\":\"changed\",\"parameters\":3"));
    let a_pos = listed.find("\"name\":\"a\"").unwrap();
    let b_pos = listed.find("\"name\":\"b\"").unwrap();
    assert!(a_pos < b_pos, "overwriting must keep the entry in place");
}

#[test]
fn distinct_registrations_are_both_kept() {
    let mut reg = ToolRegistry::new();
    assert!(reg.register(b"list_files".to_vec(), b"ls".to_vec(), &b"{}".to_vec()));
    assert!(reg.register(b"read_file".to_vec(), b"cat".to_vec(), &b"{}".to_vec()));
    assert!(reg.contains(&b"list_files".to_vec()));
    assert!(reg.contains(&b"read_file".to_vec()));
    assert_eq!(reg.count(), 2);
}

#[test]
fn call_target_requires_registration() {
    let mut reg = ToolRegistry::new();
    assert!(reg.register(b"known".to_vec(), b"d".to_vec(), &b"{}".to_vec()));
    assert!(matches!(call_tool_target(&reg, &b"known".to_vec()), Ok(n) if n == b"known".to_vec()));
    match call_tool_target(&reg, &b"missing".to_vec()) {
        Err(AishError::ToolNotFound(n)) => assert_eq!(n, b"missing".to_vec()),
        _ => panic!("an unknown tool must be refused"),
    }
}

#[test]
fn error_messages_name_their_cause() {
    let e = AishError::ToolNotFound(b"ghost".to_vec());
    assert_eq!(e.get_class(), "Error");
    assert_eq!(String::from_utf8(e.get_message()).unwrap(), "Tool not found: ghost");
    let f = AishError::CommandFailed { exit_code: -7, stdout: vec![], stderr: vec![] };
    assert_eq!(
        String::from_utf8(f.get_message()).unwrap(),
        "Command execution failed: exit code -7"
    );
}

#[test]
fn subprocess_success_yields_stdout() {
    match execute_outcome(b"out\n".to_vec(), b"warn\n".to_vec(), true, 0) {
        Ok(o) => assert_eq!(o, b"out\n".to_vec()),
        Err(_) => panic!("a successful command must yield its output"),
    }
}

#[test]
fn subprocess_failure_carries_code_and_streams() {
    match execute_outcome(b"partial".to_vec(), b"boom".to_vec(), false, 3) {
        Err(AishError::CommandFailed { exit_code, stdout, stderr }) => {
            assert_eq!(exit_code, 3);
            assert_eq!(stdout, b"partial".to_vec());
            assert_eq!(stderr, b"boom".to_vec());
        },
        _ => panic!("a failing command must fail with CommandFailed"),
    }
}

#[test]
fn shell_info_takes_documented_defaults() {
    let info = ShellInfo::from_env(None, None, None, None, None);
    assert_eq!(info.current_dir, b"/".to_vec());
    assert_eq!(info.mode, b"agent".to_vec());
    assert_eq!(info.user, b"user".to_vec());
    assert_eq!(info.hostname, b"localhost".to_vec());
    assert!(info.home_dir.is_none());
    let set = ShellInfo::from_env(
        Some(b"/tmp".to_vec()),
        Some(b"command".to_vec()),
        Some(b"ada".to_vec()),
        Some(b"box".to_vec()),
        Some(b"/home/ada".to_vec()),
    );
    assert_eq!(set.current_dir, b"/tmp".to_vec());
    assert_eq!(set.mode, b"command".to_vec());
    assert_eq!(set.user, b"ada".to_vec());
    assert_eq!(set.hostname, b"box".to_vec());
    assert_eq!(set.home_dir, Some(b"/home/ada".to_vec()));
}

#[test]
fn hostname_prefers_environment_then_query() {
    assert_eq!(
        hostname_or_default(Some(b"box".to_vec()), Some(b"other\n".to_vec())),
        b"box".to_vec()
    );
    assert_eq!(hostname_or_default(None, Some(b"  queried\n".to_vec())), b"queried".to_vec());
    assert_eq!(hostname_or_default(None, None), b"localhost".to_vec());
}
