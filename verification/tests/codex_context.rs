use kaku::agent_status::codex_context::{is_codex_like_command, is_codex_process_name};
use kaku::workspace::AgentType;

fn other_agent_command() -> String {
    format!("{:?} --print", AgentType::Claude).to_ascii_lowercase()
}

#[test]
fn detects_codex_like_wrapped_commands() {
    assert!(is_codex_like_command("codex run"));
    assert!(is_codex_like_command("/usr/local/bin/codex run"));
    assert!(is_codex_like_command("FOO=bar codex run"));
    assert!(is_codex_like_command("node codex"));
    assert!(is_codex_like_command("bun codex"));
    assert!(is_codex_like_command("command codex run"));
    assert!(is_codex_like_command("builtin codex run"));
    assert!(is_codex_like_command("nocorrect codex run"));
    assert!(is_codex_like_command("time codex run"));
    assert!(is_codex_like_command("env FOO=bar codex run"));
}

#[test]
fn ignores_non_codex_commands() {
    assert!(!is_codex_like_command(&other_agent_command()));
    assert!(!is_codex_like_command("echo codex"));
    assert!(!is_codex_like_command(""));
}

#[test]
fn detects_codex_process_name() {
    assert!(is_codex_process_name("codex"));
    assert!(is_codex_process_name("/usr/local/bin/codex"));
    assert!(!is_codex_process_name("node"));
    assert!(!is_codex_process_name("bash"));
}
