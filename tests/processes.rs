use claude_quest::jobs::{exit_event, finished_output, gone_output, killed_output, line_event, JobTick};
use claude_quest::listing::{list_visible, listing_before, text_before};
use claude_quest::turn::{
    assistant_args, config_file_name, config_text, greet, plan_integrations, response_topic, service_topic,
    TOOL_SETTINGS,
};
use claude_quest::{DirEntry, IntegrationConfig, ProcessError, ProcessRegistry};

fn integration(kind: &str, id: &str) -> IntegrationConfig {
    IntegrationConfig {
        id: id.to_string(),
        name: format!("{} integration", id),
        integration_type: kind.to_string(),
        server_command: None,
        server_args: None,
        env_variable: None,
        api_key: None,
    }
}

#[test]
fn mcp_integration_gives_config_document() {
    let mut x = integration("mcp", "x");
    x.server_command = Some("foo".to_string());
    x.server_args = Some(vec!["a".to_string()]);
    let plan = plan_integrations(&vec![x]);
    assert!(plan.writes_config());
    assert!(plan.env.is_empty());
    assert_eq!(config_text(&plan.servers), r#"{"mcpServers":{"x":{"command":"foo","args":["a"]}}}"#);
    let parsed: serde_json::Value = serde_json::from_str(&config_text(&plan.servers)).unwrap();
    assert_eq!(parsed["mcpServers"]["x"]["args"][0], "a");
}

#[test]
fn config_document_escapes_and_replaces_by_id() {
    let mut a = integration("mcp", "a");
    a.server_command = Some("old".to_string());
    a.server_args = Some(vec![]);
    let mut b = integration("mcp", "b\"q");
    b.server_command = Some("run".to_string());
    b.server_args = Some(vec!["-x".to_string(), "y z".to_string()]);
    let mut a2 = integration("mcp", "a");
    a2.server_command = Some("new".to_string());
    a2.server_args = Some(vec!["1".to_string()]);
    let incomplete = integration("mcp", "c");
    let plan = plan_integrations(&vec![a, b, a2, incomplete]);
    assert_eq!(
        config_text(&plan.servers),
        r#"{"mcpServers":{"a":{"command":"new","args":["1"]},"b\"q":{"command":"run","args":["-x","y z"]}}}"#
    );
}

#[test]
fn api_keys_go_to_the_environment_and_force_an_empty_config() {
    let mut k = integration("api-key", "k");
    k.env_variable = Some("TOKEN".to_string());
    k.api_key = Some("SECRET-REDACTED".to_string());
    let mut empty = integration("api-key", "e");
    empty.env_variable = Some("OTHER".to_string());
    empty.api_key = Some(String::new());
    let plan = plan_integrations(&vec![k, empty, integration("webhook", "w")]);
    assert_eq!(plan.env, vec![("TOKEN".to_string(), "SECRET-REDACTED".to_string())]);
    assert!(plan.has_api_key);
    assert!(plan.writes_config());
    assert_eq!(config_text(&plan.servers), r#"{"mcpServers":{}}"#);

    let plan = plan_integrations(&vec![]);
    assert!(!plan.writes_config());
}

#[test]
fn assistant_arguments_in_order() {
    let args = assistant_args(
        &Some("sess".to_string()),
        &Some("be brief".to_string()),
        &Some("/tmp/.desk-mcp-c1.json".to_string()),
        "--help me",
    );
    let expected: Vec<String> = [
        "--resume",
        "sess",
        "--system-prompt",
        "be brief",
        "--mcp-config",
        "/tmp/.desk-mcp-c1.json",
        "--print",
        "--output-format",
        "stream-json",
        "--verbose",
        "--permission-mode",
        "bypassPermissions",
        "--settings",
        TOOL_SETTINGS,
        "--help me",
    ]
    .iter()
    .map(|s| s.to_string())
    .collect();
    assert_eq!(args, expected);
    let plain = assistant_args(&None, &None, &None, "hi");
    assert_eq!(plain.len(), 9);
    assert_eq!(plain[0], "--print");
    assert_eq!(plain[8], "hi");
}

#[test]
fn names_and_topics() {
    assert_eq!(config_file_name("desk", "c1"), ".desk-mcp-c1.json");
    assert_eq!(response_topic("helper", "c1"), "helper-response-c1");
    assert_eq!(service_topic("web"), "service-output-web");
    assert_eq!(greet("Ada"), "Hello, Ada! You've been greeted from Rust!");
}

#[test]
fn kill_without_job_succeeds_and_touches_nothing() {
    let mut reg: ProcessRegistry<u32> = ProcessRegistry::new();
    reg.register_job("a".to_string(), 1);
    assert!(reg.request_kill("nope"));
    assert!(reg.jobs.contains("a"));
    match reg.job_tick("a") {
        JobTick::Running(h) => assert_eq!(h, 1),
        _ => panic!("job a should still run"),
    }
}

#[test]
fn duplicate_service_is_refused() {
    let mut reg: ProcessRegistry<u32> = ProcessRegistry::new();
    assert!(reg.check_service_start("web").is_ok());
    assert!(reg.add_service("web".to_string(), 1).is_ok());
    match reg.check_service_start("web") {
        Err(e) => assert_eq!(e.message(), "Service is already running"),
        Ok(()) => panic!("second start should fail"),
    }
    assert_eq!(reg.add_service("web".to_string(), 2).err(), Some(2));
    assert_eq!(reg.running_services(), vec!["web".to_string()]);
}

#[test]
fn services_are_stopped_and_polled_by_id() {
    let mut reg: ProcessRegistry<u32> = ProcessRegistry::new();
    reg.add_service("a".to_string(), 1).unwrap();
    reg.add_service("b".to_string(), 2).unwrap();
    assert_eq!(reg.take_service("a"), Some(1));
    assert_eq!(reg.take_service("a"), None);
    reg.return_service("a".to_string(), 1);
    let mut ids = reg.running_services();
    ids.sort();
    assert_eq!(ids, vec!["a".to_string(), "b".to_string()]);
}

#[test]
fn killed_job_returns_interrupt_output_and_leaves_registry() {
    let mut reg: ProcessRegistry<u32> = ProcessRegistry::new();
    reg.register_job("j".to_string(), 5);
    reg.register_job("other".to_string(), 6);
    assert!(reg.request_kill("j"));
    match reg.job_tick("j") {
        JobTick::Killed(Some(h)) => assert_eq!(h, 5),
        _ => panic!("job should be killed"),
    }
    assert!(!reg.jobs.contains("j"));
    assert!(reg.jobs.contains("other"));
    let out = killed_output();
    assert_eq!((out.stdout.as_str(), out.stderr.as_str(), out.exit_code), ("", "^C", 130));
    assert!(matches!(reg.job_tick("j"), JobTick::Gone));
    let gone = gone_output();
    assert_eq!((gone.stdout.as_str(), gone.stderr.as_str(), gone.exit_code), ("", "Process terminated", -1));
}

#[test]
fn kill_requested_before_start_is_kept() {
    let mut reg: ProcessRegistry<u32> = ProcessRegistry::new();
    reg.request_kill("late");
    assert!(matches!(reg.job_tick("late"), JobTick::Killed(None)));
    reg.register_job("late".to_string(), 3);
    assert!(matches!(reg.job_tick("late"), JobTick::Running(3)));
}

#[test]
fn reused_job_id_overwrites() {
    let mut reg: ProcessRegistry<u32> = ProcessRegistry::new();
    reg.register_job("j".to_string(), 1);
    reg.register_job("j".to_string(), 2);
    assert!(matches!(reg.job_tick("j"), JobTick::Running(2)));
    assert!(matches!(reg.job_tick("j"), JobTick::Gone));
}

#[test]
fn finished_output_decodes_lossily() {
    let out = finished_output(&b"ok\n".to_vec(), &vec![0x66, 0xff], Some(3));
    assert_eq!(out.stdout, "ok\n");
    assert_eq!(out.stderr, "f\u{fffd}");
    assert_eq!(out.exit_code, 3);
    assert_eq!(finished_output(&vec![], &vec![], None).exit_code, -1);
}

#[test]
fn service_events() {
    let line = line_event("web", "listening".to_string(), true);
    assert_eq!((line.service_id.as_str(), line.output.as_str()), ("web", "listening"));
    assert!(line.is_stderr && !line.is_complete && line.exit_code.is_none());
    let end = exit_event("web", Some(0));
    assert!(end.is_complete && !end.is_stderr);
    assert_eq!(end.output, "");
    assert_eq!(end.exit_code, Some(0));
    assert_eq!(exit_event("web", None).exit_code, None);
}

#[test]
fn error_messages() {
    assert_eq!(ProcessError::SpawnAssistant("helper".to_string(), "nf".to_string()).message(),
        "Failed to spawn helper: nf");
    assert_eq!(ProcessError::CaptureStdout.message(), "Failed to capture stdout");
    assert_eq!(ProcessError::WriteConfig("ro".to_string()).message(), "Failed to write MCP config: ro");
    assert_eq!(ProcessError::SpawnCommand("x".to_string()).message(), "Failed to spawn command: x");
    assert_eq!(ProcessError::CollectOutput("x".to_string()).message(), "Failed to get output: x");
    assert_eq!(ProcessError::PollFailed("x".to_string()).message(), "Error checking process: x");
    assert_eq!(ProcessError::StartService("x".to_string()).message(), "Failed to start service: x");
    assert_eq!(ProcessError::StopService("x".to_string()).message(), "Failed to stop service: x");
    assert_eq!(ProcessError::NoHomeDirectory.message(), "Could not find home directory");
}

fn entry(name: &str, is_dir: bool) -> DirEntry {
    DirEntry { name: name.to_string(), path: format!("/d/{}", name), is_dir }
}

#[test]
fn listing_hides_dotfiles_and_orders_case_insensitively() {
    let out = list_visible(vec![entry(".hidden", false), entry("Banana", false), entry("apple", false)]);
    let names: Vec<&str> = out.iter().map(|e| e.name.as_str()).collect();
    assert_eq!(names, vec!["apple", "Banana"]);
}

#[test]
fn listing_puts_directories_first() {
    let out = list_visible(vec![
        entry("b.txt", false),
        entry("Zoo", true),
        entry(".git", true),
        entry("alpha", true),
        entry("A.md", false),
    ]);
    let names: Vec<&str> = out.iter().map(|e| e.name.as_str()).collect();
    assert_eq!(names, vec!["alpha", "Zoo", "A.md", "b.txt"]);
    assert_eq!(out[0].path, "/d/alpha");
    assert!(list_visible(vec![]).is_empty());
}

#[test]
fn listing_comparison() {
    assert!(listing_before(true, "z", false, "a"));
    assert!(!listing_before(false, "a", true, "z"));
    assert!(listing_before(false, "apple", false, "banana"));
    assert!(!listing_before(false, "apple", false, "apple"));
    assert!(text_before("ab", "abc"));
    assert!(!text_before("abc", "ab"));
    assert!(text_before("", "a"));
}

#[test]
fn config_document_escapes_control_characters() {
    let mut x = integration("mcp", "x");
    x.server_command = Some("a\u{1}\tb\\".to_string());
    x.server_args = Some(vec!["line\n".to_string()]);
    let plan = plan_integrations(&vec![x]);
    assert_eq!(
        config_text(&plan.servers),
        r#"{"mcpServers":{"x":{"command":"a\u0001\tb\\","args":["line\n"]}}}"#
    );
}
