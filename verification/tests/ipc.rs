use nonstop_notify::cli::{command_from_args, config_path_from_args, ArgsError, Command};
use nonstop_notify::ipc::{
    control_reply, daemon_args, finish_queue_operation, is_stop_command, queue_line,
    queued_lines, stop_response_result,
};

fn strings(items: &[&str]) -> Vec<String> {
    items.iter().map(|s| s.to_string()).collect()
}

#[test]
fn stop_command_contract_is_single_word() {
    assert!(is_stop_command("stop\n"));
    assert!(!is_stop_command("stop-now\n"));
    assert!(!is_stop_command("stop {\"force\":true}\n"));
}

#[test]
fn queue_lines_are_trimmed_and_blank_ones_dropped() {
    assert_eq!(queue_line("  {\"event\":\"seed\"} \r\n"), "{\"event\":\"seed\"}\n");
    let text = "{\"event\":\"a\"}\n\n  \r\n {\"event\":\"b\"} \r\n{\"event\":\"c\"}";
    assert_eq!(
        queued_lines(text),
        strings(&["{\"event\":\"a\"}", "{\"event\":\"b\"}", "{\"event\":\"c\"}"])
    );
    assert!(queued_lines("").is_empty());
    assert!(queued_lines("\n \n\t").is_empty());
}

#[test]
fn appended_events_drain_in_order() {
    let mut queue = String::new();
    queue.push_str(&queue_line("{\"event\":\"seed\"}"));
    queue.push_str(&queue_line("   "));
    queue.push_str(&queue_line(" {\"event\":\"queued\"}\t"));
    assert_eq!(
        queued_lines(&queue),
        strings(&["{\"event\":\"seed\"}", "{\"event\":\"queued\"}"])
    );
}

#[test]
fn queued_lines_agree_with_str_lines() {
    let text = "a\r\nb\n  c  \r\n\n\u{a0}d\u{2003}\ne\r";
    let expected: Vec<String> = text
        .lines()
        .map(str::trim)
        .filter(|line| !line.is_empty())
        .map(str::to_string)
        .collect();
    assert_eq!(queued_lines(text), expected);
}

#[test]
fn control_replies() {
    let (stop, reply) = control_reply("  stop \n");
    assert!(stop);
    assert_eq!(reply, "{\"ok\":true}\n");
    let (stop, reply) = control_reply("restart\n");
    assert!(!stop);
    assert_eq!(reply, "{\"ok\":false,\"error\":\"unknown command\"}\n");
    assert_eq!(stop_response_result("{\"ok\":true}\n"), Ok(()));
    assert_eq!(
        stop_response_result(" {\"ok\":false,\"error\":\"unknown command\"}\n"),
        Err("{\"ok\":false,\"error\":\"unknown command\"}".to_string())
    );
    assert_eq!(stop_response_result(""), Err(String::new()));
}

#[test]
fn queue_operation_error_wins() {
    let ok: Result<Vec<u8>, &str> = Ok(vec![1]);
    assert_eq!(finish_queue_operation(ok.clone(), Ok(())), Ok(vec![1]));
    assert_eq!(finish_queue_operation(ok, Err("unlock")), Err("unlock"));
    let bad: Result<Vec<u8>, &str> = Err("read");
    assert_eq!(finish_queue_operation(bad, Err("unlock")), Err("read"));
}

#[test]
fn daemon_command_line() {
    assert_eq!(daemon_args(None), strings(&["daemon"]));
    assert_eq!(
        daemon_args(Some("/c/config.json")),
        strings(&["daemon", "--config", "/c/config.json"])
    );
    let mut args = strings(&["nonstop-notify"]);
    args.extend(daemon_args(Some("/c/config.json")));
    assert_eq!(
        config_path_from_args(&args, Some("/env.json".into())),
        Ok(Some("/c/config.json".to_string()))
    );
    assert_eq!(command_from_args(&args), Command::Daemon);
}

#[test]
fn config_path_from_arguments_or_environment() {
    assert_eq!(
        config_path_from_args(&strings(&["p", "emit", "--json", "{}"]), Some("/env.json".into())),
        Ok(Some("/env.json".to_string()))
    );
    assert_eq!(config_path_from_args(&strings(&["p"]), None), Ok(None));
    assert_eq!(
        config_path_from_args(&strings(&["p", "--config"]), None),
        Err(ArgsError::ConfigRequiresPath)
    );
    assert_eq!(
        config_path_from_args(&strings(&["p", "--config", "--self-check"]), None),
        Err(ArgsError::ConfigRequiresPath)
    );
    assert_eq!(
        config_path_from_args(&strings(&["p", "--config", "a.json", "--config", "b.json"]), None),
        Ok(Some("a.json".to_string()))
    );
}

#[test]
fn commands_from_arguments() {
    assert_eq!(command_from_args(&strings(&["p", "daemon", "--self-check"])), Command::SelfCheck);
    assert_eq!(command_from_args(&strings(&["p", "emit", "x", "--stdin"])), Command::EmitStdin);
    assert_eq!(
        command_from_args(&strings(&["p", "emit", "--json", "{\"event\":\"x\"}"])),
        Command::EmitJson("{\"event\":\"x\"}".into())
    );
    assert_eq!(
        command_from_args(&strings(&["p", "emit", "--json"])),
        Command::EmitJson(String::new())
    );
    assert_eq!(command_from_args(&strings(&["p", "emit"])), Command::Nothing);
    assert_eq!(command_from_args(&strings(&["p"])), Command::Nothing);
    assert_eq!(command_from_args(&strings(&[])), Command::Nothing);
}
