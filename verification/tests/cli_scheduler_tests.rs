use mmbackup::cli::{check_start, parse_delay, StartDecision};
use mmbackup::scheduler::{plan_cycle, BackupJob};

fn args(list: &[&str]) -> Vec<String> {
    list.iter().map(|s| s.to_string()).collect()
}

#[test]
fn seven_arguments_run_the_loop() {
    let d = check_start(&args(&["mmbackup", "1", "h", "l", "r", "u", "p"]));
    assert_eq!(d, StartDecision::Run);
}

#[test]
fn help_flag_asks_for_usage() {
    assert_eq!(check_start(&args(&["mmbackup", "--help"])), StartDecision::Help);
}

#[test]
fn anything_else_asks_for_the_hint() {
    assert_eq!(check_start(&args(&["mmbackup"])), StartDecision::Hint);
    assert_eq!(check_start(&args(&["mmbackup", "5", "host"])), StartDecision::Hint);
}

#[test]
fn delay_parses_as_decimal() {
    assert_eq!(parse_delay("15"), Some(15));
    assert_eq!(parse_delay("0"), Some(0));
    assert_eq!(parse_delay("+7"), Some(7));
    assert_eq!(parse_delay("4294967295"), Some(u32::MAX));
}

#[test]
fn bad_delays_are_rejected() {
    assert_eq!(parse_delay(""), None);
    assert_eq!(parse_delay("+"), None);
    assert_eq!(parse_delay("abc"), None);
    assert_eq!(parse_delay("12x"), None);
    assert_eq!(parse_delay("-3"), None);
    assert_eq!(parse_delay("4294967296"), None);
}

#[test]
fn scenario_one_minute_project_backup() {
    let job = BackupJob {
        delay_minutes: 1,
        host: "example.com".to_string(),
        local_path: "/data/project".to_string(),
        remote_dir: "/backups/".to_string(),
        username: "u".to_string(),
        password: "p".to_string(),
    };
    let plan = plan_cycle(&job);
    assert_eq!(plan.archive_name, "project.tar.gz");
    assert_eq!(plan.remote_dest, "/backups/project.tar.gz");
    assert_eq!(plan.sleep_seconds, 60);
}

#[test]
fn plan_survives_large_delays() {
    let job = BackupJob {
        delay_minutes: u32::MAX,
        host: String::new(),
        local_path: "a".to_string(),
        remote_dir: "b".to_string(),
        username: String::new(),
        password: String::new(),
    };
    let plan = plan_cycle(&job);
    assert_eq!(plan.sleep_seconds, u32::MAX as u64 * 60);
    assert_eq!(plan.remote_dest, "b/a.tar.gz");
}
