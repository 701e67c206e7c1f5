use rclone_mounts_core::error::Error;
use rclone_mounts_core::rclone_config_driver::{
    backend_option_env_var, continue_args, create_args, env_var_from_upper, finished_remote_section, needs_obscure,
    read_raw_step, unanswered_failure, DriverPrompt, DriverStep, RawStep, StepReading,
};

fn prompt(name: &str, help: &str, is_password: bool) -> DriverPrompt {
    DriverPrompt { name: name.into(), help: help.into(), is_password }
}

#[test]
fn parses_need_input_step() {
    let raw = RawStep {
        state: "*oauth-islocal,,".into(),
        option: Some(prompt("config_is_local", "Use web browser?", false)),
        error: String::new(),
    };
    match read_raw_step(raw) {
        StepReading::Step(DriverStep::NeedInput { state, prompt }) => {
            assert_eq!(state, "*oauth-islocal,,");
            assert_eq!(prompt.name, "config_is_local");
            assert!(!prompt.is_password);
            assert!(prompt.looks_like_local_browser_choice());
        }
        other => panic!("expected NeedInput, got {other:?}"),
    }
}

#[test]
fn parses_2fa_prompt() {
    let raw = RawStep {
        state: "*2fa,,".into(),
        option: Some(prompt("config_2fa", "Enter your 2FA code or type sms", false)),
        error: String::new(),
    };
    match read_raw_step(raw) {
        StepReading::Step(DriverStep::NeedInput { prompt, .. }) => assert!(prompt.looks_like_2fa()),
        other => panic!("expected NeedInput, got {other:?}"),
    }
}

#[test]
fn empty_state_reads_finished_remote_section() {
    let raw = RawStep { state: String::new(), option: None, error: String::new() };
    assert!(matches!(read_raw_step(raw), StepReading::Finished));
    let scratch = "[gd]\ntype = drive\ntoken = {\"access_token\":\"x\"}\n\n[other]\ntype = smb\n";
    let remote_conf = finished_remote_section(scratch, "gd").unwrap();
    assert!(remote_conf.contains("type = drive"));
    assert!(remote_conf.contains("token ="));
    assert!(!remote_conf.contains("other"), "must not leak unrelated sections: {remote_conf}");
}

#[test]
fn error_field_takes_priority() {
    let raw = RawStep { state: String::new(), option: None, error: "invalid password".into() };
    assert!(matches!(read_raw_step(raw), StepReading::Step(DriverStep::Error(e)) if e == "invalid password"));
}

#[test]
fn done_without_expected_section_errors() {
    let err = finished_remote_section("[unrelated]\ntype = smb\n", "gd").unwrap_err();
    assert!(matches!(err, Error::Systemd(_)));
    assert_eq!(err, Error::Systemd("rclone finished but the scratch config has no [gd] section".into()));
}

#[test]
fn continuation_without_an_option_is_an_error() {
    let raw = RawStep { state: "*x".into(), option: None, error: String::new() };
    match read_raw_step(raw) {
        StepReading::Step(DriverStep::Error(e)) => {
            assert_eq!(e, "rclone asked to continue but didn't say what it needs")
        }
        other => panic!("expected Error, got {other:?}"),
    }
}

#[test]
fn finished_section_is_re_emitted_canonically() {
    let scratch = "[gd]\ntype=drive\n  scope =  drive  \n";
    assert_eq!(finished_remote_section(scratch, "gd").unwrap(), "[gd]\ntype = drive\nscope = drive\n");
}

#[test]
fn failed_run_without_output_reports_stderr() {
    match unanswered_failure(false, "", "  boom \n") {
        Some(DriverStep::Error(e)) => assert_eq!(e, "boom"),
        other => panic!("expected Error, got {other:?}"),
    }
    assert!(unanswered_failure(false, "{}", "boom").is_none());
    assert!(unanswered_failure(true, "", "").is_none());
}

#[test]
fn two_factor_heuristics() {
    assert!(prompt("config_2fa", "", false).looks_like_2fa());
    assert!(prompt("Verification_CODE", "", false).looks_like_2fa());
    assert!(prompt("x", "Enter your Two-Factor token", false).looks_like_2fa());
    assert!(!prompt("config_is_local", "Use web browser?", false).looks_like_2fa());
    assert!(!prompt("Config_Is_Local", "", false).looks_like_local_browser_choice());
}

#[test]
fn command_lines_for_create_and_continue() {
    assert_eq!(
        create_args("gd", "drive", "/tmp/s"),
        vec!["config", "create", "gd", "drive", "--non-interactive", "--config", "/tmp/s"]
    );
    assert_eq!(
        continue_args("gd", "*st", "true", "/tmp/s"),
        vec![
            "config", "update", "gd", "--continue", "--state", "*st", "--result", "true",
            "--non-interactive", "--config", "/tmp/s"
        ]
    );
}

#[test]
fn backend_options_ride_in_rclone_env_vars() {
    assert_eq!(backend_option_env_var("iclouddrive", "password"), "RCLONE_ICLOUDDRIVE_PASSWORD");
    assert_eq!(backend_option_env_var("drive", "client-id"), "RCLONE_DRIVE_CLIENT_ID");
    assert_eq!(env_var_from_upper("A-B", "C-D"), "RCLONE_A_B_C_D");
    assert!(needs_obscure("iclouddrive", "password"));
    assert!(!needs_obscure("drive", "client_secret"));
    assert!(!needs_obscure("iclouddrive", "apple_id"));
}
