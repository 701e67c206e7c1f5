use rclone_mounts_core::credentials::{systemd_creds_args, systemd_creds_outcome, CredsOp, Scope};
use rclone_mounts_core::error::Error;
use rclone_mounts_core::oauth_credentials::client_pair;
use rclone_mounts_core::rclone_cli::obscure_outcome;
use rclone_mounts_core::str_map::StrMap;

#[test]
fn systemd_creds_command_lines() {
    assert_eq!(
        systemd_creds_args(Scope::User, CredsOp::Encrypt, "rclone-conf"),
        vec!["--user", "--name=rclone-conf", "encrypt", "-", "-"]
    );
    assert_eq!(
        systemd_creds_args(Scope::System, CredsOp::Decrypt, "rclone-conf"),
        vec!["--name=rclone-conf", "decrypt", "-", "-"]
    );
}

#[test]
fn systemd_creds_outcomes() {
    assert_eq!(systemd_creds_outcome(CredsOp::Encrypt, true, "exit status: 0", vec![1, 2], ""), Ok(vec![1, 2]));
    assert_eq!(
        systemd_creds_outcome(CredsOp::Decrypt, false, "exit status: 1", vec![], "bad key"),
        Err(Error::Credentials("systemd-creds decrypt failed (exit status: 1): bad key".into()))
    );
}

#[test]
fn obscure_outcomes() {
    assert_eq!(obscure_outcome(true, "  OBSCURED\n", ""), Ok("OBSCURED".to_string()));
    assert_eq!(
        obscure_outcome(false, "", " no rclone \n"),
        Err(Error::Systemd("`rclone obscure` failed: no rclone".into()))
    );
}

#[test]
fn user_override_wins_over_everything() {
    assert_eq!(client_pair(Some("user-id"), Some("user-secret")), Some(("user-id".to_string(), "user-secret".to_string())));
}

#[test]
fn partial_user_override_is_ignored() {
    assert_eq!(client_pair(Some("user-id"), None), None);
    assert_eq!(client_pair(Some("user-id"), Some("")), None);
    assert_eq!(client_pair(None, None), None);
}

#[test]
fn error_messages_lead_with_their_sentence() {
    assert_eq!(
        Error::InvalidName("Bad".into()).message(),
        "\"Bad\" can't be used as a name here. Use lowercase letters, numbers, and dashes \u{2014} for example \"work-share\"."
    );
    assert_eq!(Error::AlreadyExists("work".into()).message(), "work already exists.");
    assert_eq!(Error::PermissionDenied("x".into()).message(), "You don't have permission to do that. x");
    assert_eq!(Error::Credentials("y".into()).message(), "Couldn't store the password securely. y");
    assert_eq!(Error::ConfigParse("z".into()).message(), "The rclone configuration couldn't be read. z");
    assert_eq!(Error::Systemd("s".into()).message(), "s");
}

#[test]
fn map_lookup_after_insert() {
    let mut m: StrMap<String> = StrMap::new();
    m.insert("b".into(), "2".into());
    m.insert("a".into(), "1".into());
    m.insert("b".into(), "3".into());
    assert_eq!(m.len(), 2);
    assert_eq!(m.key_at(0), "a");
    assert_eq!(m.get("b").map(String::as_str), Some("3"));
    assert_eq!(m.remove("a"), Some("1".to_string()));
    assert!(!m.contains_key("a"));
}
