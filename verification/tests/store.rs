use rclone_mounts_core::error::Error;
use rclone_mounts_core::store::{join, unit_names, LocalUnitStore};

fn fixture() -> LocalUnitStore {
    LocalUnitStore {
        config_dir: "/tmp/x/config".into(),
        credential_dir: "/tmp/x/creds".into(),
        unit_dir: "/tmp/x/units".into(),
        file_mode: 0o600,
    }
}

#[test]
fn system_layout_lives_under_etc() {
    let s = LocalUnitStore::new_system_default();
    assert_eq!(s.config_dir, "/etc/rclone-mounts");
    assert_eq!(s.credential_dir, "/etc/credstore.encrypted/rclone-mounts");
    assert_eq!(s.unit_dir, "/etc/systemd/system");
    assert_eq!(s.file_mode, 0o600);
    assert_eq!(s.sources_path(), "/etc/rclone-mounts/sources.conf");
    assert_eq!(s.mounts_state_path(), "/etc/rclone-mounts/mounts.toml");
}

#[test]
fn user_layout_lives_under_home() {
    let s = LocalUnitStore::under_home("/home/alice");
    assert_eq!(s.config_dir, "/home/alice/.config/rclone-mounts");
    assert_eq!(s.credential_dir, "/home/alice/.config/rclone-mounts/credentials");
    assert_eq!(s.unit_dir, "/home/alice/.config/systemd/user");
    let t = LocalUnitStore::under_home("/home/bob/");
    assert_eq!(t.unit_dir, "/home/bob/.config/systemd/user");
}

#[test]
fn unit_and_credential_paths_need_valid_names() {
    let s = fixture();
    assert_eq!(s.unit_path("foo").unwrap(), "/tmp/x/units/rclone-mount-foo.service");
    assert_eq!(s.credential_path("src").unwrap(), "/tmp/x/creds/src");
    assert_eq!(s.unit_path("../escape"), Err(Error::InvalidName("../escape".into())));
    assert!(s.credential_path("../escape").is_err());
    assert!(s.credential_path("").is_err());
}

#[test]
fn provider_override_credentials_can_be_stored() {
    let s = fixture();
    let name = rclone_mounts_core::backend::provider_override_name(rclone_mounts_core::source::SourceKind::Drive);
    assert_eq!(name, "__provider_override_drive");
    assert_eq!(s.credential_path(&name).unwrap(), "/tmp/x/creds/__provider_override_drive");
    assert!(s.credential_path("__provider_override_").is_err());
    assert!(s.credential_path("__provider_override_-x").is_err());
    assert!(s.credential_path("_other").is_err());
}

#[test]
fn listing_keeps_only_mount_units_sorted() {
    let files: Vec<String> = vec![
        "rclone-mount-zeta.service".into(),
        "unrelated.service".into(),
        "rclone-mount-alpha.service".into(),
        "rclone-mount-bad".into(),
        "rclone-mount-middle.service".into(),
    ];
    assert_eq!(unit_names(&files), vec!["alpha", "middle", "zeta"]);
    assert!(unit_names(&vec![]).is_empty());
}

#[test]
fn joining_paths() {
    assert_eq!(join("", "a"), "a");
    assert_eq!(join("/x/", "a"), "/x/a");
    assert_eq!(join("/x", "a"), "/x/a");
}
