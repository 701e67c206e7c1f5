use rclone_mounts_core::backend::{Changeset, SourceMetadata, State};
use rclone_mounts_core::controller::{
    auto_answer, changeset_is_empty, credential_kinds, drive_seed, finish_step, mount_rows, nonempty_value,
    resolve_id, scope_reload_needed, source_def_from_remote_conf, stage_mount, stage_source, trim_slashes,
    unstage_mount, unstage_source, upsert_mount_edit, upsert_source_edit, upsert_source_json, wizard_seed_from_json,
    drive_credentials_next, DriveCredStep, WizardOutcome,
};
use rclone_mounts_core::mount::{Mount, MountOptions};
use rclone_mounts_core::rclone_config_driver::{DriverPrompt, DriverStep};
use rclone_mounts_core::source::{SourceDef, SourceKind};
use rclone_mounts_core::str_map::StrMap;

fn smap(pairs: &[(&str, &str)]) -> StrMap<String> {
    let mut m = StrMap::new();
    for (k, v) in pairs {
        m.insert(k.to_string(), v.to_string());
    }
    m
}

fn mount(name: &str, source: &str) -> Mount {
    Mount {
        name: name.into(),
        display_name: name.into(),
        source: source.into(),
        subpath: String::new(),
        mountpoint: format!("/mnt/{name}"),
        options: MountOptions::default(),
        enabled: true,
    }
}

fn def(name: &str) -> SourceDef {
    SourceDef {
        name: name.into(),
        display_name: name.into(),
        kind: SourceKind::Smb,
        options: StrMap::new(),
        new_secrets: StrMap::new(),
    }
}

fn meta(name: &str) -> SourceMetadata {
    SourceMetadata { name: name.into(), display_name: name.into(), kind: "smb".into(), options: StrMap::new(), has_secret: false }
}

#[test]
fn an_empty_changeset_is_not_dirty() {
    let mut cs = Changeset::default();
    assert!(changeset_is_empty(&cs));
    cs.delete_mounts.push("m".into());
    assert!(!changeset_is_empty(&cs));
}

#[test]
fn staging_replaces_earlier_edits_and_deletes() {
    let mut p = Changeset::default();
    p.delete_mounts.push("m".into());
    stage_mount(&mut p, mount("m", "s"));
    let mut m2 = mount("m", "s");
    m2.enabled = false;
    stage_mount(&mut p, m2);
    assert_eq!(p.upsert_mounts.len(), 1);
    assert!(!p.upsert_mounts[0].enabled);
    assert!(p.delete_mounts.is_empty());

    p.delete_sources.push("s".into());
    stage_source(&mut p, def("s"));
    stage_source(&mut p, def("s"));
    assert_eq!(p.upsert_sources.len(), 1);
    assert!(p.delete_sources.is_empty());
}

#[test]
fn removing_only_queues_deletes_for_applied_items() {
    let applied = State { sources: vec![meta("s")], mounts: vec![mount("m", "s")] };
    let mut p = Changeset::default();
    stage_mount(&mut p, mount("new", "s"));
    unstage_mount(&applied, &mut p, "new");
    assert!(p.upsert_mounts.is_empty());
    assert!(p.delete_mounts.is_empty());
    unstage_mount(&applied, &mut p, "m");
    unstage_mount(&applied, &mut p, "m");
    assert_eq!(p.delete_mounts, vec!["m".to_string()]);

    stage_source(&mut p, def("s"));
    unstage_source(&applied, &mut p, "s");
    assert!(p.upsert_sources.is_empty());
    assert_eq!(p.delete_sources, vec!["s".to_string()]);
    let shown = applied.preview(&p);
    assert!(shown.sources.is_empty());
    assert!(shown.mounts.is_empty());
}

#[test]
fn fresh_ids_avoid_what_is_shown() {
    let applied = State { sources: vec![meta("work-share")], mounts: vec![] };
    let mut p = Changeset::default();
    stage_source(&mut p, def("work-share-2"));
    assert_eq!(resolve_id(&applied, &p, "", "Work Share", true), "work-share-3");
    assert_eq!(resolve_id(&applied, &p, "", "Work Share", false), "work-share");
    assert_eq!(resolve_id(&applied, &p, "keep-me", "Work Share", true), "keep-me");
    assert_eq!(resolve_id(&applied, &p, "", "😀", false), "mount");
    assert_eq!(resolve_id(&applied, &p, "", "😀", true), "source");
}

#[test]
fn mount_rows_show_status_or_unsaved() {
    let applied = State { sources: vec![meta("s")], mounts: vec![mount("a", "s"), mount("b", "s")] };
    let mut p = Changeset::default();
    stage_mount(&mut p, mount("c", "s"));
    let statuses = smap(&[("a", "active")]);
    let rows = mount_rows(&applied, &p, &statuses);
    assert_eq!(rows.len(), 3);
    assert_eq!((rows[0].mount.name.as_str(), rows[0].active.as_str(), rows[0].applied), ("a", "active", true));
    assert_eq!((rows[1].mount.name.as_str(), rows[1].active.as_str(), rows[1].applied), ("b", "unknown", true));
    assert_eq!((rows[2].mount.name.as_str(), rows[2].active.as_str(), rows[2].applied), ("c", "unsaved", false));
}

#[test]
fn subpaths_lose_surrounding_slashes() {
    assert_eq!(trim_slashes("/photos/2026/"), "photos/2026");
    assert_eq!(trim_slashes("///"), "");
    assert_eq!(trim_slashes("a"), "a");
}

#[test]
fn finished_sign_in_splits_secrets_from_options() {
    let conf = "[gd]\ntype = drive\nscope = drive\ntoken = {\"t\":1}\nclient_secret = cs\n";
    let d = source_def_from_remote_conf(conf, SourceKind::Drive, "gd", "My Drive", 0).unwrap();
    assert_eq!(d.name, "gd");
    assert_eq!(d.display_name, "My Drive");
    assert_eq!(d.options.len(), 1);
    assert_eq!(d.options.get("scope").map(String::as_str), Some("drive"));
    assert_eq!(d.new_secrets.len(), 2);
    let tok = d.new_secrets.get("token").unwrap();
    assert_eq!(tok.value, "{\"t\":1}");
    assert!(!tok.obscure);

    let conf = "[ic]\ntype = iclouddrive\napple_id = a@b\ntrust_token = tt\n";
    let d = source_def_from_remote_conf(conf, SourceKind::IcloudDrive, "ic", "iCloud", 1700000000).unwrap();
    assert_eq!(d.options.get("_trust_token_stamped_at").map(String::as_str), Some("1700000000"));
    assert_eq!(d.options.get("apple_id").map(String::as_str), Some("a@b"));
    assert_eq!(d.new_secrets.get("trust_token").unwrap().value, "tt");
}

#[test]
fn wizard_steps_map_to_outcomes() {
    let ask = DriverStep::NeedInput {
        state: "*2fa".into(),
        prompt: DriverPrompt { name: "config_2fa".into(), help: "code".into(), is_password: false },
    };
    assert!(auto_answer(&ask).is_none());
    match finish_step(ask, SourceKind::IcloudDrive, "ic", "iCloud", 0) {
        WizardOutcome::NeedInput { state, sms_available, .. } => {
            assert_eq!(state, "*2fa");
            assert!(sms_available);
        }
        other => panic!("expected NeedInput, got {other:?}"),
    }
    let local = DriverStep::NeedInput {
        state: "*local".into(),
        prompt: DriverPrompt { name: "config_is_local".into(), help: String::new(), is_password: false },
    };
    assert_eq!(auto_answer(&local).as_deref(), Some("*local"));
    match finish_step(DriverStep::Error("nope".into()), SourceKind::Drive, "gd", "G", 0) {
        WizardOutcome::Failed(m) => assert_eq!(m, "nope"),
        other => panic!("expected Failed, got {other:?}"),
    }
    match finish_step(DriverStep::Done { remote_conf: "junk\n".into() }, SourceKind::Drive, "gd", "G", 0) {
        WizardOutcome::Failed(m) => {
            assert!(m.starts_with("Sign-in finished but the result couldn\u{2019}t be read. The rclone configuration couldn't be read. near "))
        }
        other => panic!("expected Failed, got {other:?}"),
    }
    match finish_step(DriverStep::Done { remote_conf: "[gd]\ntype = drive\n".into() }, SourceKind::Drive, "gd", "G", 0) {
        WizardOutcome::Done(d) => assert_eq!(d.name, "gd"),
        other => panic!("expected Done, got {other:?}"),
    }
}

#[test]
fn drive_seed_applies_resolved_credentials() {
    let seed = smap(&[("client_id", ""), ("client_secret", "typed"), ("root_folder_id", "r")]);
    assert_eq!(nonempty_value(&seed, "client_id"), None);
    assert_eq!(nonempty_value(&seed, "client_secret").as_deref(), Some("typed"));
    let with = drive_seed(&seed, Some(("id".into(), "sec".into())));
    assert_eq!(with.get("client_id").map(String::as_str), Some("id"));
    assert_eq!(with.get("client_secret").map(String::as_str), Some("sec"));
    assert_eq!(with.get("scope").map(String::as_str), Some("drive"));
    let without = drive_seed(&seed, None);
    assert!(!without.contains_key("client_id"));
    assert!(!without.contains_key("client_secret"));
    assert_eq!(without.get("root_folder_id").map(String::as_str), Some("r"));
}

#[test]
fn credential_page_lists_drive() {
    let kinds = credential_kinds();
    assert_eq!(kinds.len(), 1);
    assert_eq!(kinds[0].tag, "drive");
    assert!(!kinds[0].label.is_empty());
}

#[test]
fn scope_switch_reloads_only_when_needed() {
    assert!(!scope_reload_needed(true, true, true));
    assert!(scope_reload_needed(true, true, false));
    assert!(scope_reload_needed(false, true, true));
}

#[test]
fn an_empty_changeset_previews_the_applied_state() {
    let mut m = mount("m", "s");
    m.enabled = false;
    let st = State { sources: vec![meta("s"), meta("t")], mounts: vec![m] };
    let cs = Changeset::default();
    assert!(changeset_is_empty(&cs));
    let shown = st.preview(&cs);
    let names: Vec<&str> = shown.sources.iter().map(|s| s.name.as_str()).collect();
    assert_eq!(names, vec!["s", "t"]);
    assert_eq!(shown.mounts.len(), 1);
    assert_eq!(shown.mounts[0].name, "m");
    assert!(!shown.mounts[0].enabled);
}

#[test]
fn form_source_edits_are_checked_then_staged() {
    let applied = State { sources: vec![meta("nas")], mounts: vec![] };
    let mut p = Changeset::default();
    let err = upsert_source_edit(&applied, &mut p, "", "Box", "dropbox", StrMap::new(), "").unwrap_err();
    assert_eq!(err, "\u{201c}dropbox\u{201d} isn\u{2019}t a source type this version supports.");
    assert!(changeset_is_empty(&p));
    assert!(upsert_source_edit(&applied, &mut p, "", "Box", "sftp", smap(&[("colour", "red")]), "").is_err());
    assert!(changeset_is_empty(&p));

    let id = upsert_source_edit(&applied, &mut p, "", "NAS", "sftp", smap(&[("host", "h")]), "pw").unwrap();
    assert_eq!(id, "nas-2");
    assert_eq!(p.upsert_sources.len(), 1);
    let d = &p.upsert_sources[0];
    assert_eq!(d.name, "nas-2");
    assert_eq!(d.display_name, "NAS");
    assert_eq!(d.kind, SourceKind::Sftp);
    assert_eq!(d.options.get("host").map(|s| s.as_str()), Some("h"));
    assert_eq!(d.new_secrets.len(), 1);
    let pass = d.new_secrets.get("pass").unwrap();
    assert_eq!(pass.value, "pw");
    assert!(pass.obscure);

    let same = upsert_source_edit(&applied, &mut p, "nas-2", "NAS again", "sftp", smap(&[("host", "h")]), "").unwrap();
    assert_eq!(same, "nas-2");
    assert_eq!(p.upsert_sources.len(), 1);
    assert!(p.upsert_sources[0].new_secrets.is_empty());
    assert_eq!(p.upsert_sources[0].display_name, "NAS again");
}

#[test]
fn form_mount_edits_trim_the_subpath_and_get_fresh_ids() {
    let applied = State { sources: vec![meta("s")], mounts: vec![mount("photos", "s")] };
    let mut p = Changeset::default();
    p.delete_mounts.push("photos-2".into());
    let id = upsert_mount_edit(&applied, &mut p, "", "Photos", "s", "/pics/2024/", "/mnt/p", MountOptions::default(), false);
    assert_eq!(id, "photos-2");
    assert!(p.delete_mounts.is_empty());
    assert_eq!(p.upsert_mounts.len(), 1);
    let m = &p.upsert_mounts[0];
    assert_eq!(m.name, "photos-2");
    assert_eq!(m.subpath, "pics/2024");
    assert_eq!(m.mountpoint, "/mnt/p");
    assert!(!m.enabled);
}

#[test]
fn source_options_arrive_as_json() {
    let applied = State { sources: vec![], mounts: vec![] };
    let mut p = Changeset::default();
    let err = upsert_source_json(&applied, &mut p, "", "Box", "dropbox", "{}", "").unwrap_err();
    assert_eq!(err, "\u{201c}dropbox\u{201d} isn\u{2019}t a source type this version supports.");
    let err = upsert_source_json(&applied, &mut p, "", "Box", "sftp", "{not json", "").unwrap_err();
    assert!(err.starts_with("Those source settings couldn\u{2019}t be read. "), "{err}");
    assert!(err.len() > "Those source settings couldn\u{2019}t be read. ".len());
    assert!(upsert_source_json(&applied, &mut p, "", "Box", "sftp", "{\"host\": 3}", "").is_err());
    assert!(upsert_source_json(&applied, &mut p, "", "Box", "sftp", "{\"colour\": \"red\"}", "").is_err());
    assert!(changeset_is_empty(&p));
    let id = upsert_source_json(&applied, &mut p, "", "Box", "sftp", "{\"user\": \"u\", \"host\": \"h\"}", "pw").unwrap();
    assert_eq!(id, "box");
    let d = &p.upsert_sources[0];
    assert_eq!(d.options.key_at(0), "host");
    assert_eq!(d.options.key_at(1), "user");
    assert_eq!(d.options.get("user").map(|s| s.as_str()), Some("u"));
    assert!(d.new_secrets.get("pass").unwrap().obscure);
}

#[test]
fn wizard_seeds_arrive_as_json() {
    let (k, m) = wizard_seed_from_json("drive", "{\"client_id\": \"cid\"}").unwrap();
    assert_eq!(k, SourceKind::Drive);
    assert_eq!(m.get("client_id").map(|s| s.as_str()), Some("cid"));
    assert!(wizard_seed_from_json("nope", "{}").unwrap_err().contains("isn\u{2019}t a source type"));
    assert!(wizard_seed_from_json("drive", "[1]").unwrap_err().starts_with("Those settings couldn\u{2019}t be read. "));
}

#[test]
fn drive_client_precedence() {
    let pair = |a: &str, b: &str| Some((a.to_string(), b.to_string()));
    assert_eq!(drive_credentials_next(pair("u", "s"), None, None), DriveCredStep::Use("u".into(), "s".into()));
    assert_eq!(drive_credentials_next(pair("u", ""), None, None), DriveCredStep::AskAdminOverride);
    assert_eq!(drive_credentials_next(None, Some(pair("a", "b")), None), DriveCredStep::Use("a".into(), "b".into()));
    assert_eq!(drive_credentials_next(None, Some(None), None), DriveCredStep::AskShared);
    assert_eq!(drive_credentials_next(None, Some(None), Some(pair("c", "d"))), DriveCredStep::Use("c".into(), "d".into()));
    assert_eq!(drive_credentials_next(None, Some(None), Some(None)), DriveCredStep::BuildTime);
}
