use rclone_mounts_core::backend::{
    apply_source_edits, collect_section_options, cred_id, encode_credential_blob, extract_secrets, fill_display_names,
    has_known_secret, merge_secrets, mount_unit_name, provider_override_from_blob, provider_override_name, secret_keys_for,
    secrets_kind, validate_changeset_names, validate_references, Changeset, LocalBackend, OverrideWrite,
    SourceMetadata, State,
};
use rclone_mounts_core::credentials::Scope;
use rclone_mounts_core::error::Error;
use rclone_mounts_core::mount::{Mount, MountOptions};
use rclone_mounts_core::rclone_config::Document;
use rclone_mounts_core::source::{SecretValue, SourceDef, SourceKind};
use rclone_mounts_core::str_map::StrMap;
use rclone_mounts_core::unit_writer::{render, Context};

fn smap(pairs: &[(&str, &str)]) -> StrMap<String> {
    let mut m = StrMap::new();
    for (k, v) in pairs {
        m.insert(k.to_string(), v.to_string());
    }
    m
}

fn smb_source(name: &str, with_secret: bool) -> SourceDef {
    let mut new_secrets = StrMap::new();
    if with_secret {
        new_secrets.insert("pass".to_string(), SecretValue { value: "hunter2".into(), obscure: true });
    }
    SourceDef {
        name: name.into(),
        display_name: name.into(),
        kind: SourceKind::Smb,
        options: smap(&[("host", "files.example.com"), ("user", "alice")]),
        new_secrets,
    }
}

fn mount(name: &str, source: &str, enabled: bool) -> Mount {
    Mount {
        name: name.into(),
        display_name: name.into(),
        source: source.into(),
        subpath: String::new(),
        mountpoint: format!("/mnt/{name}"),
        options: MountOptions::default(),
        enabled,
    }
}

fn meta(name: &str, has_secret: bool) -> SourceMetadata {
    SourceMetadata {
        name: name.into(),
        display_name: name.into(),
        kind: "smb".into(),
        options: StrMap::new(),
        has_secret,
    }
}

#[test]
fn extract_secrets_matches_only_requested_keys() {
    let blob = "[w]\ntype = smb\npass = ABC123\ntoken = should-not-appear\n";
    let found = extract_secrets(blob, &["pass"]);
    assert_eq!(found.get("pass").map(String::as_str), Some("ABC123"));
    assert!(!found.contains_key("token"), "token wasn't requested");
    assert!(!found.contains_key("type"), "type isn't a secret key");

    assert_eq!(extract_secrets("pass=XYZ", &["pass"]).get("pass").map(String::as_str), Some("XYZ"));
    assert!(extract_secrets("password = nope\n", &["pass"]).is_empty(), "password != pass");
    assert!(extract_secrets("type = smb\nhost = h\n", &["pass"]).is_empty());
}

#[test]
fn extract_secrets_pulls_multiple_keys() {
    let blob = "[d]\ntype = drive\ntoken = {\"a\":1}\nclient_secret = shh\nroot_folder_id = xyz\n";
    let found = extract_secrets(blob, &secret_keys_for(SourceKind::Drive));
    assert_eq!(found.len(), 2);
    assert_eq!(found.get("token").map(String::as_str), Some("{\"a\":1}"));
    assert_eq!(found.get("client_secret").map(String::as_str), Some("shh"));
}

#[test]
fn secret_keys_for_smb_and_webdav_is_just_pass() {
    assert_eq!(secret_keys_for(SourceKind::Smb), &["pass"]);
    assert_eq!(secret_keys_for(SourceKind::WebDav), &["pass"]);
}

#[test]
fn secret_keys_for_oauth_and_icloud_kinds() {
    assert_eq!(secret_keys_for(SourceKind::Drive), &["token", "client_secret"]);
    assert_eq!(secret_keys_for(SourceKind::IcloudDrive), &["password", "trust_token"]);
    assert_eq!(secret_keys_for(SourceKind::Sftp), &["pass"]);
    assert_eq!(secret_keys_for(SourceKind::Ftp), &["pass"]);
}

#[test]
fn extract_secrets_later_line_wins_and_crlf_is_trimmed() {
    let found = extract_secrets("pass = one\r\npass = two\r\n", &["pass"]);
    assert_eq!(found.get("pass").map(String::as_str), Some("two"));
    let found = extract_secrets("  pass  =  a = b  \n", &["pass"]);
    assert_eq!(found.get("pass").map(String::as_str), Some("a = b"));
}

#[test]
fn credential_blob_is_the_complete_remote_section() {
    let src = smb_source("work", true);
    let secrets = smap(&[("pass", "OBSCURED"), ("token", "ignored-for-smb")]);
    let blob = encode_credential_blob(&src, &secrets);
    assert_eq!(
        blob,
        "[work]\ntype = smb\nhost = files.example.com\nuser = alice\npass = OBSCURED\n"
    );
    let no_secret = encode_credential_blob(&src, &StrMap::new());
    assert_eq!(no_secret, "[work]\ntype = smb\nhost = files.example.com\nuser = alice\n");
}

#[test]
fn secrets_survive_a_blob_round_trip() {
    let mut src = smb_source("d", false);
    src.kind = SourceKind::Drive;
    let secrets = smap(&[("token", "tok-v1"), ("client_secret", "cs-v1")]);
    let blob = encode_credential_blob(&src, &secrets);
    let back = extract_secrets(&blob, &secret_keys_for(SourceKind::Drive));
    assert_eq!(back.len(), 2);
    assert_eq!(back.get("token").map(String::as_str), Some("tok-v1"));
    assert_eq!(back.get("client_secret").map(String::as_str), Some("cs-v1"));
    assert!(has_known_secret(&blob, SourceKind::Drive));
    assert!(!has_known_secret("[d]\ntype = drive\n", SourceKind::Drive));
}

#[test]
fn secrets_kind_falls_back_to_smb() {
    assert_eq!(secrets_kind("drive"), SourceKind::Drive);
    assert_eq!(secrets_kind("mystery"), SourceKind::Smb);
    assert_eq!(secrets_kind(""), SourceKind::Smb);
}

#[test]
fn unit_names_and_credential_ids() {
    assert_eq!(mount_unit_name("work"), "rclone-mount-work.service");
    assert_eq!(cred_id(), "rclone-conf");
    assert_eq!(provider_override_name(SourceKind::Drive), "__provider_override_drive");
}

#[test]
fn collected_options_leave_out_type_and_display_name() {
    let doc = Document::parse("[work]\ntype = smb\ndisplay_name = Work\nspdif = yes\nhost = h\n").unwrap();
    let opts = collect_section_options(&doc, "work");
    assert_eq!(opts.len(), 2);
    assert_eq!(opts.get("spdif").map(String::as_str), Some("yes"));
    assert_eq!(opts.get("host").map(String::as_str), Some("h"));
    assert!(!opts.contains_key("type"));
    assert!(!opts.contains_key("display_name"));
}

#[test]
fn section_metadata_falls_back_to_the_id() {
    let doc = Document::parse("[old]\ntype = webdav\nurl = u\n").unwrap();
    let m = SourceMetadata::from_section(&doc, "old", false);
    assert_eq!(m.name, "old");
    assert_eq!(m.display_name, "old");
    assert_eq!(m.kind, "webdav");
    assert_eq!(m.options.get("url").map(String::as_str), Some("u"));
    assert!(!m.has_secret);
    let doc = Document::parse("[bare]\n").unwrap();
    let m = SourceMetadata::from_section(&doc, "bare", true);
    assert_eq!(m.kind, "");
    assert!(m.has_secret);
}

#[test]
fn rewritten_source_section_reads_back() {
    let mut doc = Document::parse("; keep me\n[work]\ntype = ftp\nstale = 1\n\n[home]\ntype = webdav\n").unwrap();
    let mut src = smb_source("work", true);
    src.display_name = "😀 Work Share".into();
    let cs = Changeset { upsert_sources: vec![src], ..Default::default() };
    apply_source_edits(&mut doc, &cs).unwrap();
    let m = SourceMetadata::from_section(&doc, "work", true);
    assert_eq!(m.display_name, "😀 Work Share");
    assert_eq!(m.kind, "smb");
    assert_eq!(m.options.len(), 2);
    assert!(!m.options.contains_key("stale"));
    assert!(!m.options.contains_key("display_name"));
    assert_eq!(doc.get("home", "type"), Some("webdav"));
    let text = doc.render();
    assert!(text.starts_with("; keep me\n[home]\ntype = webdav\n"));
    let reparsed = Document::parse(&text).unwrap();
    let again = SourceMetadata::from_section(&reparsed, "work", true);
    assert_eq!(again.display_name, "😀 Work Share");
    assert_eq!(again.options.get("host").map(String::as_str), Some("files.example.com"));
}

#[test]
fn deleted_sources_leave_sources_conf() {
    let mut doc = Document::parse("[a]\ntype = smb\n\n[b]\ntype = ftp\n").unwrap();
    let cs = Changeset { delete_sources: vec!["a".into()], ..Default::default() };
    apply_source_edits(&mut doc, &cs).unwrap();
    assert_eq!(doc.sections(), vec!["b"]);
}

#[test]
fn invalid_names_are_rejected_before_anything_is_written() {
    let cs = Changeset {
        upsert_sources: vec![smb_source("good", false)],
        upsert_mounts: vec![mount("ok", "Bad Source", true)],
        delete_mounts: vec!["../escape".into()],
        ..Default::default()
    };
    assert_eq!(validate_changeset_names(&cs), Err(Error::InvalidName("Bad Source".into())));
    let fine = Changeset { upsert_mounts: vec![mount("m", "s", true)], ..Default::default() };
    assert_eq!(validate_changeset_names(&fine), Ok(()));
}

#[test]
fn apply_with_unknown_source_reference_fails() {
    let cs = Changeset { upsert_mounts: vec![mount("oops", "no-such-source", true)], ..Default::default() };
    let target = State::default().preview(&cs);
    let err = validate_references(&target).unwrap_err();
    assert!(matches!(err, Error::NotFound(_)), "got: {err:?}");
    assert_eq!(
        err.message(),
        "The mount \u{201c}oops\u{201d} uses the source \u{201c}no-such-source\u{201d}, which no longer exists. Pick a different source or remove the mount."
    );
}

#[test]
fn preview_folds_deletes_then_upserts() {
    let applied = State {
        sources: vec![meta("work", true), meta("home", false)],
        mounts: vec![mount("m1", "work", true)],
    };
    let mut edit = smb_source("work", false);
    edit.display_name = "Work 2".into();
    let cs = Changeset {
        upsert_sources: vec![edit, smb_source("new", true)],
        delete_sources: vec!["home".into()],
        upsert_mounts: vec![mount("m2", "new", false)],
        delete_mounts: vec!["m1".into()],
    };
    let shown = applied.preview(&cs);
    let names: Vec<&str> = shown.sources.iter().map(|s| s.name.as_str()).collect();
    assert_eq!(names, vec!["work", "new"]);
    assert_eq!(shown.sources[0].display_name, "Work 2");
    assert!(shown.sources[0].has_secret, "an edit without a new secret keeps the old one");
    assert!(shown.sources[1].has_secret);
    assert_eq!(shown.mounts.len(), 1);
    assert_eq!(shown.mounts[0].name, "m2");
    assert!(validate_references(&shown).is_ok());
    assert_eq!(applied.sources.len(), 2, "preview leaves the applied state alone");
}

#[test]
fn loaded_mounts_get_their_id_as_display_name() {
    let mut ms = vec![mount("a", "s", true), mount("b", "s", false)];
    ms[0].display_name = String::new();
    fill_display_names(&mut ms);
    assert_eq!(ms[0].display_name, "a");
    assert_eq!(ms[1].display_name, "b");
}

#[test]
fn provider_overrides_are_system_scope_only() {
    let user = LocalBackend::user();
    assert_eq!(user.credential_dir_spec, "%h/.config/rclone-mounts/credentials");
    let err = user.provider_override_write(SourceKind::Drive, "id", "secret").unwrap_err();
    assert_eq!(err, Error::Systemd("Provider credential overrides are system-scope only.".into()));
    assert!(user.provider_override_credential(SourceKind::Drive).is_none());

    let system = LocalBackend { scope: Scope::System, credential_dir_spec: "/etc/credstore.encrypted/rclone-mounts".into() };
    match system.provider_override_write(SourceKind::Drive, "id", "secret").unwrap() {
        OverrideWrite::Store { name, blob } => {
            assert_eq!(name, "__provider_override_drive");
            assert_eq!(blob, "[__provider_override_drive]\nclient_id = id\nclient_secret = secret\n");
        }
        other => panic!("expected Store, got {other:?}"),
    }
    match system.provider_override_write(SourceKind::Drive, "", "").unwrap() {
        OverrideWrite::Clear { name } => assert_eq!(name, "__provider_override_drive"),
        other => panic!("expected Clear, got {other:?}"),
    }
    assert_eq!(
        system.provider_override_credential(SourceKind::Drive).as_deref(),
        Some("__provider_override_drive")
    );
    assert_eq!(system.credential_path("work"), "/etc/credstore.encrypted/rclone-mounts/work");
}

#[test]
fn stored_override_reads_back_only_when_complete() {
    let blob = "[__provider_override_drive]\nclient_id = id\nclient_secret = secret\n";
    assert_eq!(
        provider_override_from_blob(blob, SourceKind::Drive).unwrap(),
        Some(("id".to_string(), "secret".to_string()))
    );
    let partial = "[__provider_override_drive]\nclient_id = id\nclient_secret = \n";
    assert_eq!(provider_override_from_blob(partial, SourceKind::Drive).unwrap(), None);
    assert_eq!(provider_override_from_blob("", SourceKind::Drive).unwrap(), None);
    assert!(provider_override_from_blob("garbage\n", SourceKind::Drive).is_err());
}

#[test]
fn merging_secrets_keeps_keys_not_being_set() {
    let existing = smap(&[("client_secret", "old-secret"), ("token", "old-token")]);
    let mut news = StrMap::new();
    news.insert("token".to_string(), SecretValue { value: "new-token".into(), obscure: false });
    news.insert("pass".to_string(), SecretValue { value: "plain".into(), obscure: true });
    let obscured = smap(&[("pass", "OBSCURED")]);
    let merged = merge_secrets(existing, &news, &obscured);
    assert_eq!(merged.get("client_secret").map(String::as_str), Some("old-secret"));
    assert_eq!(merged.get("token").map(String::as_str), Some("new-token"));
    assert_eq!(merged.get("pass").map(String::as_str), Some("OBSCURED"));
    assert_eq!(merged.len(), 3);
}

#[test]
fn source_edits_with_control_characters_are_refused() {
    let mut doc = Document::parse("[keep]\ntype = smb\n").unwrap();
    let mut bad = smb_source("work", false);
    bad.display_name = "Work\n[evil]".into();
    let cs = Changeset { upsert_sources: vec![smb_source("ok", false), bad], delete_sources: vec!["keep".into()], ..Default::default() };
    assert!(matches!(apply_source_edits(&mut doc, &cs), Err(Error::ConfigParse(_))));
    assert_eq!(doc.render(), "[keep]\ntype = smb\n");
}

#[test]
fn unit_text_loads_the_source_credential() {
    let b = LocalBackend::user();
    let m = Mount {
        name: "work".into(),
        display_name: "work".into(),
        source: "work".into(),
        subpath: String::new(),
        mountpoint: "/tmp/mnt/work".into(),
        options: MountOptions::default(),
        enabled: false,
    };
    let u = render(&m, &Context { credential_path: b.credential_path(&m.source) });
    assert!(u.contains("Description=rclone mount: work"));
    assert!(u.contains("LoadCredentialEncrypted=rclone-conf:%h/.config/rclone-mounts/credentials/work"));
    assert!(u.contains("EnvironmentFile=${CREDENTIALS_DIRECTORY}/work\n"));
    assert!(u.contains("Type=notify\n"));
    assert!(u.contains(
        "ExecStart=/usr/bin/rclone mount --config=${CREDENTIALS_DIRECTORY}/rclone-conf \"work:\" \"/tmp/mnt/work\" --vfs-cache-mode writes --vfs-cache-max-size 2048M --dir-cache-time 300s --umask 077\n"
    ));
    let mut o = MountOptions::default();
    o.read_only = true;
    o.vfs_refresh = true;
    o.poll_interval_secs = Some(0);
    o.cache_max_size_mb = None;
    o.umask = Some(0o022);
    let m2 = Mount { display_name: "Photos".into(), subpath: "pics".into(), options: o, ..m };
    let u2 = render(&m2, &Context { credential_path: "/etc/creds/work".into() });
    assert!(u2.starts_with("[Unit]\nDescription=rclone mount: Photos\n"));
    assert!(u2.contains("\"work:pics\" \"/tmp/mnt/work\" --vfs-cache-mode writes --dir-cache-time 300s --umask 022 --read-only --vfs-refresh --poll-interval 0s\n"));
    assert!(u2.ends_with("[Install]\nWantedBy=default.target\n"));
}

#[test]
fn blob_options_read_back_through_parse() {
    let src = smb_source("work", true);
    let secrets = smap(&[("pass", "OBSC")]);
    let blob = encode_credential_blob(&src, &secrets);
    let doc = Document::parse(&blob).unwrap();
    assert_eq!(doc.get("work", "type"), Some("smb"));
    assert_eq!(doc.get("work", "host"), Some("files.example.com"));
    assert_eq!(doc.get("work", "user"), Some("alice"));
    assert_eq!(doc.get("work", "pass"), Some("OBSC"));
}

#[test]
fn override_written_reads_back() {
    let b = LocalBackend { scope: Scope::System, credential_dir_spec: "/etc/creds".into() };
    match b.provider_override_write(SourceKind::Drive, "id", "sec").unwrap() {
        OverrideWrite::Store { name, blob } => {
            assert_eq!(name, provider_override_name(SourceKind::Drive));
            assert_eq!(provider_override_from_blob(&blob, SourceKind::Drive).unwrap(), Some(("id".into(), "sec".into())));
        }
        other => panic!("expected a stored override, got {other:?}"),
    }
}
