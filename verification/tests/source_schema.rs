use rclone_mounts_core::backend_features::lookup;
use rclone_mounts_core::source_schema::{
    all_kind_schemas, credential_capable_kinds, schema_for, validate_options_against_schema, FieldType,
};
use rclone_mounts_core::str_map::StrMap;

fn opts(pairs: &[(&str, &str)]) -> StrMap<String> {
    let mut m = StrMap::new();
    for (k, v) in pairs {
        m.insert(k.to_string(), v.to_string());
    }
    m
}

#[test]
fn kind_schema_features_match_backend_features_table() {
    for kind in all_kind_schemas() {
        if kind.tag == "webdav" {
            continue;
        }
        let expected = lookup(kind.tag)
            .unwrap_or_else(|| panic!("{} is missing from backend_features::BACKEND_FEATURES", kind.tag));
        assert_eq!(kind.put_stream, expected.put_stream, "put_stream mismatch for {}", kind.tag);
        assert_eq!(kind.duplicate_files, expected.duplicate_files, "duplicate_files mismatch for {}", kind.tag);
    }
}

#[test]
fn wizard_only_kinds_carry_no_flat_fields() {
    assert!(schema_for("drive").unwrap().wizard_only);
    assert!(schema_for("iclouddrive").unwrap().wizard_only);
}

#[test]
fn validate_rejects_unknown_option_key() {
    let o = opts(&[("bogus", "x")]);
    assert!(validate_options_against_schema("smb", &o).is_err());
}

#[test]
fn validate_accepts_known_keys_and_bool_values() {
    let o = opts(&[("host", "h"), ("tls", "true")]);
    assert!(validate_options_against_schema("ftp", &o).is_ok());
}

#[test]
fn validate_rejects_non_bool_value_for_bool_field() {
    let o = opts(&[("tls", "yes")]);
    assert!(validate_options_against_schema("ftp", &o).is_err());
}

#[test]
fn validate_skips_field_check_for_wizard_only_kinds() {
    let o = opts(&[("token", "whatever")]);
    assert!(validate_options_against_schema("drive", &o).is_ok());
}

#[test]
fn validate_rejects_unknown_kind() {
    let o = opts(&[]);
    assert!(validate_options_against_schema("nope", &o).is_err());
}

#[test]
fn validate_rejects_both_ftp_tls_modes_at_once() {
    let o = opts(&[("tls", "true"), ("explicit_tls", "true")]);
    assert!(validate_options_against_schema("ftp", &o).is_err());
}

#[test]
fn validate_accepts_a_single_ftp_tls_mode() {
    let o = opts(&[("tls", "true")]);
    assert!(validate_options_against_schema("ftp", &o).is_ok());
    let o = opts(&[("explicit_tls", "true")]);
    assert!(validate_options_against_schema("ftp", &o).is_ok());
    assert!(validate_options_against_schema("ftp", &StrMap::new()).is_ok());
}

#[test]
fn every_kind_has_a_schema_in_order() {
    let tags: Vec<&str> = all_kind_schemas().iter().map(|k| k.tag).collect();
    assert!(tags.contains(&"smb"));
    assert!(tags.contains(&"webdav"));
    assert!(tags.contains(&"sftp"));
    assert!(tags.contains(&"ftp"));
    assert!(tags.contains(&"drive"));
    assert!(tags.contains(&"iclouddrive"));
    assert!(schema_for("nope").is_none());
}

#[test]
fn select_fields_carry_their_choices() {
    let webdav = schema_for("webdav").unwrap();
    let vendor = webdav.fields.iter().find(|f| f.key == "vendor").unwrap();
    assert_eq!(vendor.field_type, FieldType::Select);
    assert!(!vendor.options.is_empty());
    assert!(!vendor.required);
}

#[test]
fn credential_capable_kinds_have_schemas() {
    assert_eq!(credential_capable_kinds(), vec!["drive"]);
    for tag in credential_capable_kinds() {
        assert!(schema_for(tag).is_some());
    }
}

#[test]
fn validate_rejects_a_value_outside_a_select() {
    let o = opts(&[("url", "https://x"), ("vendor", "not-a-vendor")]);
    assert!(validate_options_against_schema("webdav", &o).is_err());
    let o = opts(&[("url", "https://x"), ("vendor", "nextcloud")]);
    assert!(validate_options_against_schema("webdav", &o).is_ok());
}

#[test]
fn wizard_only_kinds_list_no_fields() {
    for k in all_kind_schemas() {
        if k.wizard_only {
            assert!(k.fields.is_empty(), "{} lists fields", k.tag);
        }
    }
}
