use rclone_mounts_core::naming::{derive_id, slugify};
use rclone_mounts_core::unit_writer::validate_name;

#[test]
fn slugify_basics() {
    assert_eq!(slugify("Work Share"), "work-share");
    assert_eq!(slugify("  Photos 2026!! "), "photos-2026");
    assert_eq!(slugify("a___b---c"), "a-b-c");
    assert_eq!(slugify("😀"), "");
    assert_eq!(slugify("Müller"), "m-ller");
}

#[test]
fn derived_ids_are_valid_names() {
    for input in ["Work Share", "😀", "  ", "ALLCAPS", "x".repeat(200).as_str()] {
        let id = derive_id(input, "source", |_| false);
        assert!(validate_name(&id).is_ok(), "invalid id {id:?} from {input:?}");
    }
}

#[test]
fn collisions_get_suffixed() {
    let taken = ["work-share".to_string(), "work-share-2".to_string()];
    let id = derive_id("Work Share", "source", |c| taken.contains(&c.to_string()));
    assert_eq!(id, "work-share-3");
}

#[test]
fn empty_slug_uses_fallback() {
    let id = derive_id("😀", "mount", |_| false);
    assert_eq!(id, "mount");
}

#[test]
fn slugs_are_capped_at_fifty_characters() {
    let s = slugify(&"ab".repeat(40));
    assert_eq!(s.len(), 50);
    let t = slugify(&format!("{}-tail", "x".repeat(49)));
    assert_eq!(t, "x".repeat(49));
}

#[test]
fn free_base_is_used_as_is() {
    let id = derive_id("Photos", "source", |c| c == "other");
    assert_eq!(id, "photos");
}

#[test]
fn suffixes_skip_every_taken_candidate() {
    let taken = ["media", "media-2", "media-3", "media-4"];
    let id = derive_id("Media", "mount", |c| taken.contains(&c));
    assert_eq!(id, "media-5");
}

#[test]
fn slugs_are_stable_and_free_of_double_dashes() {
    for input in ["Work  --  Share", "--A--B--", "Photos 2026!!", "😀", "", "x"] {
        let s = slugify(input);
        assert!(!s.contains("--"), "{s:?}");
        assert_eq!(slugify(&s), s);
        assert_eq!(s.is_empty(), !input.chars().any(|c| c.is_ascii_alphanumeric()));
        if !s.is_empty() {
            assert!(validate_name(&s).is_ok());
        }
    }
}
