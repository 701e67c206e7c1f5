//! Declarative per-kind field schema: which rclone remote types the app
//! offers and what connection fields each one takes. The UI renders its
//! source-type picker and forms from this table.
//!
//! Wizard-only kinds (OAuth / interactive-auth backends) carry no flat
//! fields here; their setup is a multi-step flow driven by
//! `rclone_config_driver`.
use crate::str_map::{keys_sorted, lemma_lookup_absent, lemma_lookup_at, lookup, StrMap};
use crate::text::{push_str, str_eq};
use vstd::prelude::*;

verus! {

#[derive(Debug, Clone, Copy, PartialEq, Eq, Structural)]
pub enum FieldType {
    Text,
    Bool,
    Select,
}

/// One choice in a `Select` field's dropdown. `value` is the wire value
/// written to the source's options map; `label` is what the picker shows.
#[derive(Debug, Clone, Copy)]
pub struct FieldOption {
    pub value: &'static str,
    pub label: &'static str,
}

#[derive(Debug, Clone)]
pub struct FieldSchema {
    pub key: &'static str,
    pub label: &'static str,
    pub placeholder: &'static str,
    pub field_type: FieldType,
    /// Choices for a `Select` field; empty for every other field type.
    pub options: Vec<FieldOption>,
    /// Whether rclone can't actually connect without this field. Bool and
    /// Select fields are never required.
    pub required: bool,
}

#[derive(Debug, Clone)]
pub struct KindSchema {
    pub tag: &'static str,
    pub label: &'static str,
    pub icon: &'static str,
    pub fields: Vec<FieldSchema>,
    /// True for kinds whose setup is a multi-step interactive flow; `fields`
    /// is then not a form the UI validates against.
    pub wizard_only: bool,
    /// From `backend_features::lookup`: whether this backend can stream an
    /// upload without buffering it first. WebDAV's real value depends on its
    /// `vendor` option, so it is fixed `false` here (see
    /// `backend_features::webdav_put_stream`).
    pub put_stream: bool,
    /// From `backend_features::lookup`: whether this backend allows
    /// duplicate filenames within a directory.
    pub duplicate_files: bool,
}

/// A field as the specification sees it.
pub struct FieldSchemaV {
    pub key: Seq<char>,
    pub label: Seq<char>,
    pub placeholder: Seq<char>,
    pub field_type: FieldType,
    pub options: Seq<(Seq<char>, Seq<char>)>,
    pub required: bool,
}

/// A kind schema as the specification sees it.
pub struct KindSchemaV {
    pub tag: Seq<char>,
    pub label: Seq<char>,
    pub icon: Seq<char>,
    pub fields: Seq<FieldSchemaV>,
    pub wizard_only: bool,
    pub put_stream: bool,
    pub duplicate_files: bool,
}

pub open spec fn option_view(o: FieldOption) -> (Seq<char>, Seq<char>) {
    (o.value@, o.label@)
}

pub open spec fn field_view(f: FieldSchema) -> FieldSchemaV {
    FieldSchemaV {
        key: f.key@,
        label: f.label@,
        placeholder: f.placeholder@,
        field_type: f.field_type,
        options: f.options@.map_values(|o: FieldOption| option_view(o)),
        required: f.required,
    }
}

pub open spec fn fields_view(fs: Seq<FieldSchema>) -> Seq<FieldSchemaV> {
    fs.map_values(|f: FieldSchema| field_view(f))
}

pub open spec fn kind_view(k: KindSchema) -> KindSchemaV {
    KindSchemaV {
        tag: k.tag@,
        label: k.label@,
        icon: k.icon@,
        fields: fields_view(k.fields@),
        wizard_only: k.wizard_only,
        put_stream: k.put_stream,
        duplicate_files: k.duplicate_files,
    }
}

pub open spec fn spec_text(key: Seq<char>, label: Seq<char>, placeholder: Seq<char>) -> FieldSchemaV {
    FieldSchemaV { key, label, placeholder, field_type: FieldType::Text, options: Seq::empty(), required: false }
}

pub open spec fn spec_required_text(key: Seq<char>, label: Seq<char>, placeholder: Seq<char>) -> FieldSchemaV {
    FieldSchemaV { key, label, placeholder, field_type: FieldType::Text, options: Seq::empty(), required: true }
}

pub open spec fn spec_boolean(key: Seq<char>, label: Seq<char>) -> FieldSchemaV {
    FieldSchemaV { key, label, placeholder: ""@, field_type: FieldType::Bool, options: Seq::empty(), required: false }
}

pub open spec fn spec_select(key: Seq<char>, label: Seq<char>, options: Seq<(Seq<char>, Seq<char>)>) -> FieldSchemaV {
    FieldSchemaV { key, label, placeholder: ""@, field_type: FieldType::Select, options, required: false }
}

fn text(key: &'static str, label: &'static str, placeholder: &'static str) -> (f: FieldSchema)
    ensures
        field_view(f) == spec_text(key@, label@, placeholder@),
{
    let f = FieldSchema { key, label, placeholder, field_type: FieldType::Text, options: Vec::new(), required: false };
    assert(field_view(f).options =~= Seq::<(Seq<char>, Seq<char>)>::empty());
    f
}

/// Like `text`, but rclone can't actually connect without it.
fn required_text(key: &'static str, label: &'static str, placeholder: &'static str) -> (f: FieldSchema)
    ensures
        field_view(f) == spec_required_text(key@, label@, placeholder@),
{
    let f = FieldSchema { key, label, placeholder, field_type: FieldType::Text, options: Vec::new(), required: true };
    assert(field_view(f).options =~= Seq::<(Seq<char>, Seq<char>)>::empty());
    f
}

fn boolean(key: &'static str, label: &'static str) -> (f: FieldSchema)
    ensures
        field_view(f) == spec_boolean(key@, label@),
{
    let f = FieldSchema { key, label, placeholder: "", field_type: FieldType::Bool, options: Vec::new(), required: false };
    assert(field_view(f).options =~= Seq::<(Seq<char>, Seq<char>)>::empty());
    f
}

fn select(key: &'static str, label: &'static str, options: Vec<FieldOption>) -> (f: FieldSchema)
    ensures
        field_view(f) == spec_select(key@, label@, options@.map_values(|o: FieldOption| option_view(o))),
{
    FieldSchema { key, label, placeholder: "", field_type: FieldType::Select, options, required: false }
}

pub open spec fn vendor_options_spec() -> Seq<(Seq<char>, Seq<char>)> {
    seq![
        (""@, "Not set"@),
        ("fastmail"@, "Fastmail Files"@),
        ("nextcloud"@, "Nextcloud"@),
        ("owncloud"@, "ownCloud"@),
        ("infinitescale"@, "Infinitescale"@),
        ("opencloud"@, "OpenCloud"@),
        ("sharepoint"@, "Sharepoint"@),
        ("sharepoint-ntlm"@, "Sharepoint (NTLM)"@),
        ("rclone"@, "rclone"@),
        ("other"@, "Other"@),
    ]
}

fn webdav_vendor_options() -> (v: Vec<FieldOption>)
    ensures
        v@.map_values(|o: FieldOption| option_view(o)) == vendor_options_spec(),
{
    let mut v: Vec<FieldOption> = Vec::new();
    v.push(FieldOption { value: "", label: "Not set" });
    v.push(FieldOption { value: "fastmail", label: "Fastmail Files" });
    v.push(FieldOption { value: "nextcloud", label: "Nextcloud" });
    v.push(FieldOption { value: "owncloud", label: "ownCloud" });
    v.push(FieldOption { value: "infinitescale", label: "Infinitescale" });
    v.push(FieldOption { value: "opencloud", label: "OpenCloud" });
    v.push(FieldOption { value: "sharepoint", label: "Sharepoint" });
    v.push(FieldOption { value: "sharepoint-ntlm", label: "Sharepoint (NTLM)" });
    v.push(FieldOption { value: "rclone", label: "rclone" });
    v.push(FieldOption { value: "other", label: "Other" });
    assert(v@.map_values(|o: FieldOption| option_view(o)) =~= vendor_options_spec());
    v
}

pub open spec fn smb_fields_spec() -> Seq<FieldSchemaV> {
    seq![
        spec_required_text("host"@, "Host:"@, "files.example.com"@),
        spec_text("user"@, "User:"@, "alice"@),
        spec_text("domain"@, "Domain:"@, "optional"@),
        spec_text("port"@, "Port:"@, "445"@),
    ]
}

fn smb_fields() -> (v: Vec<FieldSchema>)
    ensures
        fields_view(v@) == smb_fields_spec(),
{
    let mut v: Vec<FieldSchema> = Vec::new();
    v.push(required_text("host", "Host:", "files.example.com"));
    v.push(text("user", "User:", "alice"));
    v.push(text("domain", "Domain:", "optional"));
    v.push(text("port", "Port:", "445"));
    assert(fields_view(v@) =~= smb_fields_spec());
    v
}

pub open spec fn webdav_fields_spec() -> Seq<FieldSchemaV> {
    seq![
        spec_required_text("url"@, "URL:"@, "https://dav.example.com/remote.php/dav/files/alice"@),
        spec_select("vendor"@, "Vendor:"@, vendor_options_spec()),
        spec_text("user"@, "User:"@, "alice"@),
    ]
}

fn webdav_fields() -> (v: Vec<FieldSchema>)
    ensures
        fields_view(v@) == webdav_fields_spec(),
{
    let mut v: Vec<FieldSchema> = Vec::new();
    v.push(required_text("url", "URL:", "https://dav.example.com/remote.php/dav/files/alice"));
    v.push(select("vendor", "Vendor:", webdav_vendor_options()));
    v.push(text("user", "User:", "alice"));
    assert(fields_view(v@) =~= webdav_fields_spec());
    v
}

pub open spec fn sftp_fields_spec() -> Seq<FieldSchemaV> {
    seq![
        spec_required_text("host"@, "Host:"@, "sftp.example.com"@),
        spec_text("user"@, "User:"@, "(current user)"@),
        spec_text("port"@, "Port:"@, "22"@),
        spec_text("key_file"@, "Private key file:"@, "~/.ssh/id_ed25519"@),
    ]
}

fn sftp_fields() -> (v: Vec<FieldSchema>)
    ensures
        fields_view(v@) == sftp_fields_spec(),
{
    let mut v: Vec<FieldSchema> = Vec::new();
    v.push(required_text("host", "Host:", "sftp.example.com"));
    v.push(text("user", "User:", "(current user)"));
    v.push(text("port", "Port:", "22"));
    v.push(text("key_file", "Private key file:", "~/.ssh/id_ed25519"));
    assert(fields_view(v@) =~= sftp_fields_spec());
    v
}

pub open spec fn ftp_fields_spec() -> Seq<FieldSchemaV> {
    seq![
        spec_required_text("host"@, "Host:"@, "ftp.example.com"@),
        spec_text("user"@, "User:"@, "(current user)"@),
        spec_text("port"@, "Port:"@, "21"@),
        spec_boolean("tls"@, "Use implicit FTPS:"@),
        spec_boolean("explicit_tls"@, "Use explicit FTPS (FTPES):"@),
    ]
}

fn ftp_fields() -> (v: Vec<FieldSchema>)
    ensures
        fields_view(v@) == ftp_fields_spec(),
{
    let mut v: Vec<FieldSchema> = Vec::new();
    v.push(required_text("host", "Host:", "ftp.example.com"));
    v.push(text("user", "User:", "(current user)"));
    v.push(text("port", "Port:", "21"));
    v.push(boolean("tls", "Use implicit FTPS:"));
    v.push(boolean("explicit_tls", "Use explicit FTPS (FTPES):"));
    assert(fields_view(v@) =~= ftp_fields_spec());
    v
}

/// Every kind the app offers, in picker order.
pub open spec fn kind_schemas() -> Seq<KindSchemaV> {
    seq![
        KindSchemaV {
            tag: "smb"@,
            label: "SMB / Windows share"@,
            icon: "folder-network-symbolic"@,
            fields: smb_fields_spec(),
            wizard_only: false,
            put_stream: true,
            duplicate_files: false,
        },
        KindSchemaV {
            tag: "webdav"@,
            label: "WebDAV"@,
            icon: "folder-cloud-symbolic"@,
            fields: webdav_fields_spec(),
            wizard_only: false,
            put_stream: false,
            duplicate_files: false,
        },
        KindSchemaV {
            tag: "sftp"@,
            label: "SFTP"@,
            icon: "folder-network-symbolic"@,
            fields: sftp_fields_spec(),
            wizard_only: false,
            put_stream: true,
            duplicate_files: false,
        },
        KindSchemaV {
            tag: "ftp"@,
            label: "FTP / FTPS"@,
            icon: "folder-network-symbolic"@,
            fields: ftp_fields_spec(),
            wizard_only: false,
            put_stream: true,
            duplicate_files: false,
        },
        KindSchemaV {
            tag: "drive"@,
            label: "Google Drive"@,
            icon: "folder-google-drive"@,
            fields: Seq::empty(),
            wizard_only: true,
            put_stream: true,
            duplicate_files: true,
        },
        KindSchemaV {
            tag: "iclouddrive"@,
            label: "iCloud Drive"@,
            icon: "folder-cloud-symbolic"@,
            fields: Seq::empty(),
            wizard_only: true,
            put_stream: false,
            duplicate_files: false,
        },
    ]
}

/// Every kind the app offers, in picker order.
pub fn all_kind_schemas() -> (v: Vec<KindSchema>)
    ensures
        v@.map_values(|k: KindSchema| kind_view(k)) == kind_schemas(),
{
    let mut v: Vec<KindSchema> = Vec::new();
    let fields = smb_fields();
    assert(fields_view(fields@) =~= smb_fields_spec());
    v.push(KindSchema {
        tag: "smb",
        label: "SMB / Windows share",
        icon: "folder-network-symbolic",
        fields,
        wizard_only: false,
        put_stream: true,
        duplicate_files: false,
    });
    let fields = webdav_fields();
    assert(fields_view(fields@) =~= webdav_fields_spec());
    v.push(KindSchema {
        tag: "webdav",
        label: "WebDAV",
        icon: "folder-cloud-symbolic",
        fields,
        wizard_only: false,
        put_stream: false,
        duplicate_files: false,
    });
    let fields = sftp_fields();
    assert(fields_view(fields@) =~= sftp_fields_spec());
    v.push(KindSchema {
        tag: "sftp",
        label: "SFTP",
        icon: "folder-network-symbolic",
        fields,
        wizard_only: false,
        put_stream: true,
        duplicate_files: false,
    });
    let fields = ftp_fields();
    assert(fields_view(fields@) =~= ftp_fields_spec());
    v.push(KindSchema {
        tag: "ftp",
        label: "FTP / FTPS",
        icon: "folder-network-symbolic",
        fields,
        wizard_only: false,
        put_stream: true,
        duplicate_files: false,
    });
    let fields = Vec::new();
    assert(fields_view(fields@) =~= Seq::empty());
    v.push(KindSchema {
        tag: "drive",
        label: "Google Drive",
        icon: "folder-google-drive",
        fields,
        wizard_only: true,
        put_stream: true,
        duplicate_files: true,
    });
    let fields = Vec::new();
    assert(fields_view(fields@) =~= Seq::empty());
    v.push(KindSchema {
        tag: "iclouddrive",
        label: "iCloud Drive",
        icon: "folder-cloud-symbolic",
        fields,
        wizard_only: true,
        put_stream: false,
        duplicate_files: false,
    });
    assert(v@.map_values(|k: KindSchema| kind_view(k)) =~= kind_schemas());
    v
}

pub open spec fn first_tag_at(ks: Seq<KindSchemaV>, tag: Seq<char>, i: int) -> bool {
    &&& 0 <= i < ks.len()
    &&& ks[i].tag == tag
    &&& forall|j: int| 0 <= j < i ==> #[trigger] ks[j].tag != tag
}

/// The schema of the first kind tagged `tag`.
pub open spec fn schema_lookup(tag: Seq<char>) -> Option<KindSchemaV> {
    if exists|i: int| first_tag_at(kind_schemas(), tag, i) {
        Some(kind_schemas()[choose|i: int| first_tag_at(kind_schemas(), tag, i)])
    } else {
        None
    }
}

/// The schema for the kind tagged `tag`.
pub fn schema_for(tag: &str) -> (r: Option<KindSchema>)
    ensures
        match r {
            Some(k) => schema_lookup(tag@) == Some(kind_view(k)),
            None => schema_lookup(tag@) is None,
        },
{
    let mut all = all_kind_schemas();
    let ghost ks = kind_schemas();
    let mut i: usize = 0;
    while i < all.len()
        invariant
            all@.map_values(|k: KindSchema| kind_view(k)) == ks,
            ks == kind_schemas(),
            i <= all@.len(),
            forall|j: int| 0 <= j < i ==> #[trigger] ks[j].tag != tag@,
        decreases all@.len() - i,
    {
        assert(ks[i as int] == kind_view(all@[i as int]));
        if str_eq(all[i].tag, tag) {
            proof {
                assert(first_tag_at(ks, tag@, i as int));
                let c = choose|c: int| first_tag_at(ks, tag@, c);
                if c < i {
                    assert(ks[c].tag != tag@);
                }
                if c > i {
                    assert(ks[i as int].tag != tag@);
                }
            }
            let k = all.remove(i);
            return Some(k);
        }
        i = i + 1;
    }
    proof {
        if exists|c: int| first_tag_at(ks, tag@, c) {
            let c = choose|c: int| first_tag_at(ks, tag@, c);
            assert(ks[c].tag != tag@);
        }
    }
    None
}

/// Tags of kinds that have a shared/admin credential override the UI's
/// Credentials page can manage. Each also appears in `all_kind_schemas`.
pub open spec fn credential_capable_spec() -> Seq<Seq<char>> {
    seq!["drive"@]
}

pub fn credential_capable_kinds() -> (v: Vec<&'static str>)
    ensures
        v@.map_values(|t: &'static str| t@) == credential_capable_spec(),
{
    let mut v: Vec<&'static str> = Vec::new();
    v.push("drive");
    assert(v@.map_values(|t: &'static str| t@) =~= credential_capable_spec());
    v
}

// ---------------------------------------------------------------------------
// Validating a source's options against its kind's schema.
// ---------------------------------------------------------------------------

/// The view of the value stored under `k`.
pub open spec fn opt_value(opts: Seq<(Seq<char>, Seq<char>)>, k: Seq<char>) -> Option<Seq<char>> {
    lookup(opts, k)
}

pub open spec fn has_field(fields: Seq<FieldSchemaV>, key: Seq<char>) -> bool {
    exists|j: int| 0 <= j < fields.len() && #[trigger] fields[j].key == key
}

pub open spec fn unknown_key_at(opts: Seq<(Seq<char>, Seq<char>)>, fields: Seq<FieldSchemaV>, i: int) -> bool {
    &&& 0 <= i < opts.len()
    &&& !has_field(fields, opts[i].0)
    &&& forall|m: int| 0 <= m < i ==> has_field(fields, #[trigger] opts[m].0)
}

pub open spec fn has_choice(options: Seq<(Seq<char>, Seq<char>)>, v: Seq<char>) -> bool {
    exists|j: int| 0 <= j < options.len() && #[trigger] options[j].0 == v
}

pub open spec fn msg_unknown_kind(tag: Seq<char>) -> Seq<char> {
    "\u{201c}"@ + tag + "\u{201d} isn\u{2019}t a source type this version supports."@
}

pub open spec fn msg_unknown_key(key: Seq<char>, label: Seq<char>) -> Seq<char> {
    "\u{201c}"@ + key + "\u{201d} isn\u{2019}t a valid field for "@ + label + "."@
}

pub open spec fn msg_not_bool(label: Seq<char>) -> Seq<char> {
    "\u{201c}"@ + label + "\u{201d} must be true or false."@
}

pub open spec fn msg_bad_choice(v: Seq<char>, label: Seq<char>) -> Seq<char> {
    "\u{201c}"@ + v + "\u{201d} isn\u{2019}t a valid choice for "@ + label + "."@
}

pub open spec fn msg_both_ftps() -> Seq<char> {
    "Implicit and explicit FTPS can\u{2019}t both be enabled \u{2014} pick one."@
}

/// What is wrong with the option stored for field `f`, if anything.
pub open spec fn field_violation(f: FieldSchemaV, opts: Seq<(Seq<char>, Seq<char>)>) -> Option<Seq<char>> {
    match opt_value(opts, f.key) {
        Some(v) => if f.field_type == FieldType::Bool && v != "true"@ && v != "false"@ {
            Some(msg_not_bool(f.label))
        } else if f.field_type == FieldType::Select && !has_choice(f.options, v) {
            Some(msg_bad_choice(v, f.label))
        } else {
            None
        },
        None => None,
    }
}

pub open spec fn bad_field_at(opts: Seq<(Seq<char>, Seq<char>)>, fields: Seq<FieldSchemaV>, j: int) -> bool {
    &&& 0 <= j < fields.len()
    &&& field_violation(fields[j], opts) is Some
    &&& forall|m: int| 0 <= m < j ==> field_violation(#[trigger] fields[m], opts) is None
}

/// The outcome of validating `opts` for the kind tagged `tag`: the first
/// problem found (unknown kind, then unknown keys in key order, then bad
/// values in field order, then the FTPS conflict), or `Ok`.
pub open spec fn spec_validate(tag: Seq<char>, opts: Seq<(Seq<char>, Seq<char>)>) -> Result<(), Seq<char>> {
    match schema_lookup(tag) {
        None => Err(msg_unknown_kind(tag)),
        Some(s) => if s.wizard_only {
            Ok(())
        } else if exists|i: int| unknown_key_at(opts, s.fields, i) {
            Err(msg_unknown_key(opts[choose|i: int| unknown_key_at(opts, s.fields, i)].0, s.label))
        } else if exists|j: int| bad_field_at(opts, s.fields, j) {
            Err(field_violation(s.fields[choose|j: int| bad_field_at(opts, s.fields, j)], opts)->Some_0)
        } else if tag == "ftp"@ && opt_value(opts, "tls"@) == Some("true"@) && opt_value(opts, "explicit_tls"@)
            == Some("true"@) {
            Err(msg_both_ftps())
        } else {
            Ok(())
        },
    }
}


/// A Bool field is violated exactly when the value stored for it is
/// neither `true` nor `false`.
pub proof fn law_bool_field_violation(f: FieldSchemaV, opts: Seq<(Seq<char>, Seq<char>)>, v: Seq<char>)
    requires
        f.field_type == FieldType::Bool,
        opt_value(opts, f.key) == Some(v),
    ensures
        field_violation(f, opts) is Some <==> (v != "true"@ && v != "false"@),
{
}

/// For every kind and every Bool field of it, options that set only that
/// field to `true` or to `false` validate.
pub proof fn law_bool_values_accepted(i: int, j: int, v: Seq<char>)
    requires
        0 <= i < kind_schemas().len(),
        0 <= j < kind_schemas()[i].fields.len(),
        kind_schemas()[i].fields[j].field_type == FieldType::Bool,
        v == "true"@ || v == "false"@,
    ensures
        spec_validate(kind_schemas()[i].tag, seq![(kind_schemas()[i].fields[j].key, v)]) is Ok,
{
    let ks = kind_schemas();
    let fs = ks[i].fields;
    assert(j == 0 || j == 1 || j == 2 || j == 3 || j == 4 || j >= 5);
    if i != 3 {
        assert(fs[j].field_type != FieldType::Bool) by {
            if i == 0 {
                assert(fs =~= smb_fields_spec());
            } else if i == 1 {
                assert(fs =~= webdav_fields_spec());
            } else if i == 2 {
                assert(fs =~= sftp_fields_spec());
            }
        }
    } else {
        reveal_strlit("smb");
        reveal_strlit("webdav");
        reveal_strlit("sftp");
        reveal_strlit("ftp");
        reveal_strlit("host");
        reveal_strlit("user");
        reveal_strlit("port");
        reveal_strlit("tls");
        reveal_strlit("explicit_tls");
        reveal_strlit("true");
        reveal_strlit("false");
        let tag = "ftp"@;
        assert(ks[0].tag[0] != tag[0]);
        assert(ks[1].tag.len() != tag.len());
        assert(ks[2].tag.len() != tag.len());
        assert(first_tag_at(ks, tag, 3));
        let c = choose|c: int| first_tag_at(ks, tag, c);
        if c < 3 {
            assert(ks[c].tag != tag);
        }
        if c > 3 {
            assert(ks[3].tag != tag);
        }
        assert(schema_lookup(tag) == Some(ks[3]));
        assert(fs == ftp_fields_spec());
        let key = fs[j].key;
        assert(j == 3 || j == 4);
        let opts = seq![(key, v)];
        assert(keys_sorted(opts));
        lemma_lookup_at(opts, key, 0);
        assert(has_field(fs, opts[0].0));
        if exists|q: int| unknown_key_at(opts, fs, q) {
            let q = choose|q: int| unknown_key_at(opts, fs, q);
            assert(q == 0);
        }
        assert forall|m: int| 0 <= m < fs.len() implies field_violation(#[trigger] fs[m], opts) is None by {
            if m == j {
            } else {
                assert(fs[m].key.len() != key.len());
                lemma_lookup_absent(opts, fs[m].key);
            }
        }
        if exists|q: int| bad_field_at(opts, fs, q) {
            let q = choose|q: int| bad_field_at(opts, fs, q);
        }
        if key == "tls"@ {
            assert("explicit_tls"@.len() != key.len());
            lemma_lookup_absent(opts, "explicit_tls"@);
        } else {
            assert("tls"@.len() != key.len());
            lemma_lookup_absent(opts, "tls"@);
        }
    }
}

fn field_has_key(fields: &Vec<FieldSchema>, key: &str) -> (r: bool)
    ensures
        r == has_field(fields_view(fields@), key@),
{
    let ghost fv = fields_view(fields@);
    let mut j: usize = 0;
    while j < fields.len()
        invariant
            fv == fields_view(fields@),
            j <= fields@.len(),
            forall|m: int| 0 <= m < j ==> #[trigger] fv[m].key != key@,
        decreases fields@.len() - j,
    {
        assert(fv[j as int] == field_view(fields@[j as int]));
        if str_eq(fields[j].key, key) {
            assert(fv[j as int].key == key@);
            return true;
        }
        j = j + 1;
    }
    false
}

fn choice_exists(options: &Vec<FieldOption>, v: &str) -> (r: bool)
    ensures
        r == has_choice(options@.map_values(|o: FieldOption| option_view(o)), v@),
{
    let ghost ov = options@.map_values(|o: FieldOption| option_view(o));
    let mut j: usize = 0;
    while j < options.len()
        invariant
            ov == options@.map_values(|o: FieldOption| option_view(o)),
            j <= options@.len(),
            forall|m: int| 0 <= m < j ==> #[trigger] ov[m].0 != v@,
        decreases options@.len() - j,
    {
        assert(ov[j as int] == option_view(options@[j as int]));
        if str_eq(options[j].value, v) {
            assert(ov[j as int].0 == v@);
            return true;
        }
        j = j + 1;
    }
    false
}

fn msg3(a: &str, b: &str, c: &str) -> (r: String)
    ensures
        r@ == a@ + b@ + c@,
{
    let mut m = String::new();
    push_str(&mut m, a);
    push_str(&mut m, b);
    push_str(&mut m, c);
    m
}

/// What is wrong with the option stored for `field`, if anything.
fn check_field(field: &FieldSchema, options: &StrMap<String>) -> (r: Option<String>)
    ensures
        match r {
            Some(m) => field_violation(field_view(*field), options@) == Some(m@),
            None => field_violation(field_view(*field), options@) is None,
        },
{
    match options.get(field.key) {
        Some(v) => {
            if field.field_type == FieldType::Bool && !str_eq(v.as_str(), "true") && !str_eq(v.as_str(), "false") {
                let mut m = msg3("\u{201c}", field.label, "\u{201d} must be true or false.");
                return Some(m);
            }
            if field.field_type == FieldType::Select && !choice_exists(&field.options, v.as_str()) {
                let mut m = msg3("\u{201c}", v.as_str(), "\u{201d} isn\u{2019}t a valid choice for ");
                push_str(&mut m, field.label);
                push_str(&mut m, ".");
                return Some(m);
            }
            None
        },
        None => None,
    }
}

/// Reject any option key that isn't part of this kind's flat schema, and any
/// value a Bool or Select field can't take. Wizard-only kinds are not
/// validated: their options come from the interactive driver.
pub fn validate_options_against_schema(kind_tag: &str, options: &StrMap<String>) -> (r: Result<(), String>)
    ensures
        match r {
            Ok(()) => spec_validate(kind_tag@, options@) is Ok,
            Err(m) => spec_validate(kind_tag@, options@) == Err::<(), Seq<char>>(m@),
        },
{
    let schema = match schema_for(kind_tag) {
        Some(s) => s,
        None => {
            return Err(msg3("\u{201c}", kind_tag, "\u{201d} isn\u{2019}t a source type this version supports."));
        },
    };
    if schema.wizard_only {
        return Ok(());
    }
    let ghost fv = fields_view(schema.fields@);
    let ghost opts = options@;
    let mut i: usize = 0;
    while i < options.len()
        invariant
            fv == fields_view(schema.fields@),
            schema_lookup(kind_tag@) == Some(kind_view(schema)),
            !schema.wizard_only,
            opts == options@,
            i <= opts.len(),
            forall|m: int| 0 <= m < i ==> has_field(fv, #[trigger] opts[m].0),
        decreases opts.len() - i,
    {
        let key = options.key_at(i);
        if !field_has_key(&schema.fields, key) {
            proof {
                assert(unknown_key_at(opts, fv, i as int));
                let c = choose|c: int| unknown_key_at(opts, fv, c);
                if c < i {
                    assert(has_field(fv, opts[c].0));
                }
                if c > i {
                    assert(has_field(fv, opts[i as int].0));
                }
            }
            let mut m = msg3("\u{201c}", key, "\u{201d} isn\u{2019}t a valid field for ");
            push_str(&mut m, schema.label);
            push_str(&mut m, ".");
            assert(m@ =~= msg_unknown_key(key@, schema.label@));
            return Err(m);
        }
        i = i + 1;
    }
    proof {
        if exists|c: int| unknown_key_at(opts, fv, c) {
            let c = choose|c: int| unknown_key_at(opts, fv, c);
            assert(has_field(fv, opts[c].0));
        }
    }
    let mut j: usize = 0;
    while j < schema.fields.len()
        invariant
            fv == fields_view(schema.fields@),
            schema_lookup(kind_tag@) == Some(kind_view(schema)),
            !schema.wizard_only,
            forall|c: int| !unknown_key_at(opts, fv, c),
            opts == options@,
            j <= fv.len(),
            forall|m: int| 0 <= m < j ==> field_violation(#[trigger] fv[m], opts) is None,
        decreases fv.len() - j,
    {
        assert(fv[j as int] == field_view(schema.fields@[j as int]));
        match check_field(&schema.fields[j], options) {
            Some(m) => {
                proof {
                    assert(bad_field_at(opts, fv, j as int));
                    let c = choose|c: int| bad_field_at(opts, fv, c);
                    if c < j {
                        assert(field_violation(fv[c], opts) is None);
                    }
                    if c > j {
                        assert(field_violation(fv[j as int], opts) is None);
                    }
                }
                return Err(m);
            },
            None => {},
        }
        j = j + 1;
    }
    proof {
        if exists|c: int| bad_field_at(opts, fv, c) {
            let c = choose|c: int| bad_field_at(opts, fv, c);
            assert(field_violation(fv[c], opts) is None);
        }
    }
    if str_eq(kind_tag, "ftp") {
        let tls_on = match options.get("tls") {
            Some(v) => str_eq(v.as_str(), "true"),
            None => false,
        };
        let explicit_on = match options.get("explicit_tls") {
            Some(v) => str_eq(v.as_str(), "true"),
            None => false,
        };
        if tls_on && explicit_on {
            let mut m = String::new();
            push_str(&mut m, "Implicit and explicit FTPS can\u{2019}t both be enabled \u{2014} pick one.");
            assert(m@ =~= msg_both_ftps());
            return Err(m);
        }
    }
    Ok(())
}

} // verus!
