//! Source (rclone remote) kinds and definitions.
use crate::str_map::StrMap;
use crate::text::str_eq;
use vstd::prelude::*;

verus! {

#[derive(Debug, Clone, Copy, PartialEq, Eq, Structural, PartialOrd, Ord, Hash)]
pub enum SourceKind {
    Smb,
    Drive,
    WebDav,
    Sftp,
    Ftp,
    IcloudDrive,
}

/// The rclone `type=` tag of each kind.
pub open spec fn kind_tag(k: SourceKind) -> Seq<char> {
    match k {
        SourceKind::Smb => "smb"@,
        SourceKind::Drive => "drive"@,
        SourceKind::WebDav => "webdav"@,
        SourceKind::Sftp => "sftp"@,
        SourceKind::Ftp => "ftp"@,
        SourceKind::IcloudDrive => "iclouddrive"@,
    }
}

/// The kind a tag names, if any.
pub open spec fn kind_of_tag(t: Seq<char>) -> Option<SourceKind> {
    if t == "smb"@ {
        Some(SourceKind::Smb)
    } else if t == "drive"@ {
        Some(SourceKind::Drive)
    } else if t == "webdav"@ {
        Some(SourceKind::WebDav)
    } else if t == "sftp"@ {
        Some(SourceKind::Sftp)
    } else if t == "ftp"@ {
        Some(SourceKind::Ftp)
    } else if t == "iclouddrive"@ {
        Some(SourceKind::IcloudDrive)
    } else {
        None
    }
}

impl SourceKind {
    /// The rclone `type=` tag for this kind. This is the canonical string form
    /// used both in rclone.conf and across the UI bridge.
    pub fn as_tag(&self) -> (r: &'static str)
        ensures
            r@ == kind_tag(*self),
    {
        match self {
            SourceKind::Smb => "smb",
            SourceKind::Drive => "drive",
            SourceKind::WebDav => "webdav",
            SourceKind::Sftp => "sftp",
            SourceKind::Ftp => "ftp",
            SourceKind::IcloudDrive => "iclouddrive",
        }
    }

    /// Parse a kind from its rclone `type=` tag. `None` for anything not
    /// modelled.
    pub fn from_tag(tag: &str) -> (r: Option<Self>)
        ensures
            r == kind_of_tag(tag@),
    {
        if str_eq(tag, "smb") {
            Some(SourceKind::Smb)
        } else if str_eq(tag, "drive") {
            Some(SourceKind::Drive)
        } else if str_eq(tag, "webdav") {
            Some(SourceKind::WebDav)
        } else if str_eq(tag, "sftp") {
            Some(SourceKind::Sftp)
        } else if str_eq(tag, "ftp") {
            Some(SourceKind::Ftp)
        } else if str_eq(tag, "iclouddrive") {
            Some(SourceKind::IcloudDrive)
        } else {
            None
        }
    }

    /// True for kinds whose setup is a multi-step interactive flow (OAuth,
    /// 2FA) rather than a static field form.
    pub fn is_wizard_only(&self) -> (r: bool)
        ensures
            r == (*self == SourceKind::Drive || *self == SourceKind::IcloudDrive),
    {
        matches!(self, SourceKind::Drive | SourceKind::IcloudDrive)
    }
}

/// Parsing a kind's tag gives the kind back, and a parsed tag is the kind's
/// tag.
pub proof fn law_tag_round_trip(k: SourceKind, t: Seq<char>)
    ensures
        kind_of_tag(kind_tag(k)) == Some(k),
        kind_of_tag(t) matches Some(k2) ==> kind_tag(k2) == t,
{
    reveal_strlit("smb");
    reveal_strlit("drive");
    reveal_strlit("webdav");
    reveal_strlit("sftp");
    reveal_strlit("ftp");
    reveal_strlit("iclouddrive");
    assert("smb"@[0] != "drive"@[0]);
    assert("smb"@ != "drive"@);
    assert("smb"@[0] != "webdav"@[0]);
    assert("smb"@ != "webdav"@);
    assert("smb"@[1] != "sftp"@[1]);
    assert("smb"@ != "sftp"@);
    assert("smb"@[0] != "ftp"@[0]);
    assert("smb"@ != "ftp"@);
    assert("smb"@[0] != "iclouddrive"@[0]);
    assert("smb"@ != "iclouddrive"@);
    assert("drive"@[0] != "webdav"@[0]);
    assert("drive"@ != "webdav"@);
    assert("drive"@[0] != "sftp"@[0]);
    assert("drive"@ != "sftp"@);
    assert("drive"@[0] != "ftp"@[0]);
    assert("drive"@ != "ftp"@);
    assert("drive"@[0] != "iclouddrive"@[0]);
    assert("drive"@ != "iclouddrive"@);
    assert("webdav"@[0] != "sftp"@[0]);
    assert("webdav"@ != "sftp"@);
    assert("webdav"@[0] != "ftp"@[0]);
    assert("webdav"@ != "ftp"@);
    assert("webdav"@[0] != "iclouddrive"@[0]);
    assert("webdav"@ != "iclouddrive"@);
    assert("sftp"@[0] != "ftp"@[0]);
    assert("sftp"@ != "ftp"@);
    assert("sftp"@[0] != "iclouddrive"@[0]);
    assert("sftp"@ != "iclouddrive"@);
    assert("ftp"@[0] != "iclouddrive"@[0]);
    assert("ftp"@ != "iclouddrive"@);
}

/// A configured rclone remote. The secret (if any) is never carried in this
/// struct; the credential lives in a separate store.
#[derive(Debug)]
pub struct Source {
    pub name: String,
    pub kind: SourceKind,
    pub options: StrMap<String>,
    pub has_secret: bool,
}

/// One secret value bound for the credential blob. `obscure: true` means
/// `value` is plaintext that must be run through `rclone obscure` before
/// being written; `false` means `value` is already in its final on-disk form
/// and is written byte-for-byte.
#[derive(Debug, Clone, PartialEq, Eq)]
pub struct SecretValue {
    pub value: String,
    pub obscure: bool,
}

impl View for SecretValue {
    type V = (Seq<char>, bool);

    open spec fn view(&self) -> (Seq<char>, bool) {
        (self.value@, self.obscure)
    }
}

/// How the UI describes a desired source. `new_secrets` carries only the
/// secret keys being set or rotated; a key absent from the map means "leave
/// that key's stored value untouched".
#[derive(Debug)]
pub struct SourceDef {
    /// Internal id: rclone remote / file key. Slug, validated, immutable.
    pub name: String,
    /// Freeform name shown in the UI.
    pub display_name: String,
    pub kind: SourceKind,
    pub options: StrMap<String>,
    pub new_secrets: StrMap<SecretValue>,
}

/// A source definition as the specification sees it.
pub struct SourceDefV {
    pub name: Seq<char>,
    pub display_name: Seq<char>,
    pub kind: SourceKind,
    pub options: Seq<(Seq<char>, Seq<char>)>,
    pub new_secrets: Seq<(Seq<char>, (Seq<char>, bool))>,
}

impl View for SourceDef {
    type V = SourceDefV;

    open spec fn view(&self) -> SourceDefV {
        SourceDefV {
            name: self.name@,
            display_name: self.display_name@,
            kind: self.kind,
            options: self.options@,
            new_secrets: self.new_secrets@,
        }
    }
}

} // verus!
