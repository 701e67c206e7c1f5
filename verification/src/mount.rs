//! Mount definitions: where a source is mounted and with which rclone VFS
//! tuning options.
use vstd::prelude::*;

verus! {

/// rclone's `--vfs-cache-mode`.
#[derive(Debug, Clone, Copy, PartialEq, Eq, Structural)]
pub enum CacheMode {
    Off,
    Minimal,
    Writes,
    Full,
}

#[derive(Debug, Clone, Copy, PartialEq, Eq, Structural)]
pub struct MountOptions {
    pub cache_mode: CacheMode,
    pub cache_max_size_mb: Option<u64>,
    /// `--dir-cache-time`. `None` omits the flag (rclone's own default: 5
    /// minutes).
    pub dir_cache_time_secs: Option<u64>,
    pub umask: Option<u32>,
    pub read_only: bool,
    /// `--vfs-refresh`: walk the whole remote in the background when the
    /// mount starts, to warm the directory cache.
    pub vfs_refresh: bool,
    /// `--poll-interval`. `None` omits the flag (rclone's own default: 1
    /// minute); `Some(0)` disables polling.
    pub poll_interval_secs: Option<u64>,
}

/// The options a new mount starts with.
pub open spec fn default_mount_options() -> MountOptions {
    MountOptions {
        cache_mode: CacheMode::Writes,
        cache_max_size_mb: Some(2048),
        dir_cache_time_secs: Some(300),
        umask: Some(0o077),
        read_only: false,
        vfs_refresh: false,
        poll_interval_secs: None,
    }
}

impl Default for MountOptions {
    fn default() -> (r: Self)
        ensures
            r == default_mount_options(),
    {
        MountOptions {
            cache_mode: CacheMode::Writes,
            cache_max_size_mb: Some(2048),
            // rclone's own default (5 minutes).
            dir_cache_time_secs: Some(300),
            umask: Some(0o077),
            read_only: false,
            vfs_refresh: false,
            poll_interval_secs: None,
        }
    }
}

/// A configured mount.
#[derive(Debug, Clone, PartialEq, Eq)]
pub struct Mount {
    /// Internal id: the systemd unit / file key. Slug, validated, immutable.
    pub name: String,
    /// Freeform name shown in the UI. Defaults to `name` for data written
    /// before display names existed.
    pub display_name: String,
    /// Id of the source this mount uses.
    pub source: String,
    /// Path within the source's remote to mount instead of its root; empty
    /// mounts the whole remote.
    pub subpath: String,
    /// Where the remote is mounted.
    pub mountpoint: String,
    pub options: MountOptions,
    pub enabled: bool,
}

/// A mount as the specification sees it.
pub struct MountV {
    pub name: Seq<char>,
    pub display_name: Seq<char>,
    pub source: Seq<char>,
    pub subpath: Seq<char>,
    pub mountpoint: Seq<char>,
    pub options: MountOptions,
    pub enabled: bool,
}

impl View for Mount {
    type V = MountV;

    open spec fn view(&self) -> MountV {
        MountV {
            name: self.name@,
            display_name: self.display_name@,
            source: self.source@,
            subpath: self.subpath@,
            mountpoint: self.mountpoint@,
            options: self.options,
            enabled: self.enabled,
        }
    }
}

/// A mount as the UI describes it before it has an id-derived unit.
#[derive(Debug, Clone)]
pub struct MountDef {
    pub name: String,
    pub source: String,
    pub mountpoint: String,
    pub options: MountOptions,
}

/// A copy of a mount, field by field.
pub fn copy_mount(m: &Mount) -> (r: Mount)
    ensures
        r@ == m@,
{
    Mount {
        name: m.name.clone(),
        display_name: m.display_name.clone(),
        source: m.source.clone(),
        subpath: m.subpath.clone(),
        mountpoint: m.mountpoint.clone(),
        options: m.options,
        enabled: m.enabled,
    }
}

} // verus!
