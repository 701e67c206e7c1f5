# rclone_mounts_core

The core of a small tool that manages rclone mounts as systemd units, for
one user or for the whole system: remotes ("sources") kept in an
rclone-style `sources.conf`, their secrets in encrypted credentials, and
mounts rendered as `rclone mount` service units (`unit_writer`) and
switched on or off through systemd.

The library in `src/` is verified with Verus. Its parts:

- `rclone_config`, `text_laws`, `config_laws`: the round-trip-preserving
  reader and writer of the INI-shaped configuration, with the laws that
  rendering a parse gives back the input byte for byte, that a key reads
  back what was set, and that setting a key or removing a section leaves
  the other keys' values alone. Edits refuse control characters.
- `backend`, `blob_laws`, `source_laws`: the state of sources and mounts,
  folding a changeset onto it, reference checks, credential blobs and the
  settings of a local backend.
- `controller`: the settings module's model of pending edits, fresh ids,
  the decisions of the sign-in wizard and the Drive client precedence.
- `unit_writer`: the text of a mount's service unit.
- `naming`, `store`, `source_schema`, `backend_features`,
  `rclone_config_driver`, `credentials`, `rclone_cli`, `oauth_credentials`:
  ids and names, unit paths, per-kind option schemas, and the arguments and
  outcomes of the `rclone` and `systemd-creds` calls.
- `settings_json`: the settings UI's JSON objects of strings, decoded
  through `serde_json`.
- `section_laws`, `schema_laws`, `override_laws`, `blob_parse_laws`: laws on
  the section list, the kind schemas, stored admin overrides and credential
  blobs.
- `str_map`: a sorted string-keyed map with its laws.

`app/` holds what cannot be verified: the privileged D-Bus helper, file and
bus I/O, the subprocess calls, and the serde forms of the library's types.
`tests/` runs the library on concrete cases.
