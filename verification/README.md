# app-update

Keeping a desktop application up to date, and publishing its updates.

- `src/` decides. It is written in Verus: every function states what it returns, and all is
  proved but for the calls into other crates and the standard library. Their wrappers stand in
  `archive`, `checksum`, `text` and `version`, and are taken at their word. It never touches the
  file system, the network or another process; what is to be done there is asked for, and the
  answer handed back.
- `app/` acts. `app/main.rs` is the program that makes a release; `app/updater.rs` is the updater
  that an application embeds.
- `tests/` runs the library on concrete values, with the crates that it calls.

## The updater

`update` takes the course of an update: look for one, download its archive, verify the archive
against its SHA-256 checksum, install it. `version` orders versions as semantic versioning does,
through the `semver` crate. `checksum` reads checksums and computes digests, through `sha2`.
`archive` says what the entries of an archive become when it is extracted, through `zip`.
`payload` selects what an extracted archive brings; `install` and `restart` lead through
installing it and starting the application again.

## The release

`release_run` leads through a release: the version (`release`), the archives (`build_run` and
`bundle`), their signatures (`sign`) and the upload (`upload`). The single steps are those of
`script`, which stops at the first that fails. `release_course` states what a release comes to,
whatever the world outside is like.

`text`, `path` and `command` are what the others are written with. `path` reads paths as the
system at hand does, through `unix_path` or `windows_path`.
