use app_update::archive::{entry_step, extract_zip, ArchiveEntry, ExtractStep};
use app_update::UpdateError;
use std::io::{Cursor, Write};
use zip::write::SimpleFileOptions;
use zip::ZipWriter;

/// A ZIP archive with these entries; a name that ends in a slash is a directory.
fn archive(entries: &[(&str, u32)]) -> Vec<u8> {
    let mut writer = ZipWriter::new(Cursor::new(Vec::new()));
    for (name, mode) in entries {
        let options = SimpleFileOptions::default().unix_permissions(*mode);
        if name.ends_with('/') {
            writer.add_directory(*name, options).unwrap();
        } else {
            writer.start_file(*name, options).unwrap();
            writer.write_all(b"contents").unwrap();
        }
    }
    writer.finish().unwrap().into_inner()
}

fn steps(entries: &[(&str, u32)]) -> Vec<ExtractStep<String>> {
    extract_zip(archive(entries))
}

#[test]
fn entries_become_directories_and_files() {
    let steps = steps(&[("App.app/", 0o755), ("App.app/run", 0o755), ("notes.txt", 0o644)]);
    assert_eq!(steps.len(), 3);
    assert!(matches!(&steps[0], ExtractStep::CreateDir { path } if path == "App.app/"));
    match &steps[1] {
        ExtractStep::CreateFile { index, path, unix_mode } => {
            assert_eq!((*index, path.as_str()), (1, "App.app/run"));
            assert_eq!(unix_mode.unwrap() & 0o777, 0o755);
        }
        _ => panic!("not a file"),
    }
    match &steps[2] {
        ExtractStep::CreateFile { index, path, unix_mode } => {
            assert_eq!((*index, path.as_str()), (2, "notes.txt"));
            assert_eq!(unix_mode.unwrap() & 0o777, 0o644);
        }
        _ => panic!("not a file"),
    }
}

#[test]
fn an_entry_that_leaves_the_directory_ends_the_extraction() {
    let steps = steps(&[("a.txt", 0o644), ("x/../../b.txt", 0o644), ("c.txt", 0o644)]);
    assert_eq!(steps.len(), 2);
    assert!(matches!(&steps[0], ExtractStep::CreateFile { .. }));
    match &steps[1] {
        ExtractStep::Fail(UpdateError::UnsafeArchivePath(name)) => {
            assert_eq!(name, "x/../../b.txt");
        }
        _ => panic!("not refused"),
    }
}

#[test]
fn names_that_stay_inside_are_taken() {
    let steps = steps(&[("x/../y", 0o644), ("./z", 0o644), ("a//b", 0o644)]);
    assert_eq!(steps.len(), 3);
    assert!(steps.iter().all(|step| matches!(step, ExtractStep::CreateFile { .. })));
}

#[test]
fn a_colon_opens_no_way_out() {
    for name in ["x:/../../evil", "a:b/../../evil", "C:/../..", "..:/../../evil"] {
        let steps = steps(&[(name, 0o644)]);
        assert_eq!(steps.len(), 1);
        assert!(matches!(
            &steps[0],
            ExtractStep::Fail(UpdateError::UnsafeArchivePath(refused)) if refused == name
        ));
    }
    let steps = steps(&[("a/b:c", 0o644), ("ab:c/../d", 0o644)]);
    assert_eq!(steps.len(), 2);
    assert!(matches!(&steps[0], ExtractStep::CreateFile { path, .. } if path == "a/b:c"));
    assert!(matches!(&steps[1], ExtractStep::CreateFile { path, .. } if path == "ab:c/../d"));
}

#[test]
fn a_backslash_opens_no_way_out() {
    for name in ["../a\\b", "x\\y/../../../evil", "/a\\b"] {
        let steps = steps(&[(name, 0o644)]);
        assert!(matches!(
            &steps[0],
            ExtractStep::Fail(UpdateError::UnsafeArchivePath(refused)) if refused == name
        ));
    }
    let steps = steps(&[("a\\b/c", 0o644)]);
    assert!(matches!(&steps[0], ExtractStep::CreateFile { path, .. } if path == "a\\b/c"));
}

#[test]
fn an_absolute_name_is_refused() {
    let steps = steps(&[("/etc/motd", 0o644)]);
    assert!(matches!(&steps[0], ExtractStep::Fail(UpdateError::UnsafeArchivePath(_))));
}

#[test]
fn what_is_no_archive_is_a_zip_error() {
    let steps: Vec<ExtractStep<String>> = extract_zip(b"no archive".to_vec());
    assert_eq!(steps.len(), 1);
    assert!(matches!(&steps[0], ExtractStep::Fail(UpdateError::Zip(_))));
}

#[test]
fn an_entry_that_cannot_be_read_is_a_zip_error() {
    let mut bytes = archive(&[("first.txt", 0o644), ("second.txt", 0o644)]);
    // The local header of the second entry loses its signature.
    let signature = [0x50, 0x4b, 0x03, 0x04];
    let at = bytes.windows(4).rposition(|window| window == signature).unwrap();
    bytes[at] = 0;
    let steps: Vec<ExtractStep<String>> = extract_zip(bytes);
    assert_eq!(steps.len(), 2);
    assert!(matches!(&steps[0], ExtractStep::CreateFile { .. }));
    assert!(matches!(&steps[1], ExtractStep::Fail(UpdateError::Zip(_))));
}

#[test]
fn an_empty_archive_has_no_steps() {
    assert!(steps(&[]).is_empty());
}

#[test]
fn an_entry_is_judged_by_what_it_says() {
    let entry = |name: &str, enclosed: Option<&str>| ArchiveEntry {
        name: name.to_string(),
        enclosed_name: enclosed.map(|name| name.to_string()),
        unix_mode: Some(0o600),
    };
    let step: ExtractStep<String> = entry_step(4, entry("dir/", Some("dir/")));
    assert!(matches!(step, ExtractStep::CreateDir { path } if path == "dir/"));
    let step: ExtractStep<String> = entry_step(5, entry("f", Some("f")));
    assert!(matches!(
        step,
        ExtractStep::CreateFile { index: 5, path, unix_mode: Some(0o600) } if path == "f"
    ));
    let step: ExtractStep<String> = entry_step(6, entry("..", None));
    assert!(matches!(
        step,
        ExtractStep::Fail(UpdateError::UnsafeArchivePath(name)) if name == ".."
    ));
}
