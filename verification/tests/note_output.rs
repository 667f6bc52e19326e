use carnet::cli::OutputMode;
use carnet::note_output::{note_output, NoteOutputError};
use carnet::workspace::files::{load_from_read, DiskRead, FileError, LoadedNote};
use carnet::workspace::paths::NotePath;

fn note(relative: &str, bytes: &[u8]) -> Result<LoadedNote, FileError> {
    LoadedNote::decode(NotePath::new("/sandbox/notes".into(), relative.into()), bytes, None)
}

#[test]
fn path_mode_writes_the_absolute_existing_note_path_with_one_newline() {
    let loaded = note("nested/onboarding.md", b"hello").unwrap();
    let output = note_output("nested/onboarding.md", OutputMode::Path, "/sandbox/notes", &loaded).unwrap();
    assert_eq!(output, "/sandbox/notes/nested/onboarding.md\n");
}

#[test]
fn print_mode_writes_logical_text_without_adding_a_newline() {
    let loaded = note("onboarding.md", b"\xef\xbb\xbffirst\r\nsecond").unwrap();
    let output = note_output("onboarding.md", OutputMode::Print, "/sandbox/notes", &loaded).unwrap();
    assert_eq!(output.as_bytes(), b"first\nsecond");
}

#[test]
fn a_missing_note_fails_instead_of_emitting_a_prospective_reference() {
    let missing = load_from_read(
        NotePath::new("/sandbox/notes".into(), "missing.md".into()),
        DiskRead::Missing,
        None,
    )
    .unwrap();
    let error = note_output("missing.md", OutputMode::Path, "/sandbox/notes", &missing).unwrap_err();
    assert!(matches!(error, NoteOutputError::Missing { ref path } if path == "missing.md"));
    let error = note_output("missing.md", OutputMode::Print, "/sandbox/notes", &missing).unwrap_err();
    assert!(matches!(error, NoteOutputError::Missing { .. }));
}

#[test]
fn binary_and_invalid_utf8_notes_are_rejected() {
    assert!(matches!(note("binary.md", b"a\0b"), Err(FileError::Binary { .. })));
    assert!(matches!(note("invalid.md", &[0xff]), Err(FileError::InvalidUtf8 { .. })));
}
