//! Loaded notes: how a note's bytes become its text, how its text becomes
//! bytes again, and the file operations on a repository.
use vstd::prelude::*;
use vstd::utf8::*;

use sha2::{Digest, Sha256};

use super::paths::{joined_below, path_error_text, NotePath, PathError, PathErrorView};
use crate::text::{chars_of, concat, concat3, string_of};

verus! {

/// The SHA-256 digest of some bytes.
pub uninterp spec fn sha256_of(bytes: Seq<u8>) -> Seq<u8>;

/// `Sha256::digest` of the `sha2` crate: its result is the SHA-256 digest of
/// the bytes, a function of the bytes alone.
#[verifier::external_body]
fn sha256(bytes: &[u8]) -> (digest: [u8; 32])
    ensures
        digest@ == sha256_of(bytes@),
{
    Sha256::digest(bytes).into()
}

/// `std::str::from_utf8`, owned: gives the string whose UTF-8 encoding is the
/// bytes when they are valid UTF-8, and nothing otherwise.
#[verifier::external_body]
fn utf8_string(bytes: &[u8]) -> (text: Option<String>)
    ensures
        match text {
            Some(t) => valid_utf8(bytes@) && encode_utf8(t@) == bytes@,
            None => !valid_utf8(bytes@),
        },
{
    std::str::from_utf8(bytes).ok().map(|t| t.to_owned())
}

/// The line endings a note was stored with.
#[derive(Clone, Copy, PartialEq, Eq, Structural, Debug)]
pub enum NewlineStyle {
    Lf,
    CrLf,
}

/// A note as read from its repository, with what saving it back must keep.
#[derive(Debug)]
pub struct LoadedNote {
    pub(crate) path: NotePath,
    pub(crate) text: String,
    pub(crate) hash: Option<[u8; 32]>,
    pub(crate) has_bom: bool,
    pub(crate) newline_style: NewlineStyle,
    pub(crate) had_final_newline: bool,
    pub(crate) permissions: Option<u32>,
}

impl LoadedNote {
    /// The note's logical text (with `\n` line endings).
    pub closed spec fn text_view(&self) -> Seq<char> {
        self.text@
    }

    /// The hash of the bytes last read from disk; `None` for a note not yet saved.
    pub closed spec fn hash_view(&self) -> Option<[u8; 32]> {
        self.hash
    }

    /// The note's path.
    pub closed spec fn path_view(&self) -> NotePath {
        self.path
    }

    pub closed spec fn bom_view(&self) -> bool {
        self.has_bom
    }

    pub closed spec fn newline_view(&self) -> NewlineStyle {
        self.newline_style
    }

    pub closed spec fn final_newline_view(&self) -> bool {
        self.had_final_newline
    }

    pub closed spec fn permissions_view(&self) -> Option<u32> {
        self.permissions
    }

    pub fn path(&self) -> (path: &NotePath)
        ensures
            *path == self.path_view(),
    {
        &self.path
    }

    pub fn text(&self) -> (text: &str)
        ensures
            text@ == self.text_view(),
    {
        self.text.as_str()
    }

    pub fn content_hash(&self) -> (hash: Option<[u8; 32]>)
        ensures
            hash == self.hash_view(),
    {
        self.hash
    }

    pub fn has_bom(&self) -> (bom: bool)
        ensures
            bom == self.bom_view(),
    {
        self.has_bom
    }

    pub fn newline_style(&self) -> (style: NewlineStyle)
        ensures
            style == self.newline_view(),
    {
        self.newline_style
    }

    pub fn had_final_newline(&self) -> (had: bool)
        ensures
            had == self.final_newline_view(),
    {
        self.had_final_newline
    }

    /// A note is saved once it has been read from (or written to) disk.
    pub fn is_saved(&self) -> (saved: bool)
        ensures
            saved == self.hash_view() is Some,
    {
        self.hash.is_some()
    }
}

impl Clone for LoadedNote {
    fn clone(&self) -> (copy: Self)
        ensures
            copy.text_view() == self.text_view(),
            copy.hash_view() == self.hash_view(),
            copy.path_view().root_view() == self.path_view().root_view(),
            copy.path_view().relative_view() == self.path_view().relative_view(),
            copy.bom_view() == self.bom_view(),
            copy.newline_view() == self.newline_view(),
            copy.final_newline_view() == self.final_newline_view(),
            copy.permissions_view() == self.permissions_view(),
    {
        LoadedNote {
            path: self.path.clone(),
            text: self.text.clone(),
            hash: self.hash,
            has_bom: self.has_bom,
            newline_style: self.newline_style,
            had_final_newline: self.had_final_newline,
            permissions: self.permissions,
        }
    }
}

/// A change to a repository's files. Paths other than a note's are relative to
/// the repository root `root`.
#[derive(Debug)]
pub enum FileOperation {
    Save { note: LoadedNote, content: String, overwrite: bool },
    CreateFile { root: String, path: String },
    CreateFolder { root: String, path: String },
    Rename { root: String, from: String, to: String },
    Move { root: String, from: String, to: String },
    Delete { root: String, path: String, confirmed: bool },
}


/// What a file operation did.
#[derive(Debug)]
pub enum FileOutcome {
    Saved(LoadedNote),
    CreatedFile(NotePath),
    CreatedFolder(String),
    Renamed { from: String, to: String },
    Moved { from: String, to: String },
    Deleted(String),
}

/// Why a file operation failed.
#[derive(Debug, PartialEq, Eq)]
pub enum FileError {
    Path(PathError),
    Io { path: String, message: String },
    InvalidUtf8 { path: String },
    Binary { path: String },
    GitIgnore { message: String },
    ExternalModification { path: String },
    ExternalDeletion { path: String },
    AlreadyExists { path: String },
    Missing { path: String },
    ConfirmationRequired { path: String },
}

/// [`FileError`] as mathematical values.
pub enum FileErrorView {
    Path(PathErrorView),
    Io(Seq<char>, Seq<char>),
    InvalidUtf8(Seq<char>),
    Binary(Seq<char>),
    GitIgnore(Seq<char>),
    ExternalModification(Seq<char>),
    ExternalDeletion(Seq<char>),
    AlreadyExists(Seq<char>),
    Missing(Seq<char>),
    ConfirmationRequired(Seq<char>),
}

impl View for FileError {
    type V = FileErrorView;

    open spec fn view(&self) -> FileErrorView {
        match self {
            FileError::Path(e) => FileErrorView::Path(e@),
            FileError::Io { path, message } => FileErrorView::Io(path@, message@),
            FileError::InvalidUtf8 { path } => FileErrorView::InvalidUtf8(path@),
            FileError::Binary { path } => FileErrorView::Binary(path@),
            FileError::GitIgnore { message } => FileErrorView::GitIgnore(message@),
            FileError::ExternalModification { path } => FileErrorView::ExternalModification(path@),
            FileError::ExternalDeletion { path } => FileErrorView::ExternalDeletion(path@),
            FileError::AlreadyExists { path } => FileErrorView::AlreadyExists(path@),
            FileError::Missing { path } => FileErrorView::Missing(path@),
            FileError::ConfirmationRequired { path } => FileErrorView::ConfirmationRequired(path@),
        }
    }
}

/// What a [`FileError`] says.
pub open spec fn file_error_text(e: FileErrorView) -> Seq<char> {
    match e {
        FileErrorView::Path(p) => path_error_text(p),
        FileErrorView::Io(p, m) => "could not access file at "@ + p + ": "@ + m,
        FileErrorView::InvalidUtf8(p) => "file is not valid UTF-8: "@ + p,
        FileErrorView::Binary(p) => "file contains binary data: "@ + p,
        FileErrorView::GitIgnore(m) => "Git ignore check failed: "@ + m,
        FileErrorView::ExternalModification(p) => "note was modified outside Carnet: "@ + p,
        FileErrorView::ExternalDeletion(p) => "note was deleted outside Carnet: "@ + p,
        FileErrorView::AlreadyExists(p) => "path already exists: "@ + p,
        FileErrorView::Missing(p) => "path does not exist: "@ + p,
        FileErrorView::ConfirmationRequired(p) => "deletion requires confirmation: "@ + p,
    }
}

impl FileError {
    /// What the error says.
    pub fn message(&self) -> (text: String)
        ensures
            text@ == file_error_text(self@),
    {
        match self {
            FileError::Path(e) => e.message(),
            FileError::Io { path, message } => concat3(
                "could not access file at ",
                &concat(path.as_str(), ": "),
                message.as_str(),
            ),
            FileError::InvalidUtf8 { path } => concat("file is not valid UTF-8: ", path.as_str()),
            FileError::Binary { path } => concat("file contains binary data: ", path.as_str()),
            FileError::GitIgnore { message } => concat("Git ignore check failed: ", message.as_str()),
            FileError::ExternalModification { path } => concat(
                "note was modified outside Carnet: ",
                path.as_str(),
            ),
            FileError::ExternalDeletion { path } => concat(
                "note was deleted outside Carnet: ",
                path.as_str(),
            ),
            FileError::AlreadyExists { path } => concat("path already exists: ", path.as_str()),
            FileError::Missing { path } => concat("path does not exist: ", path.as_str()),
            FileError::ConfirmationRequired { path } => concat(
                "deletion requires confirmation: ",
                path.as_str(),
            ),
        }
    }
}

/// The UTF-8 byte order mark.
pub open spec fn utf8_bom() -> Seq<u8> {
    seq![0xEFu8, 0xBBu8, 0xBFu8]
}

/// The bytes start with the UTF-8 byte order mark.
pub open spec fn starts_with_bom(b: Seq<u8>) -> bool {
    b.len() >= 3 && b[0] == 0xEF && b[1] == 0xBB && b[2] == 0xBF
}

/// The bytes without a leading byte order mark.
pub open spec fn without_bom(b: Seq<u8>) -> Seq<u8> {
    if starts_with_bom(b) {
        b.skip(3)
    } else {
        b
    }
}

/// Some byte is zero.
pub open spec fn has_zero_byte(b: Seq<u8>) -> bool {
    exists|i: int| 0 <= i < b.len() && b[i] == 0
}

/// Bytes that a note may hold: no zero byte, and UTF-8 after a byte order mark.
pub open spec fn is_text(b: Seq<u8>) -> bool {
    !has_zero_byte(b) && valid_utf8(without_bom(b))
}

/// The text holds a `\r\n`.
pub open spec fn has_crlf(s: Seq<char>) -> bool {
    exists|i: int| 0 <= i && i + 1 < s.len() && #[trigger] s[i] == '\r' && s[i + 1] == '\n'
}

/// Each `\r\n` replaced by `\n`, from left to right.
pub open spec fn crlf_to_lf(s: Seq<char>) -> Seq<char>
    decreases s.len(),
{
    if s.len() == 0 {
        s
    } else if s.len() >= 2 && s[0] == '\r' && s[1] == '\n' {
        seq!['\n'] + crlf_to_lf(s.skip(2))
    } else {
        seq![s[0]] + crlf_to_lf(s.skip(1))
    }
}

/// Each `\n` replaced by `\r\n`.
pub open spec fn lf_to_crlf(s: Seq<char>) -> Seq<char>
    decreases s.len(),
{
    if s.len() == 0 {
        s
    } else if s[0] == '\n' {
        seq!['\r', '\n'] + lf_to_crlf(s.skip(1))
    } else {
        seq![s[0]] + lf_to_crlf(s.skip(1))
    }
}

/// The text ends with `\n`.
pub open spec fn ends_with_newline(s: Seq<char>) -> bool {
    s.len() > 0 && s.last() == '\n'
}

/// The text without its trailing `\n`s.
pub open spec fn without_final_newlines(s: Seq<char>) -> Seq<char>
    decreases s.len(),
{
    if ends_with_newline(s) {
        without_final_newlines(s.drop_last())
    } else {
        s
    }
}

/// What a note's bytes hold.
pub struct DecodedView {
    pub text: Seq<char>,
    pub has_bom: bool,
    pub newline_style: NewlineStyle,
    pub had_final_newline: bool,
}

/// Why bytes are not a note's text.
#[derive(PartialEq, Eq, Structural)]
pub enum DecodeFailure {
    Binary,
    InvalidUtf8,
}

/// A note's bytes read as text: refused when a byte is zero or when they are
/// not UTF-8 after an optional byte order mark; a text with any `\r\n` is kept
/// with `\n` line endings and remembered as `\r\n`-style.
pub open spec fn decoded(b: Seq<u8>) -> Result<DecodedView, DecodeFailure> {
    if has_zero_byte(b) {
        Err(DecodeFailure::Binary)
    } else if !valid_utf8(without_bom(b)) {
        Err(DecodeFailure::InvalidUtf8)
    } else {
        let d = decode_utf8(without_bom(b));
        let crlf = has_crlf(d);
        Ok(
            DecodedView {
                text: if crlf { crlf_to_lf(d) } else { d },
                has_bom: starts_with_bom(b),
                newline_style: if crlf { NewlineStyle::CrLf } else { NewlineStyle::Lf },
                had_final_newline: ends_with_newline(d),
            },
        )
    }
}

/// The text that saving `content` writes (before line endings are converted):
/// `\r\n` becomes `\n`; for a note that was saved before, a final newline is
/// added or all final newlines are removed, as the note had them.
pub open spec fn adjusted_text(saved: bool, final_newline: bool, content: Seq<char>) -> Seq<char> {
    let n = crlf_to_lf(content);
    if saved {
        if final_newline {
            if ends_with_newline(n) {
                n
            } else {
                n.push('\n')
            }
        } else {
            without_final_newlines(n)
        }
    } else {
        n
    }
}

/// The bytes that saving `content` over a note writes: the adjusted text in
/// the note's line endings, encoded as UTF-8, after the note's byte order mark.
pub open spec fn encoded(
    saved: bool,
    final_newline: bool,
    style: NewlineStyle,
    bom: bool,
    content: Seq<char>,
) -> Seq<u8> {
    let a = adjusted_text(saved, final_newline, content);
    let e = match style {
        NewlineStyle::Lf => a,
        NewlineStyle::CrLf => lf_to_crlf(a),
    };
    (if bom { utf8_bom() } else { Seq::empty() }) + encode_utf8(e)
}

/// Whether some byte is zero.
fn contains_zero(bytes: &[u8]) -> (found: bool)
    ensures
        found == has_zero_byte(bytes@),
{
    let mut i: usize = 0;
    while i < bytes.len()
        invariant
            i <= bytes@.len(),
            forall|k: int| 0 <= k < i ==> bytes@[k] != 0,
        decreases bytes@.len() - i,
    {
        if bytes[i] == 0 {
            return true;
        }
        i = i + 1;
    }
    false
}

/// Whether the bytes start with the byte order mark.
fn has_bom_prefix(bytes: &[u8]) -> (found: bool)
    ensures
        found == starts_with_bom(bytes@),
{
    bytes.len() >= 3 && bytes[0] == 0xEF && bytes[1] == 0xBB && bytes[2] == 0xBF
}

/// The bytes after a leading byte order mark.
fn payload_of(bytes: &[u8]) -> (payload: Vec<u8>)
    ensures
        payload@ == without_bom(bytes@),
{
    let start: usize = if has_bom_prefix(bytes) { 3 } else { 0 };
    let mut out: Vec<u8> = Vec::new();
    let mut i: usize = start;
    while i < bytes.len()
        invariant
            start <= i <= bytes@.len(),
            out@ == bytes@.subrange(start as int, i as int),
        decreases bytes@.len() - i,
    {
        out.push(bytes[i]);
        i = i + 1;
        assert(out@ =~= bytes@.subrange(start as int, i as int));
    }
    assert(bytes@.subrange(start as int, bytes@.len() as int) =~= without_bom(bytes@));
    out
}

/// Bytes are a note's text: no zero byte, and UTF-8 after a byte order mark.
pub fn bytes_are_text(bytes: &[u8]) -> (text: bool)
    ensures
        text == is_text(bytes@),
{
    if contains_zero(bytes) {
        return false;
    }
    let payload = payload_of(bytes);
    utf8_string(payload.as_slice()).is_some()
}

/// Whether the text holds a `\r\n`.
fn contains_crlf(s: &Vec<char>) -> (found: bool)
    ensures
        found == has_crlf(s@),
{
    let n = s.len();
    if n < 2 {
        return false;
    }
    let mut i: usize = 0;
    while i + 1 < n
        invariant
            n == s@.len(),
            n >= 2,
            i + 1 <= n,
            forall|k: int| 0 <= k < i ==> !(#[trigger] s@[k] == '\r' && s@[k + 1] == '\n'),
        decreases n - i,
    {
        if s[i] == '\r' && s[i + 1] == '\n' {
            return true;
        }
        i = i + 1;
    }
    false
}

/// `crlf_to_lf` in code.
fn crlf_to_lf_chars(s: &Vec<char>) -> (out: Vec<char>)
    ensures
        out@ == crlf_to_lf(s@),
{
    let n = s.len();
    let mut out: Vec<char> = Vec::new();
    let mut i: usize = 0;
    assert(s@.skip(0) =~= s@);
    while i < n
        invariant
            n == s@.len(),
            i <= n,
            out@ + crlf_to_lf(s@.skip(i as int)) == crlf_to_lf(s@),
        decreases n - i,
    {
        let ghost rest = s@.skip(i as int);
        if i + 1 < n && s[i] == '\r' && s[i + 1] == '\n' {
            out.push('\n');
            assert(rest.skip(2) =~= s@.skip(i + 2));
            i = i + 2;
        } else {
            out.push(s[i]);
            assert(rest.skip(1) =~= s@.skip(i + 1));
            i = i + 1;
        }
        assert(out@ + crlf_to_lf(s@.skip(i as int)) =~= crlf_to_lf(s@));
    }
    assert(s@.skip(i as int) =~= Seq::<char>::empty());
    assert(out@ + Seq::<char>::empty() =~= out@);
    out
}

/// `lf_to_crlf` in code.
fn lf_to_crlf_chars(s: &Vec<char>) -> (out: Vec<char>)
    ensures
        out@ == lf_to_crlf(s@),
{
    let n = s.len();
    let mut out: Vec<char> = Vec::new();
    let mut i: usize = 0;
    assert(s@.skip(0) =~= s@);
    while i < n
        invariant
            n == s@.len(),
            i <= n,
            out@ + lf_to_crlf(s@.skip(i as int)) == lf_to_crlf(s@),
        decreases n - i,
    {
        let ghost rest = s@.skip(i as int);
        assert(rest.skip(1) =~= s@.skip(i + 1));
        if s[i] == '\n' {
            out.push('\r');
            out.push('\n');
        } else {
            out.push(s[i]);
        }
        i = i + 1;
        assert(out@ + lf_to_crlf(s@.skip(i as int)) =~= lf_to_crlf(s@));
    }
    assert(s@.skip(i as int) =~= Seq::<char>::empty());
    assert(out@ + Seq::<char>::empty() =~= out@);
    out
}

impl LoadedNote {
    /// A note that does not exist yet: empty, unsaved, `\n`-style, without a
    /// byte order mark or a final newline.
    pub fn unsaved(path: NotePath) -> (note: LoadedNote)
        ensures
            note.path_view() == path,
            note.text_view() == Seq::<char>::empty(),
            note.hash_view() is None,
            !note.bom_view(),
            note.newline_view() == NewlineStyle::Lf,
            !note.final_newline_view(),
            note.permissions_view() is None,
    {
        LoadedNote {
            path,
            text: String::new(),
            hash: None,
            has_bom: false,
            newline_style: NewlineStyle::Lf,
            had_final_newline: false,
            permissions: None,
        }
    }

    /// A note read from `bytes`, the contents of the file at `path`, whose
    /// permission bits are `permissions`.
    pub fn decode(path: NotePath, bytes: &[u8], permissions: Option<u32>) -> (result: Result<
        LoadedNote,
        FileError,
    >)
        ensures
            match result {
                Ok(note) => {
                    &&& decoded(bytes@) == Ok::<DecodedView, DecodeFailure>(
                        DecodedView {
                            text: note.text_view(),
                            has_bom: note.bom_view(),
                            newline_style: note.newline_view(),
                            had_final_newline: note.final_newline_view(),
                        },
                    )
                    &&& note.hash_view() matches Some(h) && h@ == sha256_of(bytes@)
                    &&& note.path_view() == path
                    &&& note.permissions_view() == permissions
                },
                Err(e) => {
                    let absolute = joined_below(path.root_view(), path.relative_view());
                    ||| decoded(bytes@) == Err::<DecodedView, DecodeFailure>(DecodeFailure::Binary)
                        && e@ == FileErrorView::Binary(absolute)
                    ||| decoded(bytes@) == Err::<DecodedView, DecodeFailure>(
                        DecodeFailure::InvalidUtf8,
                    ) && e@ == FileErrorView::InvalidUtf8(absolute)
                },
            },
    {
        if contains_zero(bytes) {
            return Err(FileError::Binary { path: path.absolute() });
        }
        let hash = sha256(bytes);
        let has_bom = has_bom_prefix(bytes);
        let payload = payload_of(bytes);
        let decoded_text = match utf8_string(payload.as_slice()) {
            Some(t) => t,
            None => {
                return Err(FileError::InvalidUtf8 { path: path.absolute() });
            },
        };
        proof {
            broadcast use encode_utf8_decode_utf8;

            assert(decode_utf8(without_bom(bytes@)) == decoded_text@);
        }
        let d = chars_of(decoded_text.as_str());
        let crlf = contains_crlf(&d);
        let n = d.len();
        let had_final_newline = n > 0 && d[n - 1] == '\n';
        let text = if crlf {
            let t = crlf_to_lf_chars(&d);
            string_of(t.as_slice())
        } else {
            decoded_text
        };
        let newline_style = if crlf { NewlineStyle::CrLf } else { NewlineStyle::Lf };
        Ok(
            LoadedNote {
                path,
                text,
                hash: Some(hash),
                has_bom,
                newline_style,
                had_final_newline,
                permissions,
            },
        )
    }

    /// The bytes that saving `content` over this note writes (see [`encoded`]).
    pub fn encode(&self, content: &str) -> (bytes: Vec<u8>)
        ensures
            bytes@ == encoded(
                self.hash_view() is Some,
                self.final_newline_view(),
                self.newline_view(),
                self.bom_view(),
                content@,
            ),
    {
        let chars = chars_of(content);
        let mut normal = crlf_to_lf_chars(&chars);
        if self.hash.is_some() {
            if self.had_final_newline {
                let n = normal.len();
                if !(n > 0 && normal[n - 1] == '\n') {
                    normal.push('\n');
                }
            } else {
                while normal.len() > 0 && normal[normal.len() - 1] == '\n'
                    invariant
                        without_final_newlines(normal@) == without_final_newlines(
                            crlf_to_lf(content@),
                        ),
                    decreases normal@.len(),
                {
                    let ghost before = normal@;
                    normal.pop();
                    assert(normal@ =~= before.drop_last());
                }
            }
        }
        let ghost a = normal@;
        assert(a == adjusted_text(self.hash_view() is Some, self.final_newline_view(), content@));
        let lines = match self.newline_style {
            NewlineStyle::Lf => normal,
            NewlineStyle::CrLf => lf_to_crlf_chars(&normal),
        };
        let text = string_of(lines.as_slice());
        let text_bytes = text.as_str().as_bytes();
        let mut out: Vec<u8> = Vec::new();
        if self.has_bom {
            out.push(0xEF);
            out.push(0xBB);
            out.push(0xBF);
        }
        let ghost prefix = out@;
        assert(prefix =~= (if self.has_bom { utf8_bom() } else { Seq::empty() }));
        let mut i: usize = 0;
        while i < text_bytes.len()
            invariant
                i <= text_bytes@.len(),
                out@ == prefix + text_bytes@.take(i as int),
            decreases text_bytes@.len() - i,
        {
            out.push(text_bytes[i]);
            i = i + 1;
            assert(out@ =~= prefix + text_bytes@.take(i as int));
        }
        assert(text_bytes@.take(text_bytes@.len() as int) =~= text_bytes@);
        out
    }
}

/// What reading a file gave.
#[derive(Debug)]
pub enum DiskRead {
    /// No file is there.
    Missing,
    /// The file's bytes.
    Bytes(Vec<u8>),
    /// Reading failed with this message.
    Failed(String),
}

/// Whether two digests are equal.
fn same_digest(a: &[u8; 32], b: &[u8; 32]) -> (same: bool)
    ensures
        same == (a@ == b@),
{
    let mut i: usize = 0;
    while i < 32
        invariant
            i <= 32,
            a@.len() == 32,
            b@.len() == 32,
            forall|k: int| 0 <= k < i ==> a@[k] == b@[k],
        decreases 32 - i,
    {
        if a[i] != b[i] {
            return false;
        }
        i = i + 1;
    }
    assert(a@ =~= b@);
    true
}

/// Checks that the file at `target` still holds what the note was loaded
/// from: a saved note must still exist with the same digest, an unsaved one
/// must still be missing.
pub fn verify_unchanged(note: &LoadedNote, target: &str, current: &DiskRead) -> (result: Result<
    (),
    FileError,
>)
    ensures
        match current {
            DiskRead::Missing => match note.hash_view() {
                Some(_) => result matches Err(e) && e@ == FileErrorView::ExternalDeletion(
                    note.path_view().relative_view(),
                ),
                None => result is Ok,
            },
            DiskRead::Bytes(b) => match note.hash_view() {
                Some(h) => if h@ == sha256_of(b@) {
                    result is Ok
                } else {
                    result matches Err(e) && e@ == FileErrorView::ExternalModification(
                        note.path_view().relative_view(),
                    )
                },
                None => result matches Err(e) && e@ == FileErrorView::ExternalModification(
                    note.path_view().relative_view(),
                ),
            },
            DiskRead::Failed(m) => result matches Err(e) && e@ == FileErrorView::Io(target@, m@),
        },
{
    match current {
        DiskRead::Missing => match note.hash {
            Some(_) => Err(FileError::ExternalDeletion { path: note.path.relative().to_owned() }),
            None => Ok(()),
        },
        DiskRead::Bytes(bytes) => match &note.hash {
            Some(expected) => {
                let actual = sha256(bytes.as_slice());
                if same_digest(expected, &actual) {
                    Ok(())
                } else {
                    Err(FileError::ExternalModification { path: note.path.relative().to_owned() })
                }
            },
            None => Err(FileError::ExternalModification { path: note.path.relative().to_owned() }),
        },
        DiskRead::Failed(message) => Err(
            FileError::Io { path: target.to_owned(), message: message.clone() },
        ),
    }
}

/// A note from what reading its file gave: a missing file is an unsaved
/// empty note, bytes are decoded, and a failed read is an error at the note's
/// absolute path.
pub fn load_from_read(path: NotePath, read: DiskRead, permissions: Option<u32>) -> (result:
    Result<LoadedNote, FileError>)
    ensures
        match read {
            DiskRead::Missing => result matches Ok(note) && note.path_view() == path
                && note.text_view() == Seq::<char>::empty() && note.hash_view() is None
                && !note.bom_view() && note.newline_view() == NewlineStyle::Lf
                && !note.final_newline_view() && note.permissions_view() is None,
            DiskRead::Bytes(b) => match result {
                Ok(note) => {
                    &&& decoded(b@) == Ok::<DecodedView, DecodeFailure>(
                        DecodedView {
                            text: note.text_view(),
                            has_bom: note.bom_view(),
                            newline_style: note.newline_view(),
                            had_final_newline: note.final_newline_view(),
                        },
                    )
                    &&& note.hash_view() matches Some(h) && h@ == sha256_of(b@)
                    &&& note.path_view() == path
                    &&& note.permissions_view() == permissions
                },
                Err(e) => {
                    let absolute = joined_below(path.root_view(), path.relative_view());
                    ||| decoded(b@) == Err::<DecodedView, DecodeFailure>(DecodeFailure::Binary)
                        && e@ == FileErrorView::Binary(absolute)
                    ||| decoded(b@) == Err::<DecodedView, DecodeFailure>(DecodeFailure::InvalidUtf8)
                        && e@ == FileErrorView::InvalidUtf8(absolute)
                },
            },
            DiskRead::Failed(m) => result matches Err(e) && e@ == FileErrorView::Io(
                joined_below(path.root_view(), path.relative_view()),
                m@,
            ),
        },
{
    match read {
        DiskRead::Missing => Ok(LoadedNote::unsaved(path)),
        DiskRead::Bytes(bytes) => LoadedNote::decode(path, bytes.as_slice(), permissions),
        DiskRead::Failed(message) => Err(FileError::Io { path: path.absolute(), message }),
    }
}

/// The bytes to write for saving `content` over `note`, given what its file
/// holds now: unless overwriting, the file must still hold what the note was
/// loaded from.
pub fn plan_save(note: &LoadedNote, content: &str, overwrite: bool, current: &DiskRead) -> (result:
    Result<Vec<u8>, FileError>)
    ensures
        match result {
            Ok(bytes) => bytes@ == encoded(
                note.hash_view() is Some,
                note.final_newline_view(),
                note.newline_view(),
                note.bom_view(),
                content@,
            ) && (!overwrite ==> match current {
                DiskRead::Missing => note.hash_view() is None,
                DiskRead::Bytes(b) => note.hash_view() matches Some(h) && h@ == sha256_of(b@),
                DiskRead::Failed(_) => false,
            }),
            Err(e) => !overwrite && match current {
                DiskRead::Missing => note.hash_view() is Some && e@
                    == FileErrorView::ExternalDeletion(note.path_view().relative_view()),
                DiskRead::Bytes(b) => !(note.hash_view() matches Some(h) && h@ == sha256_of(b@))
                    && e@ == FileErrorView::ExternalModification(
                    note.path_view().relative_view(),
                ),
                DiskRead::Failed(m) => e@ == FileErrorView::Io(
                    joined_below(note.path_view().root_view(), note.path_view().relative_view()),
                    m@,
                ),
            },
        },
{
    if !overwrite {
        let target = note.path.absolute();
        match verify_unchanged(note, target.as_str(), current) {
            Ok(()) => {},
            Err(e) => {
                return Err(e);
            },
        }
    }
    Ok(note.encode(content))
}

/// Creating a file or a folder needs its target to be free.
pub fn check_create(relative: &str, exists: bool) -> (result: Result<(), FileError>)
    ensures
        exists <==> result is Err,
        result matches Err(e) ==> e@ == FileErrorView::AlreadyExists(relative@),
{
    if exists {
        Err(FileError::AlreadyExists { path: relative.to_owned() })
    } else {
        Ok(())
    }
}

/// Renaming or moving needs its source to exist and its destination to be free.
pub fn check_relocate(
    source: &str,
    source_exists: bool,
    destination: &str,
    destination_exists: bool,
) -> (result: Result<(), FileError>)
    ensures
        result is Ok <==> source_exists && !destination_exists,
        !source_exists ==> (result matches Err(e) && e@ == FileErrorView::Missing(source@)),
        source_exists && destination_exists ==> (result matches Err(e) && e@
            == FileErrorView::AlreadyExists(destination@)),
{
    if !source_exists {
        Err(FileError::Missing { path: source.to_owned() })
    } else if destination_exists {
        Err(FileError::AlreadyExists { path: destination.to_owned() })
    } else {
        Ok(())
    }
}

/// Deleting needs confirmation, and then its target to exist.
pub fn check_delete(requested: &str, confirmed: bool, relative: &str, exists: bool) -> (result:
    Result<(), FileError>)
    ensures
        result is Ok <==> confirmed && exists,
        !confirmed ==> (result matches Err(e) && e@ == FileErrorView::ConfirmationRequired(
            requested@,
        )),
        confirmed && !exists ==> (result matches Err(e) && e@ == FileErrorView::Missing(relative@)),
{
    if !confirmed {
        Err(FileError::ConfirmationRequired { path: requested.to_owned() })
    } else if !exists {
        Err(FileError::Missing { path: relative.to_owned() })
    } else {
        Ok(())
    }
}
} // verus!
