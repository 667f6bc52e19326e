//! The clipboard boundary of the editor.
use vstd::prelude::*;

verus! {

/// The clipboard cannot be reached.
#[derive(Debug, PartialEq, Eq)]
pub enum ClipboardError {
    Unavailable,
}

/// A clipboard that the editor copies to and pastes from.
pub trait Clipboard {
    fn read_text(&mut self) -> Result<String, ClipboardError>;

    fn write_text(&mut self, text: &str) -> Result<(), ClipboardError>;
}

/// A clipboard that keeps the last text it was given, and reads from and
/// writes to a primary clipboard when there is one.
pub struct FallbackClipboard {
    primary: Option<Box<dyn Clipboard>>,
    local: String,
}

impl FallbackClipboard {
    /// The text kept in the process: the last text written or read.
    pub closed spec fn local_view(&self) -> Seq<char> {
        self.local@
    }

    /// There is a primary clipboard.
    pub closed spec fn has_primary(&self) -> bool {
        self.primary is Some
    }

    pub fn new(primary: Option<Box<dyn Clipboard>>) -> (clipboard: Self)
        ensures
            clipboard.local_view() == Seq::<char>::empty(),
            clipboard.has_primary() == primary is Some,
    {
        FallbackClipboard { primary, local: String::new() }
    }

    /// Reads the primary clipboard, keeping what it gave; falls back to the kept
    /// text when there is no primary clipboard or it fails.
    pub fn read_text(&mut self) -> (text: String)
        ensures
            text@ == final(self).local_view(),
            final(self).has_primary() == old(self).has_primary(),
            !old(self).has_primary() ==> final(self).local_view() == old(self).local_view(),
    {
        match &mut self.primary {
            Some(primary) => match primary.read_text() {
                Ok(text) => {
                    self.local = text.clone();
                    text
                },
                Err(_) => self.local.clone(),
            },
            None => self.local.clone(),
        }
    }

    /// Keeps `text` and writes it to the primary clipboard, if any; a failure of
    /// the primary clipboard is ignored.
    pub fn write_text(&mut self, text: &str)
        ensures
            final(self).local_view() == text@,
            final(self).has_primary() == old(self).has_primary(),
    {
        self.local = text.to_owned();
        match &mut self.primary {
            Some(primary) => {
                let _ = primary.write_text(text);
            },
            None => {},
        }
    }
}

} // verus!
