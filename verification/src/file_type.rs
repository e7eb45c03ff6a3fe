//! Classification of a single path's on-disk nature at observation time.
//!
//! The observations themselves (following a link, testing for a directory,
//! reading bytes as UTF-8 text) are filesystem reads made by the caller; this
//! module fixes how those raw observations combine into one `FileType`, and
//! in particular that link-ness takes priority over the dereferenced kind.

use vstd::prelude::*;

verus! {

/// The nature of a path at the moment it was observed.
#[derive(Debug, Clone, PartialEq)]
pub enum FileType {
    /// A regular file; `None` when its bytes are not valid UTF-8 text.
    File(Option<String>),
    /// A symbolic link, carrying the path the link points at.
    SymbolicLink(String),
    Directory,
    Missing,
}

/// What reading a path as UTF-8 text yielded.
#[derive(Debug, Clone, PartialEq)]
pub enum ReadOutcome {
    /// The path held valid UTF-8 text.
    Utf8(String),
    /// The path exists but its bytes are not valid UTF-8.
    NotUtf8,
    /// Nothing exists at the path.
    NotFound,
}

/// How raw observations of a path combine into a `FileType`: a link is
/// reported as a link whatever it points at, a directory is reported before
/// any attempt to treat the path as text, and only then does the text read
/// decide between a readable file, a binary file, and a missing path.
pub open spec fn spec_classify(
    link_target: Option<String>,
    is_dir: bool,
    read: ReadOutcome,
) -> FileType {
    if link_target is Some {
        FileType::SymbolicLink(link_target->0)
    } else if is_dir {
        FileType::Directory
    } else {
        match read {
            ReadOutcome::Utf8(text) => FileType::File(Some(text)),
            ReadOutcome::NotUtf8 => FileType::File(None),
            ReadOutcome::NotFound => FileType::Missing,
        }
    }
}

impl FileType {
    /// Combine the raw observations of one path into its classification.
    ///
    /// `link_target` is the destination read from the path when it is a
    /// symbolic link, `is_dir` whether the path (after following links) is a
    /// directory, and `read` the outcome of reading the path as UTF-8 text.
    pub fn classify(link_target: Option<String>, is_dir: bool, read: ReadOutcome) -> (r: FileType)
        ensures
            r == spec_classify(link_target, is_dir, read),
    {
        match link_target {
            Some(target) => FileType::SymbolicLink(target),
            None => {
                if is_dir {
                    FileType::Directory
                } else {
                    match read {
                        ReadOutcome::Utf8(text) => FileType::File(Some(text)),
                        ReadOutcome::NotUtf8 => FileType::File(None),
                        ReadOutcome::NotFound => FileType::Missing,
                    }
                }
            },
        }
    }

    /// Whether the observed path exists at all.
    pub open spec fn spec_is_present(&self) -> bool {
        !(*self is Missing)
    }

    /// Whether the observed path exists at all.
    pub fn is_present(&self) -> (r: bool)
        ensures
            r == self.spec_is_present(),
    {
        !matches!(self, FileType::Missing)
    }
}

} // verus!
