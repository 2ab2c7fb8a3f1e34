//! The view the reader shows, and the editor round trips for metadata and
//! bookmarks: the draft handed to the editor and the edit awaiting
//! confirmation.

use vstd::prelude::*;

use crate::bookmarks::{BookmarkEdit, PdfBookmark};
use crate::metadata::{MetadataEdit, PdfMetadataEntry};

verus! {

#[derive(Debug, Clone, Copy, PartialEq, Eq)]
pub enum ViewMode {
    Viewer,
    Metadata,
    Bookmarks,
    Search,
    Selection,
}

/// A draft to open in the external editor, with what it was made from.
#[derive(Debug, Clone)]
pub enum EditorRequest {
    Metadata { original: Vec<PdfMetadataEntry>, draft: String },
    Bookmarks { original: Vec<PdfBookmark>, draft: String },
}

impl EditorRequest {
    /// The text the editor starts with: the draft.
    pub fn initial_text(&self) -> (text: &str)
        ensures
            text@ == match *self {
                EditorRequest::Metadata { draft, .. } => draft@,
                EditorRequest::Bookmarks { draft, .. } => draft@,
            },
    {
        match self {
            EditorRequest::Metadata { draft, .. } => draft.as_str(),
            EditorRequest::Bookmarks { draft, .. } => draft.as_str(),
        }
    }
}

/// An edit read back from the editor, waiting for the user to confirm
/// writing it to the PDF.
#[derive(Debug, Clone)]
pub enum ConfirmDialog {
    MetadataWrite { edit: MetadataEdit },
    BookmarksWrite { edit: BookmarkEdit },
}

} // verus!
