//! The ways in which a download can fail. Every failure is terminal.

use vstd::prelude::*;

verus! {

/// A failure of one download. Nothing is retried and nothing is downgraded.
#[derive(Debug, PartialEq, Eq)]
pub enum AssetError {
    /// The authentication helper could not be started; the cause is attached.
    AuthUnavailable(String),
    /// The authentication helper ended unsuccessfully; its diagnostic text is attached.
    AuthDenied(String),
    /// The authentication helper succeeded but gave no usable token.
    AuthEmpty,
    /// The source is not an acceptable asset identifier.
    InvalidAssetId,
    /// The source is not an acceptable asset URL.
    InvalidSourceUrl,
    /// The destination holds `..`.
    PathTraversal,
    /// The destination is an absolute path into a system directory.
    SystemDirectoryDenied,
    /// The destination resolves to a place outside the working directory.
    OutsideWorkingDirectory,
    /// The destination's file name is blank or holds a NUL character.
    InvalidFilename,
    /// The server answered the download request with a status outside 200..=299.
    HttpError { status: u16 },
    /// A local filesystem operation failed; the cause is attached.
    IoError(String),
}

/// `AssetError` with its texts as character sequences.
pub enum AssetErrorView {
    AuthUnavailable(Seq<char>),
    AuthDenied(Seq<char>),
    AuthEmpty,
    InvalidAssetId,
    InvalidSourceUrl,
    PathTraversal,
    SystemDirectoryDenied,
    OutsideWorkingDirectory,
    InvalidFilename,
    HttpError { status: u16 },
    IoError(Seq<char>),
}

impl View for AssetError {
    type V = AssetErrorView;

    open spec fn view(&self) -> AssetErrorView {
        match self {
            AssetError::AuthUnavailable(cause) => AssetErrorView::AuthUnavailable(cause@),
            AssetError::AuthDenied(text) => AssetErrorView::AuthDenied(text@),
            AssetError::AuthEmpty => AssetErrorView::AuthEmpty,
            AssetError::InvalidAssetId => AssetErrorView::InvalidAssetId,
            AssetError::InvalidSourceUrl => AssetErrorView::InvalidSourceUrl,
            AssetError::PathTraversal => AssetErrorView::PathTraversal,
            AssetError::SystemDirectoryDenied => AssetErrorView::SystemDirectoryDenied,
            AssetError::OutsideWorkingDirectory => AssetErrorView::OutsideWorkingDirectory,
            AssetError::InvalidFilename => AssetErrorView::InvalidFilename,
            AssetError::HttpError { status } => AssetErrorView::HttpError { status: *status },
            AssetError::IoError(cause) => AssetErrorView::IoError(cause@),
        }
    }
}

/// A result whose value is a string, with both sides taken by their views.
pub open spec fn text_result_view(r: Result<String, AssetError>) -> Result<Seq<char>, AssetErrorView> {
    match r {
        Ok(text) => Ok(text@),
        Err(e) => Err(e@),
    }
}

/// A result without a value, with its error taken by its view.
pub open spec fn unit_result_view(r: Result<(), AssetError>) -> Result<(), AssetErrorView> {
    match r {
        Ok(_) => Ok(()),
        Err(e) => Err(e@),
    }
}

} // verus!
