//! Structured errors of the knowledge graph, and graph edges.
//!
//! Every error carries a code that the front end matches on, a message and
//! optional details. Storage errors map to codes by their kind.

use vstd::prelude::*;
use crate::ms_io::{io_text, IoError};
use crate::text::push_str;

verus! {

/// What went wrong, for the front end to pick its display.
#[derive(Debug, Clone, Copy, PartialEq, Eq, Structural)]
pub enum ErrorCode {
    FileNotFound,
    FileReadFailed,
    FileWriteFailed,
    DirectoryNotFound,
    MarkdownParseFailed,
    AstRenderFailed,
    AstSerializeFailed,
    AstDeserializeFailed,
    UnknownNodeType,
    FrontmatterParseFailed,
    GraphCycleDetected,
    GraphNodeNotFound,
    GraphEdgeCreationFailed,
    NetworkUnreachable,
    ApiError,
    AuthExpired,
    StorageConfigMissing,
    StorageConfigError,
    S3UploadFailed,
    S3DeleteFailed,
    S3HeadFailed,
    S3UrlError,
    ImageDecodeFailed,
    ImageEncodeFailed,
    ImageResizeFailed,
    ExportFileCreateFailed,
    ExportZipFailed,
    ExportFetchFailed,
    TaskPanic,
    InternalError,
    NotImplemented,
}

/// An error with its code, message and optional details.
#[derive(Debug, Clone)]
pub struct GraphError {
    pub code: ErrorCode,
    pub message: String,
    pub details: Option<String>,
}

/// Result of graph operations.
pub type GraphResult<T> = Result<T, GraphError>;

/// A directed edge of the knowledge graph.
#[derive(Debug, Clone)]
pub struct GraphEdge {
    pub source: String,
    pub target: String,
    pub relation: String,
}

/// The kinds of I/O error that the error codes tell apart.
#[derive(Debug, Clone, Copy, PartialEq, Eq, Structural)]
pub enum IoKind {
    NotFound,
    PermissionDenied,
    Other,
}

/// The kind of an I/O error, from `std::io::Error::kind`: not found,
/// permission denied, or any other kind.
///
/// Nothing is claimed of which kind a given error has.
#[verifier::external_body]
fn io_kind(e: &std::io::Error) -> IoKind {
    match e.kind() {
        std::io::ErrorKind::NotFound => IoKind::NotFound,
        std::io::ErrorKind::PermissionDenied => IoKind::PermissionDenied,
        _ => IoKind::Other,
    }
}

/// The code of an I/O error of the given kind.
pub open spec fn io_kind_code(kind: IoKind) -> ErrorCode {
    match kind {
        IoKind::NotFound => ErrorCode::FileNotFound,
        IoKind::PermissionDenied => ErrorCode::FileWriteFailed,
        IoKind::Other => ErrorCode::FileReadFailed,
    }
}

/// The code a storage error maps to.
pub open spec fn storage_code(e: IoError) -> ErrorCode {
    match e {
        IoError::AtomicWriteFailed(_) => ErrorCode::FileWriteFailed,
        IoError::UnsafePath(_) => ErrorCode::FileWriteFailed,
        IoError::VaultNotFound(_) => ErrorCode::DirectoryNotFound,
        IoError::ImageDecodeFailed(_) => ErrorCode::ImageDecodeFailed,
        IoError::PayloadTooLarge(_) => ErrorCode::ImageDecodeFailed,
        IoError::ImageEncodeFailed(_) => ErrorCode::ImageEncodeFailed,
        IoError::ImageResizeFailed(_) => ErrorCode::ImageResizeFailed,
        IoError::CloudConfigError(_) => ErrorCode::StorageConfigError,
        IoError::CloudUploadFailed(_) => ErrorCode::S3UploadFailed,
        IoError::CloudDeleteFailed(_) => ErrorCode::S3DeleteFailed,
        IoError::CloudHeadFailed(_) => ErrorCode::S3HeadFailed,
        IoError::ExportCreateFailed(_) => ErrorCode::ExportFileCreateFailed,
        IoError::ExportZipFailed(_) => ErrorCode::ExportZipFailed,
        IoError::ExportFetchFailed(_) => ErrorCode::ExportFetchFailed,
        IoError::TaskPanic { .. } => ErrorCode::TaskPanic,
        IoError::Io(_) => ErrorCode::FileReadFailed,
    }
}

/// The message a storage error maps to (not for `Io`, whose text comes from
/// the I/O error).
pub open spec fn storage_message(e: IoError) -> Seq<char> {
    match e {
        IoError::TaskPanic { reason } => "线程执行崩溃: "@ + reason@,
        IoError::AtomicWriteFailed(m) => m@,
        IoError::UnsafePath(m) => m@,
        IoError::VaultNotFound(m) => m@,
        IoError::ImageDecodeFailed(m) => m@,
        IoError::PayloadTooLarge(m) => m@,
        IoError::ImageEncodeFailed(m) => m@,
        IoError::ImageResizeFailed(m) => m@,
        IoError::CloudConfigError(m) => m@,
        IoError::CloudUploadFailed(m) => m@,
        IoError::CloudDeleteFailed(m) => m@,
        IoError::CloudHeadFailed(m) => m@,
        IoError::ExportCreateFailed(m) => m@,
        IoError::ExportZipFailed(m) => m@,
        IoError::ExportFetchFailed(m) => m@,
        IoError::Io(_) => Seq::empty(),
    }
}

impl GraphError {
    /// An error with the given code and message, without details.
    pub fn new(code: ErrorCode, message: &str) -> (r: GraphError)
        ensures
            r.code == code,
            r.message@ == message@,
            r.details is None,
    {
        GraphError { code, message: message.to_owned(), details: None }
    }

    /// The same error with the given details.
    pub fn with_details(self, details: &str) -> (r: GraphError)
        ensures
            r.code == self.code,
            r.message@ == self.message@,
            r.details matches Some(d) && d@ == details@,
    {
        let mut s = self;
        s.details = Some(details.to_owned());
        s
    }

    /// The text the error displays: its message.
    pub fn display_text(&self) -> (r: String)
        ensures
            r@ == self.message@,
    {
        self.message.clone()
    }

    /// The error for an I/O error of the given kind with the given text.
    pub fn from_io_kind(kind: IoKind, text: &str) -> (r: GraphError)
        ensures
            r.code == io_kind_code(kind),
            r.message@ == text@,
            r.details is None,
    {
        let code = match kind {
            IoKind::NotFound => ErrorCode::FileNotFound,
            IoKind::PermissionDenied => ErrorCode::FileWriteFailed,
            IoKind::Other => ErrorCode::FileReadFailed,
        };
        GraphError::new(code, text)
    }

    /// The error for a standard I/O error: its kind picks the code, its text
    /// is the message.
    pub fn from_std_io(e: std::io::Error) -> (r: GraphError)
        ensures
            r.code == ErrorCode::FileNotFound || r.code == ErrorCode::FileWriteFailed || r.code == ErrorCode::FileReadFailed,
            r.details is None,
    {
        let kind = io_kind(&e);
        let text = io_text(&e);
        GraphError::from_io_kind(kind, text.as_str())
    }

    /// The error for a storage error (see [`storage_code`], [`storage_message`]).
    pub fn from_storage(e: IoError) -> (r: GraphError)
        ensures
            !(e is Io) ==> r.code == storage_code(e) && r.message@ == storage_message(e),
            e is Io ==> r.code == ErrorCode::FileNotFound || r.code == ErrorCode::FileWriteFailed
                || r.code == ErrorCode::FileReadFailed,
            r.details is None,
    {
        match e {
            IoError::AtomicWriteFailed(m) => GraphError::new(ErrorCode::FileWriteFailed, m.as_str()),
            IoError::UnsafePath(m) => GraphError::new(ErrorCode::FileWriteFailed, m.as_str()),
            IoError::VaultNotFound(m) => GraphError::new(ErrorCode::DirectoryNotFound, m.as_str()),
            IoError::ImageDecodeFailed(m) => GraphError::new(ErrorCode::ImageDecodeFailed, m.as_str()),
            IoError::PayloadTooLarge(m) => GraphError::new(ErrorCode::ImageDecodeFailed, m.as_str()),
            IoError::ImageEncodeFailed(m) => GraphError::new(ErrorCode::ImageEncodeFailed, m.as_str()),
            IoError::ImageResizeFailed(m) => GraphError::new(ErrorCode::ImageResizeFailed, m.as_str()),
            IoError::CloudConfigError(m) => GraphError::new(ErrorCode::StorageConfigError, m.as_str()),
            IoError::CloudUploadFailed(m) => GraphError::new(ErrorCode::S3UploadFailed, m.as_str()),
            IoError::CloudDeleteFailed(m) => GraphError::new(ErrorCode::S3DeleteFailed, m.as_str()),
            IoError::CloudHeadFailed(m) => GraphError::new(ErrorCode::S3HeadFailed, m.as_str()),
            IoError::ExportCreateFailed(m) => GraphError::new(ErrorCode::ExportFileCreateFailed, m.as_str()),
            IoError::ExportZipFailed(m) => GraphError::new(ErrorCode::ExportZipFailed, m.as_str()),
            IoError::ExportFetchFailed(m) => GraphError::new(ErrorCode::ExportFetchFailed, m.as_str()),
            IoError::Io(io) => GraphError::from_std_io(io),
            IoError::TaskPanic { reason } => {
                let mut m = String::new();
                push_str(&mut m, "线程执行崩溃: ");
                push_str(&mut m, reason.as_str());
                GraphError::new(ErrorCode::TaskPanic, m.as_str())
            },
        }
    }
}

impl From<std::io::Error> for GraphError {
    /// See [`GraphError::from_std_io`].
    fn from(e: std::io::Error) -> (r: GraphError) {
        GraphError::from_std_io(e)
    }
}

impl vstd::std_specs::convert::FromSpecImpl<std::io::Error> for GraphError {
    /// The result depends on the I/O error's kind and text, which are not
    /// modelled; [`GraphError::from_std_io`] states what holds of it.
    open spec fn obeys_from_spec() -> bool {
        false
    }

    open spec fn from_spec(v: std::io::Error) -> GraphError {
        arbitrary()
    }
}

impl From<IoError> for GraphError {
    /// See [`GraphError::from_storage`].
    fn from(e: IoError) -> (r: GraphError) {
        GraphError::from_storage(e)
    }
}

impl vstd::std_specs::convert::FromSpecImpl<IoError> for GraphError {
    /// The result of an `Io` error depends on the I/O error, which is not
    /// modelled; [`GraphError::from_storage`] states what holds of it.
    open spec fn obeys_from_spec() -> bool {
        false
    }

    open spec fn from_spec(v: IoError) -> GraphError {
        arbitrary()
    }
}

} // verus!
