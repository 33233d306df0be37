//! Tests of graph errors and storage records.

use memory_stream::graph::{ErrorCode, GraphError};
use memory_stream::ms_io::{sanitize_filename, IoError};

#[test]
fn test_from_io_error() {
    let io_err = std::io::Error::new(std::io::ErrorKind::NotFound, "file missing");
    let temple_err: GraphError = io_err.into();
    assert_eq!(temple_err.code, ErrorCode::FileNotFound);
    assert!(temple_err.message.contains("file missing"));
}

#[test]
fn test_from_io_error_cloud() {
    let err = IoError::CloudUploadFailed("timeout".into());
    let graph_err: GraphError = err.into();
    assert_eq!(graph_err.code, ErrorCode::S3UploadFailed);
}

#[test]
fn test_from_io_error_media() {
    let err = IoError::ImageDecodeFailed("corrupt".into());
    let graph_err: GraphError = err.into();
    assert_eq!(graph_err.code, ErrorCode::ImageDecodeFailed);
}

#[test]
fn test_from_io_error_export() {
    let err = IoError::ExportZipFailed("crc mismatch".into());
    let graph_err: GraphError = err.into();
    assert_eq!(graph_err.code, ErrorCode::ExportZipFailed);
}

#[test]
fn test_display_format() {
    let err = GraphError::new(ErrorCode::AuthExpired, "JWT 过期");
    let display = err.display_text();
    assert!(display.contains("JWT 过期"));
}

#[test]
fn export_test_sanitize_filename() {
    assert_eq!(sanitize_filename("hello/world"), "hello_world");
    assert_eq!(sanitize_filename(".hidden"), "hidden");
    assert_eq!(sanitize_filename("normal.md"), "normal.md");
}

#[test]
fn lib_test_sanitize_filename() {
    assert_eq!(sanitize_filename("hello/world"), "hello_world");
    assert_eq!(sanitize_filename(".hidden"), "hidden");
    assert_eq!(sanitize_filename("normal.md"), "normal.md");
}

#[test]
fn details_and_permission_errors() {
    let err = GraphError::new(ErrorCode::FileNotFound, "x").with_details("path: /v/x.md");
    assert_eq!(err.details.as_deref(), Some("path: /v/x.md"));
    let io_err = std::io::Error::new(std::io::ErrorKind::PermissionDenied, "no");
    let g: GraphError = io_err.into();
    assert_eq!(g.code, ErrorCode::FileWriteFailed);
    let panic_err: GraphError = IoError::TaskPanic { reason: "boom".into() }.into();
    assert_eq!(panic_err.code, ErrorCode::TaskPanic);
    assert_eq!(panic_err.message, "线程执行崩溃: boom");
}

#[test]
fn io_error_messages() {
    assert_eq!(IoError::UnsafePath("../x".into()).message(), "路径不安全: ../x");
    assert_eq!(IoError::TaskPanic { reason: "r".into() }.message(), "任务崩溃: r");
}

#[test]
fn sanitize_controls_and_spaces() {
    assert_eq!(sanitize_filename("  a:b\u{7}  "), "a_b_");
    assert_eq!(sanitize_filename("..."), "");
}
