//! The messages of the errors, and the defaults of the configuration.

use ricat::{RicatConfig, RicatError};

#[test]
fn every_error_introduces_its_cause() {
    let cause = || "cause".to_string();
    let table = [
        (RicatError::IoError(cause()), "IO Error: cause"),
        (RicatError::FileOpenError(cause()), "Failed to open file: cause"),
        (RicatError::LineProcessingError(cause()), "Error processing line: cause"),
        (RicatError::PaginationError(cause()), "Pagination error: cause"),
        (RicatError::FeatureError(cause()), "Feature error: cause"),
        (RicatError::LineWriteError(cause()), "Error writing line: cause"),
        (RicatError::OutputFlushError(cause()), "Error flushing output: cause"),
        (RicatError::RawModeEnableError(cause()), "Error enabling raw mode: cause"),
        (RicatError::RawModeDisableError(cause()), "Error disabling raw mode: cause"),
        (RicatError::InputReadError(cause()), "Error reading input: cause"),
        (RicatError::CursorHideError(cause()), "Error hiding cursor: cause"),
        (RicatError::CursorShowError(cause()), "Error showing cursor: cause"),
        (RicatError::ClearLineError(cause()), "Error clearing current line: cause"),
        (
            RicatError::CursorMoveError(cause()),
            "Error moving cursor to the beginning of the line: cause",
        ),
        (RicatError::RegexCompilationError(cause()), "Error compiling Regex: cause"),
        (RicatError::RegexCacheError(cause()), "Error acquiring lock on regex cache: cause"),
        (
            RicatError::MemoryMapError(cause()),
            "Error writing data to writer via Memory Mapped IO: cause",
        ),
        (
            RicatError::MemoryMapWriteError(cause()),
            "Error writing data to writer via Memory Mapped IO: cause",
        ),
        (RicatError::ConfigReadError(cause()), "Error reading config file: cause"),
        (RicatError::UserQuit, "User Quit Pagination Mode"),
    ];
    for (error, message) in table {
        assert_eq!(error.message(), message);
    }
}

#[test]
fn an_empty_cause_leaves_the_introduction() {
    assert_eq!(RicatError::IoError(String::new()).message(), "IO Error: ");
}

#[test]
fn a_copy_of_an_error_is_the_same_error() {
    let errors = [
        RicatError::IoError("a".to_string()),
        RicatError::PaginationError("b".to_string()),
        RicatError::CursorMoveError("c".to_string()),
        RicatError::ConfigReadError(String::new()),
        RicatError::UserQuit,
    ];
    for error in errors {
        assert_eq!(error.clone(), error);
        assert_eq!(error.clone().message(), error.message());
    }
}

#[test]
fn errors_of_different_kinds_or_causes_differ() {
    assert_ne!(RicatError::IoError("a".to_string()), RicatError::IoError("b".to_string()));
    assert_ne!(RicatError::IoError("a".to_string()), RicatError::FeatureError("a".to_string()));
}

#[test]
fn every_feature_is_off_by_default() {
    let config = RicatConfig::default();
    assert!(!config.number_feature);
    assert!(!config.dollar_sign_feature);
    assert!(!config.tabs_feature);
    assert!(!config.compress_empty_line_feature);
    assert!(!config.pagination_feature);
}
