//! The typed errors that end a run.

use vstd::prelude::*;
use vstd::string::*;

verus! {

/// Every way a run can fail. Each variant but `UserQuit` carries the text of
/// the underlying cause.
#[derive(Debug, PartialEq, Eq)]
pub enum RicatError {
    /// Reading from a source or writing to a sink failed.
    IoError(String),
    /// A designated input could not be opened.
    FileOpenError(String),
    /// A line could not be processed or written.
    LineProcessingError(String),
    /// Paged output failed.
    PaginationError(String),
    /// A transform failed.
    FeatureError(String),
    /// Writing a line to the sink failed.
    LineWriteError(String),
    /// Flushing the sink failed.
    OutputFlushError(String),
    /// The terminal refused to deliver keystrokes immediately and unechoed.
    RawModeEnableError(String),
    /// The terminal could not be put back into its normal input mode.
    RawModeDisableError(String),
    /// Reading an input event failed.
    InputReadError(String),
    /// The cursor could not be hidden.
    CursorHideError(String),
    /// The cursor could not be shown again.
    CursorShowError(String),
    /// The prompt line could not be erased.
    ClearLineError(String),
    /// The cursor could not be moved to the start of the line.
    CursorMoveError(String),
    /// A search pattern did not compile.
    RegexCompilationError(String),
    /// The cache of compiled patterns could not be locked.
    RegexCacheError(String),
    /// A file could not be mapped into memory.
    MemoryMapError(String),
    /// The mapped bytes could not be written to the sink.
    MemoryMapWriteError(String),
    /// The configuration file could not be read.
    ConfigReadError(String),
    /// The user left paged output.
    UserQuit,
}

impl RicatError {
    /// The fixed text that introduces the message of each variant.
    pub open spec fn prefix(self) -> Seq<char> {
        match self {
            RicatError::IoError(_) => "IO Error: "@,
            RicatError::FileOpenError(_) => "Failed to open file: "@,
            RicatError::LineProcessingError(_) => "Error processing line: "@,
            RicatError::PaginationError(_) => "Pagination error: "@,
            RicatError::FeatureError(_) => "Feature error: "@,
            RicatError::LineWriteError(_) => "Error writing line: "@,
            RicatError::OutputFlushError(_) => "Error flushing output: "@,
            RicatError::RawModeEnableError(_) => "Error enabling raw mode: "@,
            RicatError::RawModeDisableError(_) => "Error disabling raw mode: "@,
            RicatError::InputReadError(_) => "Error reading input: "@,
            RicatError::CursorHideError(_) => "Error hiding cursor: "@,
            RicatError::CursorShowError(_) => "Error showing cursor: "@,
            RicatError::ClearLineError(_) => "Error clearing current line: "@,
            RicatError::CursorMoveError(_) => "Error moving cursor to the beginning of the line: "@,
            RicatError::RegexCompilationError(_) => "Error compiling Regex: "@,
            RicatError::RegexCacheError(_) => "Error acquiring lock on regex cache: "@,
            RicatError::MemoryMapError(_) => "Error writing data to writer via Memory Mapped IO: "@,
            RicatError::MemoryMapWriteError(_) => "Error writing data to writer via Memory Mapped IO: "@,
            RicatError::ConfigReadError(_) => "Error reading config file: "@,
            RicatError::UserQuit => "User Quit Pagination Mode"@,
        }
    }

    /// The text of the underlying cause; empty for `UserQuit`.
    pub open spec fn detail(self) -> Seq<char> {
        match self {
            RicatError::IoError(m) => m@,
            RicatError::FileOpenError(m) => m@,
            RicatError::LineProcessingError(m) => m@,
            RicatError::PaginationError(m) => m@,
            RicatError::FeatureError(m) => m@,
            RicatError::LineWriteError(m) => m@,
            RicatError::OutputFlushError(m) => m@,
            RicatError::RawModeEnableError(m) => m@,
            RicatError::RawModeDisableError(m) => m@,
            RicatError::InputReadError(m) => m@,
            RicatError::CursorHideError(m) => m@,
            RicatError::CursorShowError(m) => m@,
            RicatError::ClearLineError(m) => m@,
            RicatError::CursorMoveError(m) => m@,
            RicatError::RegexCompilationError(m) => m@,
            RicatError::RegexCacheError(m) => m@,
            RicatError::MemoryMapError(m) => m@,
            RicatError::MemoryMapWriteError(m) => m@,
            RicatError::ConfigReadError(m) => m@,
            RicatError::UserQuit => Seq::empty(),
        }
    }

    /// The whole message: the variant's prefix followed by the cause.
    pub open spec fn text(self) -> Seq<char> {
        self.prefix() + self.detail()
    }

    /// The message a user reads for this error.
    pub fn message(&self) -> (shown: String)
        ensures
            shown@ == self.text(),
    {
        match self {
            RicatError::IoError(m) => prefixed("IO Error: ", m),
            RicatError::FileOpenError(m) => prefixed("Failed to open file: ", m),
            RicatError::LineProcessingError(m) => prefixed("Error processing line: ", m),
            RicatError::PaginationError(m) => prefixed("Pagination error: ", m),
            RicatError::FeatureError(m) => prefixed("Feature error: ", m),
            RicatError::LineWriteError(m) => prefixed("Error writing line: ", m),
            RicatError::OutputFlushError(m) => prefixed("Error flushing output: ", m),
            RicatError::RawModeEnableError(m) => prefixed("Error enabling raw mode: ", m),
            RicatError::RawModeDisableError(m) => prefixed("Error disabling raw mode: ", m),
            RicatError::InputReadError(m) => prefixed("Error reading input: ", m),
            RicatError::CursorHideError(m) => prefixed("Error hiding cursor: ", m),
            RicatError::CursorShowError(m) => prefixed("Error showing cursor: ", m),
            RicatError::ClearLineError(m) => prefixed("Error clearing current line: ", m),
            RicatError::CursorMoveError(m) => prefixed(
                "Error moving cursor to the beginning of the line: ",
                m,
            ),
            RicatError::RegexCompilationError(m) => prefixed("Error compiling Regex: ", m),
            RicatError::RegexCacheError(m) => prefixed("Error acquiring lock on regex cache: ", m),
            RicatError::MemoryMapError(m) => prefixed(
                "Error writing data to writer via Memory Mapped IO: ",
                m,
            ),
            RicatError::MemoryMapWriteError(m) => prefixed(
                "Error writing data to writer via Memory Mapped IO: ",
                m,
            ),
            RicatError::ConfigReadError(m) => prefixed("Error reading config file: ", m),
            RicatError::UserQuit => {
                let shown = "User Quit Pagination Mode".to_owned();
                assert(shown@ =~= "User Quit Pagination Mode"@ + Seq::<char>::empty());
                shown
            },
        }
    }
}

impl Clone for RicatError {
    /// A copy with the same variant and the same cause.
    fn clone(&self) -> (copy: Self)
        ensures
            copy == *self,
    {
        match self {
            RicatError::IoError(m) => RicatError::IoError(m.clone()),
            RicatError::FileOpenError(m) => RicatError::FileOpenError(m.clone()),
            RicatError::LineProcessingError(m) => RicatError::LineProcessingError(m.clone()),
            RicatError::PaginationError(m) => RicatError::PaginationError(m.clone()),
            RicatError::FeatureError(m) => RicatError::FeatureError(m.clone()),
            RicatError::LineWriteError(m) => RicatError::LineWriteError(m.clone()),
            RicatError::OutputFlushError(m) => RicatError::OutputFlushError(m.clone()),
            RicatError::RawModeEnableError(m) => RicatError::RawModeEnableError(m.clone()),
            RicatError::RawModeDisableError(m) => RicatError::RawModeDisableError(m.clone()),
            RicatError::InputReadError(m) => RicatError::InputReadError(m.clone()),
            RicatError::CursorHideError(m) => RicatError::CursorHideError(m.clone()),
            RicatError::CursorShowError(m) => RicatError::CursorShowError(m.clone()),
            RicatError::ClearLineError(m) => RicatError::ClearLineError(m.clone()),
            RicatError::CursorMoveError(m) => RicatError::CursorMoveError(m.clone()),
            RicatError::RegexCompilationError(m) => RicatError::RegexCompilationError(m.clone()),
            RicatError::RegexCacheError(m) => RicatError::RegexCacheError(m.clone()),
            RicatError::MemoryMapError(m) => RicatError::MemoryMapError(m.clone()),
            RicatError::MemoryMapWriteError(m) => RicatError::MemoryMapWriteError(m.clone()),
            RicatError::ConfigReadError(m) => RicatError::ConfigReadError(m.clone()),
            RicatError::UserQuit => RicatError::UserQuit,
        }
    }
}

/// `head` followed by `tail`, as a new string.
pub fn prefixed(head: &str, tail: &String) -> (joined: String)
    ensures
        joined@ == head@ + tail@,
{
    let mut joined = head.to_owned();
    joined.append(tail.as_str());
    joined
}

} // verus!
