//! A line-oriented text filter: an ordered chain of stateful line transforms,
//! a lazily compiled pattern matcher, and the controllers that decide how
//! filtered output is paged or copied.
//!
//! The library reads no file and writes to no terminal. A driver hands it
//! lines and the outcomes of the steps it carried out, and is told what comes
//! out of the chain and what to do next.
//!
//! - [`features`] holds the transforms and [`chain`] passes lines through a
//!   chain of them; [`model`] says what that means and [`laws`] what follows.
//! - [`pattern`] turns a search text into a pattern and matches lines.
//! - [`encoding_decoding_feature`] encodes and decodes Base64.
//! - [`options`] builds the chain from the options of an invocation.
//! - [`pager`] and [`copier`] decide the steps of paged output and of a raw
//!   copy.
//! - [`text`], [`errors`] and [`config`] hold what the others share.

pub mod chain;
pub mod config;
pub mod copier;
pub mod encoding_decoding_feature;
pub mod errors;
pub mod features;
pub mod laws;
pub mod model;
pub mod options;
pub mod pager;
pub mod pattern;
pub mod text;

pub use chain::{apply_features, process_input_ret, LineTransform};
pub use config::RicatConfig;
pub use copier::{copy, CopyAction, CopyEvent, BUFFER_SIZE};
pub use encoding_decoding_feature::{Base64, DataEncoding};
pub use errors::RicatError;
pub use features::{
    Base64Decoding, Base64Encoding, CompressEmptyLines, DollarSymbolAtLast, LineNumbering,
    LineTextFeature, ReplaceTabspaces,
};
pub use options::{add_features_from_args, run_mode, Cli, RunMode};
pub use pager::{
    get_terminal_height, page_size, paginate_output, wait_for_user_input, Pager, PagerAction,
    Stage, StepOutcome, WaitProgress, WaitStep, DEFAULT_TERMINAL_HEIGHT, MORE_PROMPT,
};
pub use pattern::LineWithGivenText;
