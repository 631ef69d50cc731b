//! Core of a launcher that adjusts the standard-stream buffering of a
//! wrapped command: parsing of buffer-mode tokens, resolution of the tool's
//! own options, and the scan that finds where the wrapped command's argv
//! begins.

pub mod getopt;
pub mod options;
pub mod resolve;
pub mod scan;
pub mod size;

pub use crate::options::BufferMode;
pub use crate::options::FatalError;
pub use crate::options::ProgramOptions;
pub use crate::options::RawMatches;
pub use crate::options::ScanOutcome;
pub use crate::options::check_option;
pub use crate::resolve::parse_options;
pub use crate::resolve::resolve_matches;
pub use crate::scan::INVALID_OPTIONS_EXIT_CODE;
pub use crate::scan::ScanResult;
pub use crate::scan::scan;
pub use crate::size::parse_size;
