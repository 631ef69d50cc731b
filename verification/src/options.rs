//! The buffering directives a user can request, the resolved per-stream
//! configuration, and the outcome of one attempt to resolve an argument
//! prefix.

use crate::size::parse_size;
use crate::size::parse_size_spec;
use vstd::prelude::*;

verus! {

/// Buffering policy for one standard stream.
#[derive(Debug, Clone, Copy, PartialEq, Eq, Structural)]
pub enum BufferMode {
    /// Inherit the platform default.
    Default,
    /// No buffering at all.
    Unbuffered,
    /// Flush on every newline.  Never valid for standard input.
    LineBuffered,
    /// A fixed buffer of the given number of bytes.
    FixedSize(u64),
}

/// The resolved buffering policy for the three standard streams.
#[derive(Debug, Clone, Copy, PartialEq, Eq, Structural)]
pub struct ProgramOptions {
    pub stdin: BufferMode,
    pub stdout: BufferMode,
    pub stderr: BufferMode,
}

/// An unrecoverable user error found while resolving options.
#[derive(Debug, Clone, PartialEq, Eq)]
pub enum FatalError {
    /// `L` was requested for standard input, where line buffering is
    /// meaningless.
    LineBufferedInput,
    /// A mode token that is neither `0`, `L` nor a valid size; carries the
    /// offending token.
    InvalidMode(String),
    /// No stream option was supplied at all.
    MissingModeOption,
}

/// Mathematical image of a `FatalError`.
pub ghost enum FatalErrorView {
    LineBufferedInput,
    InvalidMode(Seq<char>),
    MissingModeOption,
}

impl View for FatalError {
    type V = FatalErrorView;

    open spec fn view(&self) -> FatalErrorView {
        match self {
            FatalError::LineBufferedInput => FatalErrorView::LineBufferedInput,
            FatalError::InvalidMode(t) => FatalErrorView::InvalidMode(t@),
            FatalError::MissingModeOption => FatalErrorView::MissingModeOption,
        }
    }
}

/// Outcome of resolving one argument prefix.
#[derive(Debug, Clone, PartialEq, Eq)]
pub enum ScanOutcome {
    /// `--help` was present: render usage and stop, successfully.
    NeedsHelp,
    /// `--version` was present: render the version and stop, successfully.
    NeedsVersion,
    /// The prefix is a complete, valid option list.
    Resolved(ProgramOptions),
    /// The prefix is too short or ambiguous; a longer one may resolve.
    Retryable,
    /// An unrecoverable user error; scanning must stop.
    Fatal(FatalError),
}

/// Mathematical image of a `ScanOutcome`.
pub ghost enum ScanOutcomeView {
    NeedsHelp,
    NeedsVersion,
    Resolved(ProgramOptions),
    Retryable,
    Fatal(FatalErrorView),
}

impl View for ScanOutcome {
    type V = ScanOutcomeView;

    open spec fn view(&self) -> ScanOutcomeView {
        match self {
            ScanOutcome::NeedsHelp => ScanOutcomeView::NeedsHelp,
            ScanOutcome::NeedsVersion => ScanOutcomeView::NeedsVersion,
            ScanOutcome::Resolved(o) => ScanOutcomeView::Resolved(*o),
            ScanOutcome::Retryable => ScanOutcomeView::Retryable,
            ScanOutcome::Fatal(e) => ScanOutcomeView::Fatal(e@),
        }
    }
}

/// What one attempt of the option parser found: whether the two flags were
/// present, the raw value of each stream option, and how many positional
/// arguments were left over.
#[derive(Debug, Clone, PartialEq, Eq)]
pub struct RawMatches {
    pub help: bool,
    pub version: bool,
    pub input: Option<String>,
    pub output: Option<String>,
    pub error: Option<String>,
    pub free_count: usize,
}

/// Mathematical image of a `RawMatches`.
pub ghost struct MatchView {
    pub help: bool,
    pub version: bool,
    pub input: Option<Seq<char>>,
    pub output: Option<Seq<char>>,
    pub error: Option<Seq<char>>,
    pub free_count: nat,
}

impl View for RawMatches {
    type V = MatchView;

    open spec fn view(&self) -> MatchView {
        MatchView {
            help: self.help,
            version: self.version,
            input: self.input.deep_view(),
            output: self.output.deep_view(),
            error: self.error.deep_view(),
            free_count: self.free_count as nat,
        }
    }
}

/// Image of a per-stream resolution result.
pub open spec fn mode_result_view(r: Result<BufferMode, FatalError>) -> Result<
    BufferMode,
    FatalErrorView,
> {
    match r {
        Ok(m) => Ok(m),
        Err(e) => Err(e@),
    }
}

/// Meaning of one stream option's value: absent means `Default`, `0` means
/// unbuffered, `L` means line buffered (rejected for standard input), and
/// anything else must be a valid size token.
pub open spec fn check_option_spec(value: Option<Seq<char>>, is_input: bool) -> Result<
    BufferMode,
    FatalErrorView,
> {
    match value {
        None => Ok(BufferMode::Default),
        Some(v) => {
            if v == seq!['0'] {
                Ok(BufferMode::Unbuffered)
            } else if v == seq!['L'] {
                if is_input {
                    Err(FatalErrorView::LineBufferedInput)
                } else {
                    Ok(BufferMode::LineBuffered)
                }
            } else {
                match parse_size_spec(v) {
                    Some(size) => Ok(BufferMode::FixedSize(size)),
                    None => Err(FatalErrorView::InvalidMode(v)),
                }
            }
        },
    }
}

/// Resolve one stream option's raw value into a buffering mode, as
/// `check_option_spec` describes.
pub fn check_option(value: &Option<String>, is_input: bool) -> (r: Result<BufferMode, FatalError>)
    ensures
        mode_result_view(r) == check_option_spec(value.deep_view(), is_input),
{
    match value {
        None => Ok(BufferMode::Default),
        Some(v) => {
            let vs = v.as_str();
            let n = vs.unicode_len();
            if n == 1 && vs.get_char(0) == '0' {
                proof {
                    assert(v@ =~= seq!['0']);
                }
                Ok(BufferMode::Unbuffered)
            } else if n == 1 && vs.get_char(0) == 'L' {
                proof {
                    assert(v@ =~= seq!['L']);
                }
                if is_input {
                    Err(FatalError::LineBufferedInput)
                } else {
                    Ok(BufferMode::LineBuffered)
                }
            } else {
                proof {
                    assert(seq!['0'].len() == 1);
                    assert(seq!['L'].len() == 1);
                    assert(v@ != seq!['0']);
                    assert(v@ != seq!['L']);
                }
                match parse_size(vs) {
                    Some(size) => Ok(BufferMode::FixedSize(size)),
                    None => Err(FatalError::InvalidMode(v.clone())),
                }
            }
        },
    }
}

} // verus!
