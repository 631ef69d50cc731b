//! Resolution of one argument prefix: either a fully validated set of
//! program options, a short-circuiting help or version request, a definitive
//! failure, or a signal to retry with a longer prefix.

use crate::getopt::getopt_parse;
use crate::getopt::stdbuf_getopt;
use crate::options::check_option;
use crate::options::check_option_spec;
use crate::options::BufferMode;
use crate::options::FatalError;
use crate::options::FatalErrorView;
use crate::options::MatchView;
use crate::options::ProgramOptions;
use crate::options::RawMatches;
use crate::options::ScanOutcome;
use crate::options::ScanOutcomeView;
use vstd::prelude::*;

verus! {

/// At least one of the three stream options was supplied.
pub open spec fn any_mode_supplied(m: MatchView) -> bool {
    m.input is Some || m.output is Some || m.error is Some
}

/// Meaning of one resolution attempt over parsed matches.  Help and version
/// take precedence; then the three stream options are resolved in order,
/// the first bad one being fatal; then exactly one positional argument must
/// remain, else the prefix is ambiguous; and refusing to run with no-op
/// defaults, at least one stream option must have been supplied.
pub open spec fn resolve_spec(m: MatchView) -> ScanOutcomeView {
    if m.help {
        ScanOutcomeView::NeedsHelp
    } else if m.version {
        ScanOutcomeView::NeedsVersion
    } else {
        match check_option_spec(m.input, true) {
            Err(e) => ScanOutcomeView::Fatal(e),
            Ok(stdin_mode) => match check_option_spec(m.output, false) {
                Err(e) => ScanOutcomeView::Fatal(e),
                Ok(stdout_mode) => match check_option_spec(m.error, false) {
                    Err(e) => ScanOutcomeView::Fatal(e),
                    Ok(stderr_mode) => {
                        if m.free_count != 1 {
                            ScanOutcomeView::Retryable
                        } else if !any_mode_supplied(m) {
                            ScanOutcomeView::Fatal(FatalErrorView::MissingModeOption)
                        } else {
                            ScanOutcomeView::Resolved(
                                ProgramOptions {
                                    stdin: stdin_mode,
                                    stdout: stdout_mode,
                                    stderr: stderr_mode,
                                },
                            )
                        }
                    },
                },
            },
        }
    }
}

/// Resolve parsed matches into a scan outcome, as `resolve_spec` describes.
pub fn resolve_matches(m: &RawMatches) -> (r: ScanOutcome)
    ensures
        r@ == resolve_spec(m@),
{
    if m.help {
        return ScanOutcome::NeedsHelp;
    }
    if m.version {
        return ScanOutcome::NeedsVersion;
    }
    let stdin_mode = match check_option(&m.input, true) {
        Ok(b) => b,
        Err(e) => {
            return ScanOutcome::Fatal(e);
        },
    };
    let stdout_mode = match check_option(&m.output, false) {
        Ok(b) => b,
        Err(e) => {
            return ScanOutcome::Fatal(e);
        },
    };
    let stderr_mode = match check_option(&m.error, false) {
        Ok(b) => b,
        Err(e) => {
            return ScanOutcome::Fatal(e);
        },
    };
    if m.free_count != 1 {
        return ScanOutcome::Retryable;
    }
    if !(m.input.is_some() || m.output.is_some() || m.error.is_some()) {
        return ScanOutcome::Fatal(FatalError::MissingModeOption);
    }
    ScanOutcome::Resolved(
        ProgramOptions { stdin: stdin_mode, stdout: stdout_mode, stderr: stderr_mode },
    )
}

/// Line buffering of standard input is undefined, and resolution keeps it
/// that way: a resolved configuration never line-buffers standard input.
pub proof fn lemma_resolved_never_line_buffers_stdin(m: MatchView)
    ensures
        resolve_spec(m) matches ScanOutcomeView::Resolved(o) ==> o.stdin
            != BufferMode::LineBuffered,
{
}

/// The invariant above, lifted over a whole scan attempt.
pub proof fn lemma_attempt_never_line_buffers_stdin(args: Seq<Seq<char>>)
    ensures
        parse_options_spec(args) matches ScanOutcomeView::Resolved(o) ==> o.stdin
            != BufferMode::LineBuffered,
{
    match stdbuf_getopt(args) {
        None => {},
        Some(m) => {
            lemma_resolved_never_line_buffers_stdin(m);
        },
    }
}

/// Meaning of one scan attempt over a raw argument prefix: a prefix that
/// the option grammar rejects may become unambiguous once extended, so it
/// is retryable; otherwise `resolve_spec` decides.
pub open spec fn parse_options_spec(args: Seq<Seq<char>>) -> ScanOutcomeView {
    match stdbuf_getopt(args) {
        None => ScanOutcomeView::Retryable,
        Some(m) => resolve_spec(m),
    }
}

/// Attempt a full option parse of one argument prefix, as
/// `parse_options_spec` describes.
pub fn parse_options(args: &Vec<String>) -> (r: ScanOutcome)
    ensures
        r@ == parse_options_spec(args.deep_view()),
        args@.len() == 0 ==> r == ScanOutcome::Retryable,
{
    match getopt_parse(args) {
        Ok(m) => resolve_matches(&m),
        Err(_) => ScanOutcome::Retryable,
    }
}

} // verus!
