//! The boundary scanner: drive the option resolver over successively longer
//! prefixes of the argument vector until one attempt is decisive, locating
//! the index where the wrapped command begins.

use crate::options::BufferMode;
use crate::options::FatalError;
use crate::options::FatalErrorView;
use crate::options::ProgramOptions;
use crate::options::ScanOutcome;
use crate::options::ScanOutcomeView;
use crate::resolve::lemma_attempt_never_line_buffers_stdin;
use crate::resolve::parse_options;
use crate::resolve::parse_options_spec;
use vstd::prelude::*;

verus! {

/// Exit status reported when no valid option/command boundary exists.
pub const INVALID_OPTIONS_EXIT_CODE: u8 = 125;

/// Final outcome of scanning the full argument vector.
#[derive(Debug, Clone, PartialEq, Eq)]
pub enum ScanResult {
    /// `--help` was seen among the options: render usage, exit successfully.
    NeedsHelp,
    /// `--version` was seen among the options: render it, exit successfully.
    NeedsVersion,
    /// A valid option list was found; the index held here is the index of
    /// the wrapped command's first token in the argument vector.
    Command(ProgramOptions, usize),
    /// No boundary exists: a fatal user error, carried here, or every
    /// prefix was ambiguous.
    Failed(Option<FatalError>),
}

/// Mathematical image of a `ScanResult`.
pub ghost enum ScanResultView {
    NeedsHelp,
    NeedsVersion,
    Command(ProgramOptions, nat),
    Failed(Option<FatalErrorView>),
}

impl View for ScanResult {
    type V = ScanResultView;

    open spec fn view(&self) -> ScanResultView {
        match self {
            ScanResult::NeedsHelp => ScanResultView::NeedsHelp,
            ScanResult::NeedsVersion => ScanResultView::NeedsVersion,
            ScanResult::Command(o, b) => ScanResultView::Command(*o, *b as nat),
            ScanResult::Failed(e) => ScanResultView::Failed(
                match e {
                    None => None,
                    Some(f) => Some(f@),
                },
            ),
        }
    }
}

/// Outcome of the scan from prefix length `l` on: the first decisive
/// attempt wins.  A prefix of length `l` that resolves holds the wrapped
/// command's name as its single positional token, so the boundary is
/// `l - 1`; a fatal attempt stops the scan; and a scan that runs out of
/// prefixes has failed without a specific error.
pub open spec fn scan_spec_from(args: Seq<Seq<char>>, l: int) -> ScanResultView
    decreases args.len() + 1 - l,
{
    if l < 0 || l > args.len() {
        ScanResultView::Failed(None)
    } else {
        match parse_options_spec(args.take(l)) {
            ScanOutcomeView::NeedsHelp => ScanResultView::NeedsHelp,
            ScanOutcomeView::NeedsVersion => ScanResultView::NeedsVersion,
            ScanOutcomeView::Resolved(o) => ScanResultView::Command(
                o,
                if l == 0 {
                    0
                } else {
                    (l - 1) as nat
                },
            ),
            ScanOutcomeView::Fatal(e) => ScanResultView::Failed(Some(e)),
            ScanOutcomeView::Retryable => scan_spec_from(args, l + 1),
        }
    }
}

/// Meaning of the whole scan, beginning with the empty prefix.
pub open spec fn scan_spec(args: Seq<Seq<char>>) -> ScanResultView {
    scan_spec_from(args, 0)
}

/// The scan is decided by its first decisive prefix: as long as every
/// shorter prefix is ambiguous, the remaining arguments — including tokens
/// that merely resemble options — have no bearing on the attempts before
/// length `l`.  In particular a prefix that requests help or version
/// short-circuits the scan right there, whatever follows it, and a prefix
/// that resolves places the boundary without consuming anything further.
pub proof fn lemma_scan_stops_at_first_decisive_prefix(args: Seq<Seq<char>>, l: int)
    requires
        0 <= l <= args.len(),
        forall|i: int| 0 <= i < l ==> parse_options_spec(args.take(i))
            == ScanOutcomeView::Retryable,
    ensures
        scan_spec(args) == scan_spec_from(args, l),
    decreases l,
{
    if l > 0 {
        lemma_scan_stops_at_first_decisive_prefix(args, l - 1);
        assert(parse_options_spec(args.take(l - 1)) == ScanOutcomeView::Retryable);
    }
}

/// Find the boundary between the tool's own options and the wrapped
/// command, as `scan_spec` describes.  A found boundary is always an index
/// into `args`.
#[verifier::loop_isolation(false)]
pub fn scan(args: &Vec<String>) -> (r: ScanResult)
    ensures
        r@ == scan_spec(args.deep_view()),
        r@ matches ScanResultView::Command(_, b) ==> b < args@.len(),
        r@ matches ScanResultView::Command(o, _) ==> o.stdin != BufferMode::LineBuffered,
{
    let ghost av = args.deep_view();
    let mut prefix: Vec<String> = Vec::new();
    let mut l: usize = 0;
    loop
        invariant
            l <= args.len(),
            prefix@.len() == l,
            prefix.deep_view() == av.take(l as int),
            scan_spec(av) == scan_spec_from(av, l as int),
        decreases args.len() - l,
    {
        let outcome = parse_options(&prefix);
        match outcome {
            ScanOutcome::NeedsHelp => {
                return ScanResult::NeedsHelp;
            },
            ScanOutcome::NeedsVersion => {
                return ScanResult::NeedsVersion;
            },
            ScanOutcome::Resolved(o) => {
                proof {
                    lemma_attempt_never_line_buffers_stdin(prefix.deep_view());
                }
                assert(l != 0);
                let boundary: usize = l - 1;
                return ScanResult::Command(o, boundary);
            },
            ScanOutcome::Fatal(e) => {
                return ScanResult::Failed(Some(e));
            },
            ScanOutcome::Retryable => {
                if l == args.len() {
                    proof {
                        assert(scan_spec_from(av, l as int + 1) == ScanResultView::Failed(
                            None::<FatalErrorView>,
                        ));
                    }
                    return ScanResult::Failed(None);
                }
                let next = args[l].clone();
                prefix.push(next);
                l = l + 1;
                proof {
                    assert(prefix.deep_view() =~= av.take(l as int));
                }
            },
        }
    }
}

} // verus!
