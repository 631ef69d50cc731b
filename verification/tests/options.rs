use stdbuf::check_option;
use stdbuf::resolve_matches;
use stdbuf::BufferMode;
use stdbuf::FatalError;
use stdbuf::ProgramOptions;
use stdbuf::RawMatches;
use stdbuf::ScanOutcome;

fn no_matches() -> RawMatches {
    RawMatches {
        help: false,
        version: false,
        input: None,
        output: None,
        error: None,
        free_count: 1,
    }
}

#[test]
fn zero_token_means_unbuffered_for_every_stream() {
    assert_eq!(check_option(&Some("0".to_string()), true), Ok(BufferMode::Unbuffered));
    assert_eq!(check_option(&Some("0".to_string()), false), Ok(BufferMode::Unbuffered));
}

#[test]
fn line_token_is_rejected_for_input_only() {
    assert_eq!(check_option(&Some("L".to_string()), true), Err(FatalError::LineBufferedInput));
    assert_eq!(check_option(&Some("L".to_string()), false), Ok(BufferMode::LineBuffered));
}

#[test]
fn absent_option_means_platform_default() {
    assert_eq!(check_option(&None, true), Ok(BufferMode::Default));
    assert_eq!(check_option(&None, false), Ok(BufferMode::Default));
}

#[test]
fn size_tokens_resolve_to_fixed_size() {
    assert_eq!(check_option(&Some("64MB".to_string()), false), Ok(BufferMode::FixedSize(64_000_000)));
    assert_eq!(check_option(&Some("4K".to_string()), true), Ok(BufferMode::FixedSize(4096)));
}

#[test]
fn invalid_mode_reports_the_offending_token() {
    assert_eq!(
        check_option(&Some("bogus".to_string()), false),
        Err(FatalError::InvalidMode("bogus".to_string()))
    );
}

#[test]
fn help_takes_precedence_over_everything() {
    let m = RawMatches {
        help: true,
        version: true,
        input: Some("not even a mode".to_string()),
        free_count: 7,
        ..no_matches()
    };
    assert_eq!(resolve_matches(&m), ScanOutcome::NeedsHelp);
}

#[test]
fn version_takes_precedence_over_mode_options() {
    let m = RawMatches { version: true, input: Some("bogus".to_string()), ..no_matches() };
    assert_eq!(resolve_matches(&m), ScanOutcome::NeedsVersion);
}

#[test]
fn missing_mode_option_is_fatal() {
    assert_eq!(
        resolve_matches(&no_matches()),
        ScanOutcome::Fatal(FatalError::MissingModeOption)
    );
}

#[test]
fn wrong_positional_count_is_retryable() {
    let m = RawMatches { output: Some("0".to_string()), free_count: 0, ..no_matches() };
    assert_eq!(resolve_matches(&m), ScanOutcome::Retryable);
    let m = RawMatches { output: Some("0".to_string()), free_count: 2, ..no_matches() };
    assert_eq!(resolve_matches(&m), ScanOutcome::Retryable);
}

#[test]
fn all_three_streams_resolve_independently() {
    let m = RawMatches {
        input: Some("0".to_string()),
        output: Some("64MB".to_string()),
        error: Some("L".to_string()),
        ..no_matches()
    };
    assert_eq!(
        resolve_matches(&m),
        ScanOutcome::Resolved(ProgramOptions {
            stdin: BufferMode::Unbuffered,
            stdout: BufferMode::FixedSize(64_000_000),
            stderr: BufferMode::LineBuffered,
        })
    );
}

#[test]
fn first_bad_stream_option_wins() {
    let m = RawMatches {
        input: Some("badin".to_string()),
        output: Some("badout".to_string()),
        ..no_matches()
    };
    assert_eq!(
        resolve_matches(&m),
        ScanOutcome::Fatal(FatalError::InvalidMode("badin".to_string()))
    );
}

#[test]
fn bad_mode_is_fatal_even_with_wrong_positional_count() {
    let m = RawMatches { output: Some("bogus".to_string()), free_count: 0, ..no_matches() };
    assert_eq!(
        resolve_matches(&m),
        ScanOutcome::Fatal(FatalError::InvalidMode("bogus".to_string()))
    );
}
