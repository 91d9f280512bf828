use rpix::error::{LoadError, PagesError};
use rpix::orchestrate::{
    exit_code, plan_run, shows_as_text, ConfigError, InputSource, Outcome, RunPlan,
};

fn source_and_pages(plan: RunPlan) -> (InputSource, Option<Vec<u16>>) {
    match plan {
        RunPlan::Load { source, pages } => (source, pages),
        _ => panic!("no load"),
    }
}

fn rejection(plan: RunPlan) -> ConfigError {
    match plan {
        RunPlan::Reject(e) => e,
        _ => panic!("not rejected"),
    }
}

#[test]
fn plan_clear_comes_first() {
    assert!(matches!(plan_run(true, false, false, false, 0, None), RunPlan::Clear));
    assert!(matches!(plan_run(true, true, true, true, 9, Some("x")), RunPlan::Clear));
}

#[test]
fn plan_reads_piped_input() {
    assert_eq!(
        source_and_pages(plan_run(false, true, false, false, 0, None)),
        (InputSource::Stdin, None)
    );
    // piped input wins over files
    assert_eq!(
        source_and_pages(plan_run(false, true, false, true, 3, Some("2"))),
        (InputSource::Stdin, Some(vec![1]))
    );
}

#[test]
fn plan_forced_terminal_ignores_piped_input() {
    assert_eq!(
        source_and_pages(plan_run(false, true, true, false, 1, None)),
        (InputSource::Files, None)
    );
    assert_eq!(rejection(plan_run(false, true, true, false, 0, None)), ConfigError::NoInput);
}

#[test]
fn plan_reads_files() {
    assert_eq!(
        source_and_pages(plan_run(false, false, false, false, 3, None)),
        (InputSource::Files, None)
    );
    assert_eq!(
        source_and_pages(plan_run(false, false, false, true, 1, Some("1-3,34"))),
        (InputSource::Files, Some(vec![0, 1, 2, 33]))
    );
    assert_eq!(
        source_and_pages(plan_run(false, false, false, false, 1, Some(" , "))),
        (InputSource::Files, None)
    );
}

#[test]
fn plan_rejects_several_files_for_one_output() {
    assert_eq!(
        rejection(plan_run(false, false, false, true, 2, None)),
        ConfigError::MultipleFilesWithOutput
    );
    assert_eq!(
        rejection(plan_run(false, false, false, true, 2, Some("x"))),
        ConfigError::MultipleFilesWithOutput
    );
}

#[test]
fn plan_rejects_several_files_with_pages() {
    assert_eq!(
        rejection(plan_run(false, false, false, false, 2, Some("1"))),
        ConfigError::MultipleFilesWithPages
    );
    // the selection is not even read
    assert_eq!(
        rejection(plan_run(false, false, false, false, 2, Some("x"))),
        ConfigError::MultipleFilesWithPages
    );
}

#[test]
fn plan_rejects_bad_pages() {
    assert_eq!(
        rejection(plan_run(false, false, false, false, 1, Some("3-2"))),
        ConfigError::InvalidPages(PagesError::InvalidRange)
    );
    assert_eq!(
        rejection(plan_run(false, true, false, false, 5, Some("0"))),
        ConfigError::InvalidPages(PagesError::ZeroIndex)
    );
    // before the missing input is noticed
    assert_eq!(
        rejection(plan_run(false, false, false, false, 0, Some("x"))),
        ConfigError::InvalidPages(PagesError::InvalidNumber)
    );
}

#[test]
fn plan_rejects_missing_input() {
    assert_eq!(rejection(plan_run(false, false, false, false, 0, None)), ConfigError::NoInput);
    assert_eq!(rejection(plan_run(false, false, false, true, 0, Some("1"))), ConfigError::NoInput);
}

#[test]
fn text_is_shown_only_for_undecodable_input_without_output() {
    assert!(shows_as_text(LoadError::DecodeFailed, false));
    assert!(!shows_as_text(LoadError::DecodeFailed, true));
    assert!(!shows_as_text(LoadError::InvalidImage, false));
    assert!(!shows_as_text(LoadError::TextUnsupported, false));
}

#[test]
fn exit_code_is_zero_only_if_all_were_shown() {
    assert_eq!(exit_code(&[]), 0);
    assert_eq!(exit_code(&[Outcome::Shown, Outcome::Shown]), 0);
    assert_eq!(exit_code(&[Outcome::Shown, Outcome::DecodeFailure, Outcome::Shown]), 1);
    assert_eq!(exit_code(&[Outcome::RenderFailure]), 1);
}

#[test]
fn config_error_messages() {
    assert_eq!(
        ConfigError::MultipleFilesWithOutput.message(),
        "Cannot specify multiple files with --output"
    );
    assert_eq!(
        ConfigError::MultipleFilesWithPages.message(),
        "Cannot specify multiple files with --pages"
    );
    assert_eq!(ConfigError::InvalidPages(PagesError::ZeroIndex).message(), "Invalid page range");
    assert_eq!(
        ConfigError::NoInput.message(),
        "No input files provided and no data piped to stdin."
    );
}
