use soksak_sidecar_speech_sherpa::args::{parse_args, usage, ArgsError, ArgsOutcome};

fn v(a: &[&str]) -> Vec<String> {
    a.iter().map(|s| s.to_string()).collect()
}

fn run(a: &[&str]) -> (String, String) {
    match parse_args(&v(a)) {
        Ok(ArgsOutcome::Run(x)) => (x.engine, x.model_dir),
        _ => panic!("expected a run"),
    }
}

fn err(a: &[&str]) -> String {
    match parse_args(&v(a)) {
        Err(e) => e.message(),
        _ => panic!("expected an error"),
    }
}

#[test]
fn engine_defaults_to_vits() {
    assert_eq!(run(&["--model-dir", "/m"]), ("vits".to_string(), "/m".to_string()));
}

#[test]
fn engine_and_dir_in_any_order() {
    assert_eq!(run(&["--engine", "kokoro", "--model-dir", "d"]), ("kokoro".to_string(), "d".to_string()));
    assert_eq!(run(&["--model-dir", "d", "--engine", "supertonic"]), ("supertonic".to_string(), "d".to_string()));
}

#[test]
fn later_values_override_earlier() {
    assert_eq!(
        run(&["--model-dir", "a", "--engine", "x", "--model-dir", "b", "--engine", "y"]),
        ("y".to_string(), "b".to_string())
    );
}

#[test]
fn a_flag_takes_the_next_argument_whatever_it_is() {
    assert_eq!(run(&["--model-dir", "--engine"]), ("vits".to_string(), "--engine".to_string()));
}

#[test]
fn help_ends_parsing() {
    assert!(matches!(parse_args(&v(&["--help"])), Ok(ArgsOutcome::Help)));
    assert!(matches!(parse_args(&v(&["-h", "--bogus"])), Ok(ArgsOutcome::Help)));
    assert!(matches!(parse_args(&v(&["--model-dir", "d", "-h"])), Ok(ArgsOutcome::Help)));
}

#[test]
fn errors_and_their_messages() {
    assert_eq!(err(&[]), "--model-dir required");
    assert_eq!(err(&["--engine", "vits"]), "--model-dir required");
    assert_eq!(err(&["--engine"]), "--engine value missing");
    assert_eq!(err(&["--model-dir"]), "--model-dir value missing");
    assert_eq!(err(&["--verbose", "--help"]), "unknown argument: --verbose");
    assert!(matches!(parse_args(&v(&["x"])), Err(ArgsError::UnknownArgument(a)) if a == "x"));
}

#[test]
fn usage_line() {
    assert_eq!(usage(), "usage: soksak-sidecar-speech-sherpa --model-dir <dir> [--engine vits|kokoro|supertonic]");
}
