use soksak_sidecar_speech_sherpa::backend::{backend_kind, supertonic_onnx_dir, supertonic_styles_dir, BackendKind, clamp_style_index, lang_prefix, resolve_lang, Backend, SupertonicBackend};
use soksak_sidecar_speech_sherpa::engine::{OpenError, TtsEngine};

fn supertonic(names: &[&str]) -> SupertonicBackend {
    SupertonicBackend::new(names.iter().map(|s| s.to_string()).collect(), 44100, "/m/voice_styles").ok().unwrap()
}

#[test]
fn sherpa_backend_reports_engine_values() {
    let b = Backend::Sherpa(TtsEngine::created(22050, 0));
    assert_eq!(b.sample_rate(), 22050);
    assert_eq!(b.num_speakers(), 1);
    assert!(b.style_names().is_empty());
    let b = Backend::Sherpa(TtsEngine::created(24000, 53));
    assert_eq!(b.num_speakers(), 53);
}

#[test]
fn supertonic_backend_reports_styles() {
    let b = Backend::Supertonic(supertonic(&["F1", "F2", "M1"]));
    assert_eq!(b.sample_rate(), 44100);
    assert_eq!(b.num_speakers(), 3);
    assert_eq!(b.style_names(), vec!["F1".to_string(), "F2".to_string(), "M1".to_string()]);
}

#[test]
fn supertonic_needs_a_style() {
    match SupertonicBackend::new(Vec::new(), 44100, "/m/voice_styles") {
        Err(OpenError::NoVoiceStyles(d)) => assert_eq!(d, "/m/voice_styles"),
        _ => panic!("expected an error"),
    }
}

#[test]
fn speaker_numbers_are_clamped() {
    assert_eq!(clamp_style_index(-3, 4), 0);
    assert_eq!(clamp_style_index(0, 4), 0);
    assert_eq!(clamp_style_index(2, 4), 2);
    assert_eq!(clamp_style_index(4, 4), 3);
    assert_eq!(clamp_style_index(i32::MAX, 1), 0);
    let b = supertonic(&["a", "b"]);
    assert_eq!(b.style_index(7), 1);
    assert_eq!(b.style_index(-1), 0);
}

#[test]
fn language_prefixes() {
    assert_eq!(lang_prefix("EN-US"), Some("en".to_string()));
    assert_eq!(lang_prefix("ko"), Some("ko".to_string()));
    assert_eq!(lang_prefix("K"), Some("k".to_string()));
    assert_eq!(lang_prefix(""), Some("".to_string()));
    assert_eq!(lang_prefix("é"), Some("é".to_string()));
    // the Kelvin sign lowercases to one byte: the cut falls past the end
    assert_eq!(lang_prefix("\u{212a}"), None);
    // a dotted capital I lowercases to three bytes: the cut falls inside a char
    assert_eq!(lang_prefix("\u{130}"), None);
}

#[test]
fn language_fallback() {
    assert_eq!(resolve_lang("ko".to_string(), true), "ko");
    assert_eq!(resolve_lang("xx".to_string(), false), "en");
}

#[test]
fn engine_names_pick_backends() {
    assert!(matches!(backend_kind("supertonic"), BackendKind::Supertonic));
    assert!(matches!(backend_kind("vits"), BackendKind::Sherpa));
    assert!(matches!(backend_kind("kokoro"), BackendKind::Sherpa));
    assert!(matches!(backend_kind("Supertonic"), BackendKind::Sherpa));
}

#[test]
fn supertonic_directories() {
    assert_eq!(supertonic_onnx_dir(), "onnx");
    assert_eq!(supertonic_styles_dir(), "voice_styles");
}

#[test]
fn ascii_languages_always_have_a_prefix() {
    assert_eq!(lang_prefix("FR-ca"), Some("fr".to_string()));
    assert_eq!(lang_prefix("E"), Some("e".to_string()));
    assert_eq!(lang_prefix("12x"), Some("12".to_string()));
}
