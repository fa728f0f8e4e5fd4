use soksak_sidecar_speech_sherpa::engine::{sample_count, sherpa_config, sherpa_optional_files, OpenError, SherpaModel, TtsEngine};

fn cfg(engine: &str) -> Result<soksak_sidecar_speech_sherpa::engine::SherpaConfig, OpenError> {
    let found = vec![
        "/m/tokens.txt".to_string(),
        "".to_string(),
        "/m/espeak-ng-data".to_string(),
        "".to_string(),
        "/m/voices.bin".to_string(),
    ];
    sherpa_config(engine, "/m/model.onnx".to_string(), &found)
}

#[test]
fn vits_configuration() {
    let c = cfg("vits").ok().unwrap();
    assert!(matches!(c.model_kind, SherpaModel::Vits));
    assert_eq!(c.model, "/m/model.onnx");
    assert_eq!(c.tokens, "/m/tokens.txt");
    assert_eq!(c.lexicon, "");
    assert_eq!(c.data_dir, "/m/espeak-ng-data");
    assert_eq!(c.dict_dir, "");
    assert_eq!(c.provider, "cpu");
    assert_eq!((c.num_threads, c.debug, c.max_num_sentences), (2, 0, 1));
    assert_eq!(c.rule_fsts, "");
    assert_eq!(c.rule_fars, "");
}

#[test]
fn kokoro_configuration() {
    let c = cfg("kokoro").ok().unwrap();
    match c.model_kind {
        SherpaModel::Kokoro { voices, lang } => {
            assert_eq!(voices, "/m/voices.bin");
            assert_eq!(lang, "");
        }
        _ => panic!("expected kokoro"),
    }
}

#[test]
fn unknown_engine_is_refused() {
    match cfg("matcha") {
        Err(e) => assert_eq!(e.message(), "unknown engine: matcha (vits|kokoro)"),
        Ok(_) => panic!("expected an error"),
    }
    assert!(cfg("VITS").is_err());
}

#[test]
fn open_error_messages() {
    assert_eq!(OpenError::NoOnnxModel.message(), "no .onnx model in model dir");
    assert_eq!(OpenError::CreateFailed.message(), "SherpaOnnxCreateOfflineTts failed (model files?)");
    assert_eq!(OpenError::NoVoiceStyles("/m/voice_styles".to_string()).message(), "no voice styles in /m/voice_styles");
}

#[test]
fn sample_counts() {
    assert_eq!(sample_count(-5), 0);
    assert_eq!(sample_count(0), 0);
    assert_eq!(sample_count(22050), 22050);
}

#[test]
fn engine_values() {
    let e = TtsEngine::created(24000, 3);
    assert_eq!((e.sample_rate, e.num_speakers), (24000, 3));
    assert_eq!(TtsEngine::created(-1, 1).sample_rate, u32::MAX);
}

#[test]
fn sherpa_file_conventions() {
    assert_eq!(sherpa_optional_files(), vec!["tokens.txt", "lexicon.txt", "espeak-ng-data", "dict", "voices.bin"]);
}

#[test]
fn missing_entries_are_absent_files() {
    let c = sherpa_config("vits", "m.onnx".to_string(), &vec!["t".to_string()]).ok().unwrap();
    assert_eq!((c.tokens.as_str(), c.lexicon.as_str(), c.dict_dir.as_str()), ("t", "", ""));
}
