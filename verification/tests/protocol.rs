use soksak_sidecar_speech_sherpa::backend::{Backend, SupertonicBackend};
use soksak_sidecar_speech_sherpa::engine::TtsEngine;
use soksak_sidecar_speech_sherpa::protocol::{bad_request, Reply, Request, Service, Step, TtsJob};

fn sherpa_service() -> Service {
    Service {
        engine: "vits".to_string(),
        model: "/m/model.onnx".to_string(),
        backend: Backend::Sherpa(TtsEngine::created(22050, 1)),
    }
}

fn req(id: u64, op: &str) -> Request {
    Request { id, op: op.to_string(), text: None, lang: None, sid: None, stream: None }
}

fn job(streaming: bool) -> TtsJob {
    TtsJob { id: 7, streaming, sample_rate: 22050, chunks: 0, whole: Vec::new() }
}

fn b64(bytes: &[u8]) -> String {
    const A: &[u8] = b"ABCDEFGHIJKLMNOPQRSTUVWXYZabcdefghijklmnopqrstuvwxyz0123456789+/";
    let mut out = String::new();
    for c in bytes.chunks(3) {
        let n = c.len();
        let v = (c[0] as u32) << 16 | (if n > 1 { c[1] as u32 } else { 0 }) << 8 | (if n > 2 { c[2] as u32 } else { 0 });
        out.push(A[(v >> 18) as usize & 63] as char);
        out.push(A[(v >> 12) as usize & 63] as char);
        out.push(if n > 1 { A[(v >> 6) as usize & 63] as char } else { '=' });
        out.push(if n > 2 { A[v as usize & 63] as char } else { '=' });
    }
    out
}

#[test]
fn info_reports_the_service() {
    match sherpa_service().handle(req(3, "info")) {
        Step::Reply(r) => assert_eq!(
            r,
            Reply::Info {
                id: 3,
                spec: "soksak-spec-sidecar-speech".to_string(),
                engine: "vits".to_string(),
                model: "/m/model.onnx".to_string(),
                sample_rate: 22050,
                num_speakers: 1,
                styles: vec![],
                ops: vec!["info".to_string(), "tts".to_string()],
                stream: true,
            }
        ),
        _ => panic!("expected a reply"),
    }
}

#[test]
fn info_lists_supertonic_styles() {
    let svc = Service {
        engine: "supertonic".to_string(),
        model: "/m/onnx".to_string(),
        backend: Backend::Supertonic(
            SupertonicBackend::new(vec!["F1".to_string(), "M1".to_string()], 44100, "/m/voice_styles").ok().unwrap(),
        ),
    };
    match svc.handle(req(1, "info")) {
        Step::Reply(Reply::Info { styles, num_speakers, sample_rate, .. }) => {
            assert_eq!(styles, vec!["F1".to_string(), "M1".to_string()]);
            assert_eq!((num_speakers, sample_rate), (2, 44100));
        }
        _ => panic!("expected info"),
    }
}

#[test]
fn tts_without_text_is_refused() {
    let svc = sherpa_service();
    for text in [None, Some(""), Some("  \n")] {
        let mut r = req(9, "tts");
        r.text = text.map(|t| t.to_string());
        match svc.handle(r) {
            Step::Reply(x) => assert_eq!(x, Reply::Failure { id: 9, message: "text required".to_string() }),
            _ => panic!("expected a refusal"),
        }
    }
}

#[test]
fn tts_defaults() {
    let mut r = req(4, "tts");
    r.text = Some("hello".to_string());
    match sherpa_service().handle(r) {
        Step::Synthesize(s) => {
            assert_eq!(s.text, "hello");
            assert_eq!(s.lang, "en");
            assert_eq!(s.sid, 0);
            assert_eq!((s.job.id, s.job.streaming, s.job.sample_rate, s.job.chunks), (4, false, 22050, 0));
            assert!(s.job.whole.is_empty());
        }
        _ => panic!("expected a synthesis"),
    }
}

#[test]
fn tts_with_options() {
    let mut r = req(5, "tts");
    r.text = Some("안녕하세요".to_string());
    r.lang = Some("ko".to_string());
    r.sid = Some(2);
    r.stream = Some(true);
    match sherpa_service().handle(r) {
        Step::Synthesize(s) => {
            assert_eq!((s.lang.as_str(), s.sid, s.job.streaming), ("ko", 2, true));
        }
        _ => panic!("expected a synthesis"),
    }
}

#[test]
fn unknown_op_is_refused() {
    match sherpa_service().handle(req(6, "asr")) {
        Step::Reply(x) => assert_eq!(x, Reply::Failure { id: 6, message: "unknown op: asr".to_string() }),
        _ => panic!("expected a refusal"),
    }
}

#[test]
fn bad_request_line() {
    assert_eq!(
        bad_request("expected value at line 1 column 1"),
        Reply::Failure { id: 0, message: "bad request: expected value at line 1 column 1".to_string() }
    );
}

#[test]
fn streamed_chunks_are_numbered_and_counted() {
    let mut j = job(true);
    let a: Vec<i16> = vec![1, -1, 300];
    let b: Vec<i16> = vec![7];
    assert_eq!(
        j.on_chunk(&a),
        Some(Reply::Chunk { id: 7, chunk: 1, sample_rate: 22050, pcm_base64: b64(&[1, 0, 0xff, 0xff, 0x2c, 1]) })
    );
    assert_eq!(j.on_chunk(&b), Some(Reply::Chunk { id: 7, chunk: 2, sample_rate: 22050, pcm_base64: "BwA=".to_string() }));
    assert_eq!(j.finish(Ok(4)), Reply::Done { id: 7, chunks: 2, num_samples: 4, sample_rate: 22050 });
}

#[test]
fn whole_audio_is_one_wav() {
    let mut j = job(false);
    assert_eq!(j.on_chunk(&[1, 2]), None);
    assert_eq!(j.on_chunk(&[]), None);
    assert_eq!(j.on_chunk(&[-3]), None);
    assert_eq!(j.whole, vec![1, 2, -3]);
    let wav = soksak_sidecar_speech_sherpa::wav::wav_encode(&[1, 2, -3], 22050);
    assert_eq!(
        j.finish(Ok(3)),
        Reply::Audio { id: 7, sample_rate: 22050, num_samples: 3, wav_base64: b64(&wav) }
    );
}

#[test]
fn failed_synthesis() {
    assert_eq!(
        job(true).finish(Err("generate(streamed) returned null".to_string())),
        Reply::TtsFailed { id: 7, message: "tts failed: generate(streamed) returned null".to_string() }
    );
    assert_eq!(
        job(false).finish(Err("x".to_string())),
        Reply::TtsFailed { id: 7, message: "tts failed: x".to_string() }
    );
}

#[test]
fn base64_padding() {
    let mut j = job(true);
    // one sample: two bytes, one padding char
    match j.on_chunk(&[0x6261]) {
        Some(Reply::Chunk { pcm_base64, .. }) => assert_eq!(pcm_base64, "YWI="),
        _ => panic!("expected a chunk"),
    }
    // three samples: six bytes, no padding
    match j.on_chunk(&[0x6261, 0x6463, 0x6665]) {
        Some(Reply::Chunk { pcm_base64, .. }) => assert_eq!(pcm_base64, "YWJjZGVm"),
        _ => panic!("expected a chunk"),
    }
}
