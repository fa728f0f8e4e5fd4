//! The sherpa-onnx engine as plain values: which configuration it is created
//! with, what it reports once created, and why opening a model can fail.
use vstd::prelude::*;
use crate::text::same_text;

verus! {

/// The sherpa model family and what only that family is configured with.
pub enum SherpaModel {
    /// A VITS model.
    Vits,
    /// A Kokoro model with its voices file and language.
    Kokoro { voices: String, lang: String },
}

/// The configuration that `SherpaOnnxCreateOfflineTts` receives, except its
/// float parameters (noise, length and silence scales), which the caller adds.
pub struct SherpaConfig {
    pub model_kind: SherpaModel,
    pub model: String,
    pub tokens: String,
    pub lexicon: String,
    pub data_dir: String,
    pub dict_dir: String,
    pub provider: String,
    pub num_threads: i32,
    pub debug: i32,
    /// 1: the engine hands over every sentence as soon as it is synthesized.
    pub max_num_sentences: i32,
    pub rule_fsts: String,
    pub rule_fars: String,
}

/// Why a model could not be opened.
pub enum OpenError {
    /// The engine is none of `vits`, `kokoro` (and `supertonic`).
    UnknownEngine(String),
    /// The model directory holds no `.onnx` file.
    NoOnnxModel,
    /// The engine library refused the configuration.
    CreateFailed,
    /// The `voice_styles` directory (named) holds no voice style.
    NoVoiceStyles(String),
}

/// The text of an open error.
pub open spec fn open_error_text(e: OpenError) -> Seq<char> {
    match e {
        OpenError::UnknownEngine(engine) => "unknown engine: "@ + engine@ + " (vits|kokoro)"@,
        OpenError::NoOnnxModel => "no .onnx model in model dir"@,
        OpenError::CreateFailed => "SherpaOnnxCreateOfflineTts failed (model files?)"@,
        OpenError::NoVoiceStyles(dir) => "no voice styles in "@ + dir@,
    }
}

impl OpenError {
    /// The message that reports this error.
    pub fn message(&self) -> (r: String)
        ensures
            r@ == open_error_text(*self),
    {
        match self {
            OpenError::UnknownEngine(engine) => {
                let mut s = String::from_str("unknown engine: ");
                s.append(engine.as_str());
                s.append(" (vits|kokoro)");
                s
            },
            OpenError::NoOnnxModel => String::from_str("no .onnx model in model dir"),
            OpenError::CreateFailed => String::from_str("SherpaOnnxCreateOfflineTts failed (model files?)"),
            OpenError::NoVoiceStyles(dir) => {
                let mut s = String::from_str("no voice styles in ");
                s.append(dir.as_str());
                s
            },
        }
    }
}

/// The optional files that a sherpa model directory may hold, by the sherpa
/// conventions, in the order in which the configuration takes them: the
/// token table, the lexicon, the espeak-ng data directory, the dictionary
/// directory and (for Kokoro) the voices file.
pub open spec fn sherpa_file_names() -> Seq<Seq<char>> {
    seq!["tokens.txt"@, "lexicon.txt"@, "espeak-ng-data"@, "dict"@, "voices.bin"@]
}

/// The names of the optional files of a sherpa model directory.
pub fn sherpa_optional_files() -> (r: Vec<String>)
    ensures
        r@.map_values(|s: String| s@) == sherpa_file_names(),
{
    let mut r: Vec<String> = Vec::new();
    r.push(String::from_str("tokens.txt"));
    r.push(String::from_str("lexicon.txt"));
    r.push(String::from_str("espeak-ng-data"));
    r.push(String::from_str("dict"));
    r.push(String::from_str("voices.bin"));
    assert(r@.map_values(|s: String| s@) =~= sherpa_file_names());
    r
}

/// What was found for the `i`-th optional file: its path, or the empty
/// string where it is absent (or not listed).
pub open spec fn found_file(found: Seq<String>, i: int) -> Seq<char> {
    if 0 <= i < found.len() { found[i]@ } else { Seq::<char>::empty() }
}

/// The configuration for `engine` with the model file and, for each file of
/// `sherpa_file_names()` in turn, the path found for it in the model
/// directory (empty where absent); an engine other than `vits` and `kokoro`
/// is refused.
pub open spec fn sherpa_config_spec(
    engine: Seq<char>,
    model: Seq<char>,
    found: Seq<String>,
    r: Result<SherpaConfig, OpenError>,
) -> bool {
    if engine == "vits"@ || engine == "kokoro"@ {
        &&& r matches Ok(c)
        &&& (engine == "vits"@ ==> c.model_kind is Vits)
        &&& (engine == "kokoro"@ ==> (c.model_kind matches SherpaModel::Kokoro { voices: v, lang: l }
            && v@ == found_file(found, 4) && l@ == Seq::<char>::empty()))
        &&& c.model@ == model
        &&& c.tokens@ == found_file(found, 0)
        &&& c.lexicon@ == found_file(found, 1)
        &&& c.data_dir@ == found_file(found, 2)
        &&& c.dict_dir@ == found_file(found, 3)
        &&& c.provider@ == "cpu"@
        &&& c.num_threads == 2
        &&& c.debug == 0
        &&& c.max_num_sentences == 1
        &&& c.rule_fsts@ == Seq::<char>::empty()
        &&& c.rule_fars@ == Seq::<char>::empty()
    } else {
        r matches Err(OpenError::UnknownEngine(e)) && e@ == engine
    }
}

/// Each configuration field carries the file it is named for: whatever the
/// position of `tokens.txt`, `lexicon.txt`, `espeak-ng-data`, `dict` and
/// `voices.bin` among the conventional names, the path found at that
/// position is the token table, the lexicon, the data directory, the
/// dictionary directory and (for Kokoro) the voices file. With nothing found
/// for a file, its field is empty.
pub proof fn lemma_config_fields_follow_names(
    engine: Seq<char>,
    model: Seq<char>,
    found: Seq<String>,
    r: Result<SherpaConfig, OpenError>,
)
    requires
        sherpa_config_spec(engine, model, found, r),
        engine == "vits"@ || engine == "kokoro"@,
    ensures
        r is Ok,
        sherpa_file_names().len() == 5,
        forall|i: int| 0 <= i < 5 && sherpa_file_names()[i] == "tokens.txt"@ ==> r->Ok_0.tokens@ == found_file(found, i),
        forall|i: int| 0 <= i < 5 && sherpa_file_names()[i] == "lexicon.txt"@ ==> r->Ok_0.lexicon@ == found_file(found, i),
        forall|i: int| 0 <= i < 5 && sherpa_file_names()[i] == "espeak-ng-data"@ ==> r->Ok_0.data_dir@ == found_file(found, i),
        forall|i: int| 0 <= i < 5 && sherpa_file_names()[i] == "dict"@ ==> r->Ok_0.dict_dir@ == found_file(found, i),
        engine == "kokoro"@ ==> (r->Ok_0.model_kind matches SherpaModel::Kokoro { voices: v, .. } && forall|i: int|
            0 <= i < 5 && sherpa_file_names()[i] == "voices.bin"@ ==> v@ == found_file(found, i)),
        r->Ok_0.model@ == model,
        forall|i: int| 0 <= i < found.len() && found[i]@.len() == 0 ==> found_file(found, i).len() == 0,
        forall|i: int| i >= found.len() ==> found_file(found, i).len() == 0,
{
    reveal_strlit("tokens.txt");
    reveal_strlit("lexicon.txt");
    reveal_strlit("espeak-ng-data");
    reveal_strlit("dict");
    reveal_strlit("voices.bin");
    let names = sherpa_file_names();
    assert(names[0] != "lexicon.txt"@ && names[2] != "lexicon.txt"@ && names[3] != "lexicon.txt"@ && names[4] != "lexicon.txt"@) by {
        assert(names[0].len() != "lexicon.txt"@.len());
        assert(names[2].len() != "lexicon.txt"@.len());
        assert(names[3].len() != "lexicon.txt"@.len());
        assert(names[4].len() != "lexicon.txt"@.len());
    }
    assert(names[1] != "tokens.txt"@ && names[2] != "tokens.txt"@ && names[3] != "tokens.txt"@ && names[4] != "tokens.txt"@) by {
        assert(names[1].len() != "tokens.txt"@.len());
        assert(names[2].len() != "tokens.txt"@.len());
        assert(names[3].len() != "tokens.txt"@.len());
        assert(names[4][0] != "tokens.txt"@[0]);
    }
    assert(names[0] != "espeak-ng-data"@ && names[1] != "espeak-ng-data"@ && names[3] != "espeak-ng-data"@ && names[4] != "espeak-ng-data"@) by {
        assert(names[0].len() != "espeak-ng-data"@.len());
        assert(names[1].len() != "espeak-ng-data"@.len());
        assert(names[3].len() != "espeak-ng-data"@.len());
        assert(names[4].len() != "espeak-ng-data"@.len());
    }
    assert(names[0] != "dict"@ && names[1] != "dict"@ && names[2] != "dict"@ && names[4] != "dict"@) by {
        assert(names[0].len() != "dict"@.len());
        assert(names[1].len() != "dict"@.len());
        assert(names[2].len() != "dict"@.len());
        assert(names[4].len() != "dict"@.len());
    }
    assert(names[0] != "voices.bin"@ && names[1] != "voices.bin"@ && names[2] != "voices.bin"@ && names[3] != "voices.bin"@) by {
        assert(names[0][0] != "voices.bin"@[0]);
        assert(names[1].len() != "voices.bin"@.len());
        assert(names[2].len() != "voices.bin"@.len());
        assert(names[3].len() != "voices.bin"@.len());
    }
}

/// `vits` configures a VITS model, `kokoro` a Kokoro model, and any other
/// engine name is refused, naming the engine.
pub proof fn lemma_engine_names(
    engine: Seq<char>,
    model: Seq<char>,
    found: Seq<String>,
    r: Result<SherpaConfig, OpenError>,
)
    requires
        sherpa_config_spec(engine, model, found, r),
    ensures
        engine == "vits"@ ==> (r matches Ok(c) && c.model_kind is Vits),
        engine == "kokoro"@ ==> (r matches Ok(c) && c.model_kind is Kokoro),
        engine != "vits"@ && engine != "kokoro"@ ==> (r matches Err(OpenError::UnknownEngine(e)) && e@ == engine),
{
    reveal_strlit("vits");
    reveal_strlit("kokoro");
    assert("vits"@.len() != "kokoro"@.len());
}

fn found_at(found: &Vec<String>, i: usize) -> (r: String)
    ensures
        r@ == found_file(found@, i as int),
{
    if i < found.len() {
        found[i].clone()
    } else {
        String::new()
    }
}

/// Builds the sherpa configuration for `engine` from the model file and the
/// paths found for the optional files named by `sherpa_optional_files`.
pub fn sherpa_config(engine: &str, model: String, found: &Vec<String>) -> (r: Result<SherpaConfig, OpenError>)
    ensures
        sherpa_config_spec(engine@, model@, found@, r),
{
    proof {
        reveal_strlit("vits");
        reveal_strlit("kokoro");
        assert("vits"@.len() != "kokoro"@.len());
    }
    let model_kind = if same_text(engine, "vits") {
        SherpaModel::Vits
    } else if same_text(engine, "kokoro") {
        SherpaModel::Kokoro { voices: found_at(found, 4), lang: String::new() }
    } else {
        return Err(OpenError::UnknownEngine(engine.to_owned()));
    };
    Ok(SherpaConfig {
        model_kind,
        model,
        tokens: found_at(found, 0),
        lexicon: found_at(found, 1),
        data_dir: found_at(found, 2),
        dict_dir: found_at(found, 3),
        provider: String::from_str("cpu"),
        num_threads: 2,
        debug: 0,
        max_num_sentences: 1,
        rule_fsts: String::new(),
        rule_fars: String::new(),
    })
}

/// What a created sherpa engine reports of itself.
pub struct TtsEngine {
    pub sample_rate: u32,
    pub num_speakers: i32,
}

impl TtsEngine {
    /// The engine as created: its sample rate, which the engine library
    /// reports as a signed number, is taken as unsigned.
    pub fn created(reported_sample_rate: i32, num_speakers: i32) -> (r: TtsEngine)
        ensures
            r.sample_rate == reported_sample_rate as u32,
            r.num_speakers == num_speakers,
    {
        TtsEngine { sample_rate: reported_sample_rate as u32, num_speakers }
    }
}

/// The number of samples in generated audio whose reported count is `n`; a
/// negative count means none.
pub fn sample_count(n: i32) -> (r: usize)
    ensures
        r == (if n < 0 { 0 } else { n as int }),
{
    if n < 0 {
        0
    } else {
        n as usize
    }
}

} // verus!
