//! The stdio JSON-lines protocol: one request per line is answered by one
//! reply line; a streamed `tts` request is answered by chunk lines as the
//! audio is synthesized, then a closing `done` line.
use vstd::prelude::*;
use crate::backend::{Backend, sample_rate_of, num_speakers_of, style_names_of};
use crate::base64::{base64_standard, base64_len, encode_standard};
use crate::text::{blank, is_blank, same_text};
use crate::wav::{pcm_bytes, pcm_s16le, wav_bytes, wav_encode, wav_fits};

verus! {

/// A request as the protocol reads it; the speed of a `tts` request is handed
/// to the synthesizer untouched and is not part of it.
pub struct Request {
    pub id: u64,
    pub op: String,
    pub text: Option<String>,
    pub lang: Option<String>,
    pub sid: Option<i32>,
    pub stream: Option<bool>,
}

/// A request over char sequences.
pub struct RequestView {
    pub id: u64,
    pub op: Seq<char>,
    pub text: Option<Seq<char>>,
    pub lang: Option<Seq<char>>,
    pub sid: Option<i32>,
    pub stream: Option<bool>,
}

/// The chars of an optional text.
pub open spec fn opt_view(s: Option<String>) -> Option<Seq<char>> {
    match s {
        Some(t) => Some(t@),
        None => None,
    }
}

impl View for Request {
    type V = RequestView;

    open spec fn view(&self) -> RequestView {
        RequestView {
            id: self.id,
            op: self.op@,
            text: opt_view(self.text),
            lang: opt_view(self.lang),
            sid: self.sid,
            stream: self.stream,
        }
    }
}

/// One reply line.
#[derive(Debug, PartialEq, Eq)]
pub enum Reply {
    /// `{"id","ok":false,"message"}`: a request that cannot be served.
    Failure { id: u64, message: String },
    /// `{"id","ok":true,"spec","engine","model","sampleRate","numSpeakers","styles","ops","stream"}`.
    Info {
        id: u64,
        spec: String,
        engine: String,
        model: String,
        sample_rate: u32,
        num_speakers: i32,
        styles: Vec<String>,
        ops: Vec<String>,
        stream: bool,
    },
    /// `{"id","ok":true,"chunk","sampleRate","pcmBase64"}`: streamed audio.
    Chunk { id: u64, chunk: u32, sample_rate: u32, pcm_base64: String },
    /// `{"id","ok":true,"done":true,"chunks","numSamples","sampleRate"}`: the end of a stream.
    Done { id: u64, chunks: u32, num_samples: usize, sample_rate: u32 },
    /// `{"id","ok":true,"sampleRate","numSamples","wavBase64"}`: the whole audio as WAV.
    Audio { id: u64, sample_rate: u32, num_samples: usize, wav_base64: String },
    /// `{"id","ok":false,"done":true,"message"}`: synthesis failed.
    TtsFailed { id: u64, message: String },
}

/// A reply over char sequences.
pub enum ReplyView {
    Failure { id: u64, message: Seq<char> },
    Info {
        id: u64,
        spec: Seq<char>,
        engine: Seq<char>,
        model: Seq<char>,
        sample_rate: u32,
        num_speakers: i32,
        styles: Seq<Seq<char>>,
        ops: Seq<Seq<char>>,
        stream: bool,
    },
    Chunk { id: u64, chunk: nat, sample_rate: u32, pcm_base64: Seq<char> },
    Done { id: u64, chunks: nat, num_samples: nat, sample_rate: u32 },
    Audio { id: u64, sample_rate: u32, num_samples: nat, wav_base64: Seq<char> },
    TtsFailed { id: u64, message: Seq<char> },
}

/// The chars of each string of a list.
pub open spec fn texts(v: Seq<String>) -> Seq<Seq<char>> {
    v.map_values(|s: String| s@)
}

impl View for Reply {
    type V = ReplyView;

    open spec fn view(&self) -> ReplyView {
        match *self {
            Reply::Failure { id, message } => ReplyView::Failure { id, message: message@ },
            Reply::Info { id, spec, engine, model, sample_rate, num_speakers, styles, ops, stream } =>
                ReplyView::Info {
                    id,
                    spec: spec@,
                    engine: engine@,
                    model: model@,
                    sample_rate,
                    num_speakers,
                    styles: texts(styles@),
                    ops: texts(ops@),
                    stream,
                },
            Reply::Chunk { id, chunk, sample_rate, pcm_base64 } =>
                ReplyView::Chunk { id, chunk: chunk as nat, sample_rate, pcm_base64: pcm_base64@ },
            Reply::Done { id, chunks, num_samples, sample_rate } =>
                ReplyView::Done { id, chunks: chunks as nat, num_samples: num_samples as nat, sample_rate },
            Reply::Audio { id, sample_rate, num_samples, wav_base64 } =>
                ReplyView::Audio { id, sample_rate, num_samples: num_samples as nat, wav_base64: wav_base64@ },
            Reply::TtsFailed { id, message } => ReplyView::TtsFailed { id, message: message@ },
        }
    }
}

/// The request id that a reply answers.
pub open spec fn reply_id(r: ReplyView) -> u64 {
    match r {
        ReplyView::Failure { id, .. } => id,
        ReplyView::Info { id, .. } => id,
        ReplyView::Chunk { id, .. } => id,
        ReplyView::Done { id, .. } => id,
        ReplyView::Audio { id, .. } => id,
        ReplyView::TtsFailed { id, .. } => id,
    }
}

/// The contract identifier that `info` reports.
pub open spec fn spec_name() -> Seq<char> {
    "soksak-spec-sidecar-speech"@
}

/// The operations that `info` reports.
pub open spec fn ops_list() -> Seq<Seq<char>> {
    seq!["info"@, "tts"@]
}

/// The reply to a line that is no request; `detail` says why.
pub open spec fn bad_request_spec(detail: Seq<char>) -> ReplyView {
    ReplyView::Failure { id: 0, message: "bad request: "@ + detail }
}

/// The reply to a line that does not parse as a request: id 0, not ok, and
/// a message that starts with `bad request: `.
pub fn bad_request(detail: &str) -> (r: Reply)
    ensures
        r@ == bad_request_spec(detail@),
{
    let mut message = String::from_str("bad request: ");
    message.append(detail);
    Reply::Failure { id: 0, message }
}

// ---------------------------------------------------------------------------
// Synthesis jobs

/// A `tts` request being synthesized: its id, whether it streams, the sample
/// rate, how many chunks it has sent, and the audio it holds back for one
/// WAV reply when it does not stream.
pub struct TtsJob {
    pub id: u64,
    pub streaming: bool,
    pub sample_rate: u32,
    pub chunks: u32,
    pub whole: Vec<i16>,
}

/// A job over mathematical values.
pub struct JobView {
    pub id: u64,
    pub streaming: bool,
    pub sample_rate: u32,
    pub chunks: nat,
    pub whole: Seq<i16>,
}

impl View for TtsJob {
    type V = JobView;

    open spec fn view(&self) -> JobView {
        JobView {
            id: self.id,
            streaming: self.streaming,
            sample_rate: self.sample_rate,
            chunks: self.chunks as nat,
            whole: self.whole@,
        }
    }
}

/// A job that has sent nothing yet.
pub open spec fn new_job(id: u64, streaming: bool, sample_rate: u32) -> JobView {
    JobView { id, streaming, sample_rate, chunks: 0, whole: Seq::empty() }
}

/// What a chunk of synthesized samples does to a job, and the line it sends:
/// a streaming job sends the chunk at once as base64 s16le, numbered from 1;
/// any other job keeps the samples for the end.
pub open spec fn chunk_spec(j: JobView, samples: Seq<i16>) -> (JobView, Option<ReplyView>) {
    if j.streaming {
        let k = j.chunks + 1;
        (
            JobView { chunks: k, ..j },
            Some(ReplyView::Chunk {
                id: j.id,
                chunk: k,
                sample_rate: j.sample_rate,
                pcm_base64: base64_standard(pcm_bytes(samples)),
            }),
        )
    } else {
        (JobView { whole: j.whole + samples, ..j }, None)
    }
}

/// The closing line of a job, given how synthesis ended: the sample count
/// that the synthesizer reports, or the text of its error.
pub open spec fn finish_spec(j: JobView, outcome: Result<nat, Seq<char>>) -> ReplyView {
    match outcome {
        Err(e) => ReplyView::TtsFailed { id: j.id, message: "tts failed: "@ + e },
        Ok(total) => if j.streaming {
            ReplyView::Done { id: j.id, chunks: j.chunks, num_samples: total, sample_rate: j.sample_rate }
        } else {
            ReplyView::Audio {
                id: j.id,
                sample_rate: j.sample_rate,
                num_samples: j.whole.len(),
                wav_base64: base64_standard(wav_bytes(j.whole, j.sample_rate)),
            }
        },
    }
}

/// The machine limits within which a chunk can be handled.
pub open spec fn chunk_fits(j: JobView, n: nat) -> bool {
    &&& n <= usize::MAX / 2
    &&& base64_len(2 * n) <= usize::MAX
    &&& (j.streaming ==> j.chunks < u32::MAX)
    &&& (!j.streaming ==> j.whole.len() + n <= usize::MAX)
}

/// The limits within which the WAV of a job's audio can be built: the 32-bit
/// header fields do not overflow and the base64 text fits in memory.
pub open spec fn audio_fits(j: JobView) -> bool {
    &&& wav_fits(j.whole.len(), j.sample_rate)
    &&& base64_len(44 + 2 * j.whole.len()) <= usize::MAX
}

/// An optional reply over char sequences.
pub open spec fn opt_reply(r: Option<Reply>) -> Option<ReplyView> {
    match r {
        Some(x) => Some(x@),
        None => None,
    }
}

/// The result of a job's outcome over mathematical values.
pub open spec fn outcome_view(o: Result<usize, String>) -> Result<nat, Seq<char>> {
    match o {
        Ok(n) => Ok(n as nat),
        Err(e) => Err(e@),
    }
}

impl TtsJob {
    /// Takes a chunk of synthesized samples (already converted to 16-bit);
    /// returns the line to send at once, if any.
    pub fn on_chunk(&mut self, samples: &[i16]) -> (r: Option<Reply>)
        requires
            chunk_fits(old(self)@, samples@.len()),
        ensures
            (final(self)@, opt_reply(r)) == chunk_spec(old(self)@, samples@),
    {
        if self.streaming {
            self.chunks = self.chunks + 1;
            let pcm = pcm_s16le(samples);
            let b64 = encode_standard(pcm.as_slice());
            Some(Reply::Chunk { id: self.id, chunk: self.chunks, sample_rate: self.sample_rate, pcm_base64: b64 })
        } else {
            let n = samples.len();
            for i in 0..n
                invariant
                    n == samples@.len(),
                    self.id == old(self).id,
                    self.streaming == old(self).streaming,
                    self.sample_rate == old(self).sample_rate,
                    self.chunks == old(self).chunks,
                    self.whole@ == old(self).whole@ + samples@.take(i as int),
            {
                self.whole.push(samples[i]);
                assert(self.whole@ =~= old(self).whole@ + samples@.take(i + 1));
            }
            assert(samples@.take(n as int) =~= samples@);
            None
        }
    }

    /// The closing line of the job once synthesis has ended with `outcome`.
    pub fn finish(self, outcome: Result<usize, String>) -> (r: Reply)
        requires
            outcome is Ok && !self.streaming ==> audio_fits(self@),
        ensures
            r@ == finish_spec(self@, outcome_view(outcome)),
    {
        match outcome {
            Err(e) => {
                let mut message = String::from_str("tts failed: ");
                message.append(e.as_str());
                Reply::TtsFailed { id: self.id, message }
            },
            Ok(total) => {
                if self.streaming {
                    Reply::Done { id: self.id, chunks: self.chunks, num_samples: total, sample_rate: self.sample_rate }
                } else {
                    let wav = wav_encode(self.whole.as_slice(), self.sample_rate);
                    let b64 = encode_standard(wav.as_slice());
                    Reply::Audio { id: self.id, sample_rate: self.sample_rate, num_samples: self.whole.len(), wav_base64: b64 }
                }
            },
        }
    }
}


// ---------------------------------------------------------------------------
// Requests

/// The running service: the engine it was started with, the model it
/// loaded, and the backend that synthesizes.
pub struct Service {
    pub engine: String,
    pub model: String,
    pub backend: Backend,
}

/// A `tts` request that is to be synthesized: the text, the language, the
/// speaker, and the job that turns the synthesized audio into reply lines.
pub struct Synthesis {
    pub text: String,
    pub lang: String,
    pub sid: i32,
    pub job: TtsJob,
}

/// What a request calls for: one reply line, or a synthesis.
pub enum Step {
    Reply(Reply),
    Synthesize(Synthesis),
}

/// A step over mathematical values.
pub enum StepView {
    Reply(ReplyView),
    Synthesize { text: Seq<char>, lang: Seq<char>, sid: i32, job: JobView },
}

impl View for Step {
    type V = StepView;

    open spec fn view(&self) -> StepView {
        match *self {
            Step::Reply(r) => StepView::Reply(r@),
            Step::Synthesize(s) => StepView::Synthesize { text: s.text@, lang: s.lang@, sid: s.sid, job: s.job@ },
        }
    }
}

/// The value of an option, or a default.
pub open spec fn or_else<T>(o: Option<T>, d: T) -> T {
    match o {
        Some(v) => v,
        None => d,
    }
}

/// What a request calls for. `info` is answered with what the service runs;
/// `tts` with a blank or missing text is refused, and otherwise synthesized
/// in the given language (`en` by default) by the given speaker (0 by
/// default), streamed only when asked; any other operation is refused.
pub open spec fn handle_spec(engine: Seq<char>, model: Seq<char>, backend: Backend, r: RequestView) -> StepView {
    if r.op == "info"@ {
        StepView::Reply(ReplyView::Info {
            id: r.id,
            spec: spec_name(),
            engine,
            model,
            sample_rate: sample_rate_of(backend),
            num_speakers: num_speakers_of(backend),
            styles: style_names_of(backend),
            ops: ops_list(),
            stream: true,
        })
    } else if r.op == "tts"@ {
        let text = or_else(r.text, Seq::<char>::empty());
        if blank(text) {
            StepView::Reply(ReplyView::Failure { id: r.id, message: "text required"@ })
        } else {
            StepView::Synthesize {
                text,
                lang: or_else(r.lang, "en"@),
                sid: or_else(r.sid, 0i32),
                job: new_job(r.id, or_else(r.stream, false), sample_rate_of(backend)),
            }
        }
    } else {
        StepView::Reply(ReplyView::Failure { id: r.id, message: "unknown op: "@ + r.op })
    }
}

impl Service {
    /// What the request calls for.
    pub fn handle(&self, req: Request) -> (r: Step)
        ensures
            r@ == handle_spec(self.engine@, self.model@, self.backend, req@),
    {
        proof {
            reveal_strlit("info");
            reveal_strlit("tts");
            assert("info"@.len() != "tts"@.len());
        }
        let id = req.id;
        if same_text(req.op.as_str(), "info") {
            let mut ops: Vec<String> = Vec::new();
            ops.push(String::from_str("info"));
            ops.push(String::from_str("tts"));
            assert(texts(ops@) =~= ops_list());
            let styles = self.backend.style_names();
            Step::Reply(Reply::Info {
                id,
                spec: String::from_str("soksak-spec-sidecar-speech"),
                engine: self.engine.clone(),
                model: self.model.clone(),
                sample_rate: self.backend.sample_rate(),
                num_speakers: self.backend.num_speakers(),
                styles,
                ops,
                stream: true,
            })
        } else if same_text(req.op.as_str(), "tts") {
            let text = match req.text {
                Some(t) => t,
                None => String::new(),
            };
            if is_blank(text.as_str()) {
                Step::Reply(Reply::Failure { id, message: String::from_str("text required") })
            } else {
                let lang = match req.lang {
                    Some(l) => l,
                    None => String::from_str("en"),
                };
                let sid = match req.sid {
                    Some(s) => s,
                    None => 0,
                };
                let streaming = match req.stream {
                    Some(b) => b,
                    None => false,
                };
                let job = TtsJob {
                    id,
                    streaming,
                    sample_rate: self.backend.sample_rate(),
                    chunks: 0,
                    whole: Vec::new(),
                };
                assert(job@ =~= new_job(id, streaming, sample_rate_of(self.backend)));
                Step::Synthesize(Synthesis { text, lang, sid, job })
            }
        } else {
            let mut message = String::from_str("unknown op: ");
            message.append(req.op.as_str());
            Step::Reply(Reply::Failure { id, message })
        }
    }
}


// ---------------------------------------------------------------------------
// Laws over whole exchanges

/// The job after the synthesizer has handed over the chunks `cs`, in order.
pub open spec fn run_chunks(j: JobView, cs: Seq<Seq<i16>>) -> JobView
    decreases cs.len(),
{
    if cs.len() == 0 {
        j
    } else {
        chunk_spec(run_chunks(j, cs.drop_last()), cs.last()).0
    }
}

/// The lines a job sends while the synthesizer hands over the chunks `cs`.
pub open spec fn sent_lines(j: JobView, cs: Seq<Seq<i16>>) -> Seq<ReplyView>
    decreases cs.len(),
{
    if cs.len() == 0 {
        Seq::empty()
    } else {
        let prev = sent_lines(j, cs.drop_last());
        match chunk_spec(run_chunks(j, cs.drop_last()), cs.last()).1 {
            Some(r) => prev.push(r),
            None => prev,
        }
    }
}

/// A stream sends one line per synthesized chunk, numbered 1, 2, ... in the
/// order of the chunks, each holding that chunk as base64 s16le; its closing
/// line counts exactly the chunks sent and reports the sample count of the
/// synthesizer.
pub proof fn lemma_stream_lines(j: JobView, cs: Seq<Seq<i16>>, total: nat)
    requires
        j.streaming,
        j.chunks == 0,
    ensures
        sent_lines(j, cs).len() == cs.len(),
        forall|i: int| 0 <= i < cs.len() ==> #[trigger] sent_lines(j, cs)[i] == (ReplyView::Chunk {
            id: j.id,
            chunk: (i + 1) as nat,
            sample_rate: j.sample_rate,
            pcm_base64: base64_standard(pcm_bytes(cs[i])),
        }),
        run_chunks(j, cs).chunks == cs.len(),
        finish_spec(run_chunks(j, cs), Ok(total)) == (ReplyView::Done {
            id: j.id,
            chunks: cs.len(),
            num_samples: total,
            sample_rate: j.sample_rate,
        }),
    decreases cs.len(),
{
    if cs.len() > 0 {
        lemma_stream_lines(j, cs.drop_last(), total);
        lemma_job_fixed(j, cs.drop_last());
    }
}

/// Handing over chunks changes neither the id, nor whether the job streams,
/// nor its sample rate.
pub proof fn lemma_job_fixed(j: JobView, cs: Seq<Seq<i16>>)
    ensures
        run_chunks(j, cs).id == j.id,
        run_chunks(j, cs).streaming == j.streaming,
        run_chunks(j, cs).sample_rate == j.sample_rate,
    decreases cs.len(),
{
    if cs.len() > 0 {
        lemma_job_fixed(j, cs.drop_last());
    }
}

/// A request that does not stream sends nothing while it is synthesized,
/// then one WAV of all the chunks, in order: its sample count is the sum of
/// the chunks' lengths, whatever count the synthesizer reports.
pub proof fn lemma_whole_audio(j: JobView, cs: Seq<Seq<i16>>, total: nat)
    requires
        !j.streaming,
        j.whole.len() == 0,
    ensures
        sent_lines(j, cs).len() == 0,
        run_chunks(j, cs).whole == cs.flatten(),
        finish_spec(run_chunks(j, cs), Ok(total)) == (ReplyView::Audio {
            id: j.id,
            sample_rate: j.sample_rate,
            num_samples: cs.flatten().len(),
            wav_base64: base64_standard(wav_bytes(cs.flatten(), j.sample_rate)),
        }),
    decreases cs.len(),
{
    lemma_job_fixed(j, cs);
    if cs.len() == 0 {
        assert(j.whole =~= Seq::<i16>::empty());
        assert(cs.flatten() =~= Seq::<i16>::empty());
    } else {
        lemma_whole_audio(j, cs.drop_last(), total);
        lemma_job_fixed(j, cs.drop_last());
        cs.drop_last().lemma_flatten_push(cs.last());
        assert(cs.drop_last().push(cs.last()) =~= cs);
    }
}

/// A `tts` request with a text that is not blank is synthesized: the text as
/// given, the language asked for or else `en`, the speaker asked for or else
/// 0; its job streams exactly when the request asks for a stream with
/// `stream: true` (not when it says `false`, nor when it says nothing), and
/// it starts with no chunk sent and no audio held, at the backend's rate.
/// A `tts` request with no text or a blank one is refused with
/// `text required`.
pub proof fn lemma_tts_request(engine: Seq<char>, model: Seq<char>, backend: Backend, r: RequestView)
    requires
        r.op == "tts"@,
    ensures
        (r.text is None || blank(r.text->0)) ==> handle_spec(engine, model, backend, r)
            == StepView::Reply(ReplyView::Failure { id: r.id, message: "text required"@ }),
        (r.text matches Some(t) && !blank(t)) ==> ({
            &&& handle_spec(engine, model, backend, r) matches StepView::Synthesize { text, lang, sid, job }
            &&& text == r.text->0
            &&& lang == (if r.lang is Some { r.lang->0 } else { "en"@ })
            &&& sid == (if r.sid is Some { r.sid->0 } else { 0i32 })
            &&& job.streaming == (r.stream == Some(true))
            &&& job.id == r.id
            &&& job.chunks == 0
            &&& job.whole.len() == 0
            &&& job.sample_rate == sample_rate_of(backend)
        }),
{
    reveal_strlit("info");
    reveal_strlit("tts");
    assert("info"@.len() != "tts"@.len());
    if r.text is None {
        assert(blank(Seq::<char>::empty()));
    }
}

/// An `info` request is answered, under its id, with the contract name
/// `soksak-spec-sidecar-speech`, the engine and model the service runs, the
/// backend's sample rate, speakers and styles, the operations `info` and
/// `tts`, and streaming support.
pub proof fn lemma_info_request(engine: Seq<char>, model: Seq<char>, backend: Backend, r: RequestView)
    requires
        r.op == "info"@,
    ensures
        handle_spec(engine, model, backend, r) == StepView::Reply(ReplyView::Info {
            id: r.id,
            spec: "soksak-spec-sidecar-speech"@,
            engine,
            model,
            sample_rate: sample_rate_of(backend),
            num_speakers: num_speakers_of(backend),
            styles: style_names_of(backend),
            ops: seq!["info"@, "tts"@],
            stream: true,
        }),
{
}

/// A request for any other operation is refused under its id, with a message
/// that names the operation after `unknown op: `.
pub proof fn lemma_other_request(engine: Seq<char>, model: Seq<char>, backend: Backend, r: RequestView)
    requires
        r.op != "info"@,
        r.op != "tts"@,
    ensures
        handle_spec(engine, model, backend, r) == StepView::Reply(ReplyView::Failure {
            id: r.id,
            message: "unknown op: "@ + r.op,
        }),
{
}

/// A synthesis that fails is answered, under the job's id, with a closing
/// line that is not ok and whose message is `tts failed: ` and the error,
/// whether or not the job streams.
pub proof fn lemma_failed_synthesis(j: JobView, e: Seq<char>)
    ensures
        finish_spec(j, Err(e)) == (ReplyView::TtsFailed { id: j.id, message: "tts failed: "@ + e }),
{
}

/// Every line sent in answer to a request carries the request's id: the
/// one reply, or every chunk line and the closing line of its synthesis,
/// however the synthesis goes.
pub proof fn lemma_lines_answer_request(
    engine: Seq<char>,
    model: Seq<char>,
    backend: Backend,
    r: RequestView,
    cs: Seq<Seq<i16>>,
    outcome: Result<nat, Seq<char>>,
)
    ensures
        match handle_spec(engine, model, backend, r) {
            StepView::Reply(x) => reply_id(x) == r.id,
            StepView::Synthesize { job, .. } => {
                &&& forall|i: int| 0 <= i < sent_lines(job, cs).len() ==> reply_id(#[trigger] sent_lines(job, cs)[i]) == r.id
                &&& reply_id(finish_spec(run_chunks(job, cs), outcome)) == r.id
            },
        },
{
    if let StepView::Synthesize { job, .. } = handle_spec(engine, model, backend, r) {
        lemma_sent_ids(job, cs);
        lemma_job_fixed(job, cs);
    }
}

proof fn lemma_sent_ids(j: JobView, cs: Seq<Seq<i16>>)
    ensures
        forall|i: int| 0 <= i < sent_lines(j, cs).len() ==> reply_id(#[trigger] sent_lines(j, cs)[i]) == j.id,
    decreases cs.len(),
{
    if cs.len() > 0 {
        lemma_sent_ids(j, cs.drop_last());
        lemma_job_fixed(j, cs.drop_last());
        let prev = sent_lines(j, cs.drop_last());
        let k = run_chunks(j, cs.drop_last());
        match chunk_spec(k, cs.last()).1 {
            Some(x) => {
                assert(sent_lines(j, cs) == prev.push(x));
                assert(reply_id(x) == j.id);
                assert forall|i: int| 0 <= i < sent_lines(j, cs).len() implies reply_id(#[trigger] sent_lines(j, cs)[i]) == j.id by {
                    if i < prev.len() {
                        assert(sent_lines(j, cs)[i] == prev[i]);
                    }
                }
            },
            None => {},
        }
    }
}

} // verus!
