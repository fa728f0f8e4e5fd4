//! The synthesis backends as plain values: a sherpa engine or a Supertonic
//! model with its named voice styles, and how a request picks the language
//! and the voice style.
use vstd::prelude::*;
use vstd::utf8::{encode_utf8, decode_utf8, is_char_boundary};
use crate::engine::TtsEngine;

verus! {

/// A Supertonic model with its voice styles, named after their files in
/// byte order of the file names; a speaker number picks one of them.
pub struct SupertonicBackend {
    styles: Vec<String>,
    sample_rate: u32,
}

impl SupertonicBackend {
    /// A Supertonic backend has at least one voice style.
    #[verifier::type_invariant]
    spec fn has_styles(self) -> bool {
        self.styles@.len() > 0
    }

    /// The sample rate of the model.
    pub closed spec fn rate(self) -> u32 {
        self.sample_rate
    }

    /// The names of the voice styles, in speaker order.
    pub closed spec fn style_list(self) -> Seq<Seq<char>> {
        self.styles@.map_values(|s: String| s@)
    }

    /// The backend with these voice styles, or the error that reports an
    /// empty `voice_styles` directory `styles_dir`.
    pub fn new(styles: Vec<String>, sample_rate: u32, styles_dir: &str) -> (r: Result<SupertonicBackend, crate::engine::OpenError>)
        ensures
            styles@.len() == 0 <==> r is Err,
            r matches Err(e) ==> (e matches crate::engine::OpenError::NoVoiceStyles(d) && d@ == styles_dir@),
            r matches Ok(b) ==> b.style_list() == styles@.map_values(|s: String| s@) && b.rate() == sample_rate,
    {
        if styles.len() == 0 {
            Err(crate::engine::OpenError::NoVoiceStyles(styles_dir.to_owned()))
        } else {
            Ok(SupertonicBackend { styles, sample_rate })
        }
    }

    /// The sample rate of the model.
    pub fn sample_rate(&self) -> (r: u32)
        ensures
            r == self.rate(),
    {
        self.sample_rate
    }

    /// The number of voice styles; never zero.
    pub fn style_count(&self) -> (r: usize)
        ensures
            r == self.style_list().len(),
            r > 0,
    {
        proof {
            use_type_invariant(self);
        }
        self.styles.len()
    }

    /// The names of the voice styles.
    pub fn names(&self) -> (r: Vec<String>)
        ensures
            r@.map_values(|s: String| s@) == self.style_list(),
    {
        let mut out: Vec<String> = Vec::new();
        let n = self.styles.len();
        for i in 0..n
            invariant
                n == self.styles@.len(),
                out@.len() == i,
                forall|j: int| 0 <= j < i ==> #[trigger] out@[j]@ == self.styles@[j]@,
        {
            out.push(self.styles[i].clone());
        }
        assert(out@.map_values(|s: String| s@) =~= self.style_list());
        out
    }

    /// The voice style that speaker `sid` selects.
    pub fn style_index(&self, sid: i32) -> (r: usize)
        ensures
            r == style_index_of(sid, self.style_list().len()),
            r < self.style_list().len(),
    {
        let n = self.style_count();
        clamp_style_index(sid, n)
    }
}

/// A speaker number selects a voice style: negative numbers select the
/// first, numbers past the last style select the last.
pub open spec fn style_index_of(sid: i32, n: nat) -> int {
    if sid < 0 {
        0
    } else if sid >= n {
        n - 1
    } else {
        sid as int
    }
}

/// A speaker number picks its own voice style when there is one: numbers
/// from 0 to `n - 1` select that style, only negative numbers select the
/// first, and only numbers past the last style select the last.
pub proof fn lemma_style_index_picks_own(sid: i32, n: nat)
    requires
        n > 0,
    ensures
        0 <= sid < n ==> style_index_of(sid, n) == sid,
        sid < 0 ==> style_index_of(sid, n) == 0,
        sid >= n ==> style_index_of(sid, n) == n - 1,
        0 <= style_index_of(sid, n) < n,
{
}

/// The voice style index for speaker `sid` among `n` styles.
pub fn clamp_style_index(sid: i32, n: usize) -> (r: usize)
    requires
        n > 0,
    ensures
        r == style_index_of(sid, n as nat),
        r < n,
{
    let s: usize = if sid < 0 { 0 } else { sid as usize };
    if s < n - 1 { s } else { n - 1 }
}

/// Which kind of backend an engine name opens.
pub enum BackendKind {
    /// `supertonic`: a Supertonic model directory (`onnx/` and `voice_styles/`).
    Supertonic,
    /// Any other engine name: a sherpa model, which refuses names other than
    /// `vits` and `kokoro`.
    Sherpa,
}

/// The kind of backend that the engine name `engine` opens.
pub fn backend_kind(engine: &str) -> (r: BackendKind)
    ensures
        r is Supertonic <==> engine@ == "supertonic"@,
{
    if crate::text::same_text(engine, "supertonic") {
        BackendKind::Supertonic
    } else {
        BackendKind::Sherpa
    }
}

/// The directory of a Supertonic model that holds its ONNX files.
pub fn supertonic_onnx_dir() -> (r: String)
    ensures
        r@ == "onnx"@,
{
    String::from_str("onnx")
}

/// The directory of a Supertonic model that holds its voice styles.
pub fn supertonic_styles_dir() -> (r: String)
    ensures
        r@ == "voice_styles"@,
{
    String::from_str("voice_styles")
}

/// A synthesis backend.
pub enum Backend {
    Sherpa(TtsEngine),
    Supertonic(SupertonicBackend),
}

/// The sample rate of the audio that a backend produces.
pub open spec fn sample_rate_of(b: Backend) -> u32 {
    match b {
        Backend::Sherpa(e) => e.sample_rate,
        Backend::Supertonic(s) => s.rate(),
    }
}

/// The number of speakers of a backend: what a sherpa engine reports, but at
/// least one; the number of voice styles of a Supertonic model.
pub open spec fn num_speakers_of(b: Backend) -> i32 {
    match b {
        Backend::Sherpa(e) => if e.num_speakers < 1 { 1 } else { e.num_speakers },
        Backend::Supertonic(s) => s.style_list().len() as i32,
    }
}

/// The names of the voice styles of a backend: none for a sherpa engine.
pub open spec fn style_names_of(b: Backend) -> Seq<Seq<char>> {
    match b {
        Backend::Sherpa(_) => Seq::<Seq<char>>::empty(),
        Backend::Supertonic(s) => s.style_list(),
    }
}

/// What `info` reports of a backend agrees with itself: a Supertonic model
/// has one speaker per voice style, and a sherpa engine, which names no
/// styles, has at least one speaker: as many as the engine reports, where it
/// reports any.
pub proof fn lemma_speakers_match_styles(b: Backend)
    requires
        style_names_of(b).len() <= i32::MAX,
    ensures
        b is Supertonic ==> num_speakers_of(b) == style_names_of(b).len(),
        b is Sherpa ==> style_names_of(b).len() == 0 && num_speakers_of(b) >= 1,
        b matches Backend::Sherpa(e) ==> (e.num_speakers >= 1 ==> num_speakers_of(b) == e.num_speakers),
{
}

impl Backend {
    /// The sample rate of the audio that the backend produces.
    pub fn sample_rate(&self) -> (r: u32)
        ensures
            r == sample_rate_of(*self),
    {
        match self {
            Backend::Sherpa(e) => e.sample_rate,
            Backend::Supertonic(b) => b.sample_rate(),
        }
    }

    /// The number of speakers: what a sherpa engine reports, but at least
    /// one; the number of voice styles of a Supertonic model.
    pub fn num_speakers(&self) -> (r: i32)
        ensures
            r == num_speakers_of(*self),
            (match self {
                Backend::Supertonic(b) => b.style_list().len() <= i32::MAX,
                Backend::Sherpa(_) => true,
            }) ==> r >= 1,
    {
        match self {
            Backend::Sherpa(e) => if e.num_speakers < 1 { 1 } else { e.num_speakers },
            Backend::Supertonic(b) => b.style_count() as i32,
        }
    }

    /// The names of the voice styles: none for a sherpa engine.
    pub fn style_names(&self) -> (r: Vec<String>)
        ensures
            r@.map_values(|s: String| s@) == style_names_of(*self),
    {
        match self {
            Backend::Sherpa(_) => {
                let r: Vec<String> = Vec::new();
                assert(r@.map_values(|s: String| s@) =~= Seq::<Seq<char>>::empty());
                r
            },
            Backend::Supertonic(b) => b.names(),
        }
    }
}

/// The lowercase form of a text, by the Unicode `Lowercase` mapping.
pub uninterp spec fn lowercase(s: Seq<char>) -> Seq<char>;

/// ASCII lowercasing: `A`..`Z` become `a`..`z`, every other char stays.
pub open spec fn ascii_lower(s: Seq<char>) -> Seq<char> {
    s.map_values(|c: char| if 'A' <= c && c <= 'Z' { ((c as u32) + 32) as char } else { c })
}

/// `str::to_lowercase`: the text mapped by Unicode lowercasing. The mapping
/// is given by a name; its tables are not written out here. On ASCII text
/// it is the ASCII lowercasing, as the Unicode mapping is there.
#[verifier::external_body]
fn to_lowercase(s: &str) -> (r: String)
    ensures
        r@ == lowercase(s@),
        vstd::utf8::is_ascii_chars(s@) ==> r@ == ascii_lower(s@),
{
    s.to_lowercase()
}

/// The language prefix of a Supertonic request: the first two bytes (fewer
/// where `lang` is shorter) of the lowercase language. It is none where the
/// cut is no char boundary of the lowercase text (inside a char or past its
/// end), the inputs on which slicing the text would panic.
pub open spec fn lang_prefix_of(lang: Seq<char>) -> Option<Seq<char>> {
    let low = encode_utf8(lowercase(lang));
    let k = if encode_utf8(lang).len() < 2 { encode_utf8(lang).len() as int } else { 2int };
    if is_char_boundary(low, k) {
        Some(decode_utf8(low.take(k)))
    } else {
        None
    }
}

/// An ASCII language is always cut: its prefix is its first two chars (all
/// of it where shorter), in ASCII lowercase.
proof fn lemma_ascii_prefix(lang: Seq<char>)
    requires
        vstd::utf8::is_ascii_chars(lang),
        lowercase(lang) == ascii_lower(lang),
    ensures
        lang_prefix_of(lang) == Some(ascii_lower(lang).take(if lang.len() < 2 { lang.len() as int } else { 2int })),
{
    let low = ascii_lower(lang);
    let k: int = if lang.len() < 2 { lang.len() as int } else { 2int };
    assert(vstd::utf8::is_ascii_chars(low)) by {
        assert forall|i: int| 0 <= i < low.len() implies '\0' <= #[trigger] low[i] <= '\u{7f}' by {
            assert('\0' <= lang[i] <= '\u{7f}');
        }
    }
    vstd::utf8::is_ascii_chars_encode_utf8(lang);
    vstd::utf8::is_ascii_chars_encode_utf8(low);
    let b = encode_utf8(low);
    vstd::utf8::encode_utf8_valid_utf8(low);
    assert(is_char_boundary(b, k)) by {
        if k == b.len() {
            vstd::utf8::is_char_boundary_start_end_of_seq(b);
        } else if k > 0 {
            vstd::utf8::is_char_boundary_iff_is_leading_byte(b, k);
            assert(b[k] == low[k] as u8);
        }
    }
    let t = low.take(k);
    assert(vstd::utf8::is_ascii_chars(t));
    vstd::utf8::is_ascii_chars_encode_utf8(t);
    assert(encode_utf8(t) =~= b.take(k));
    vstd::utf8::encode_utf8_decode_utf8(t);
}

/// The two-letter language prefix of `lang`.
pub fn lang_prefix(lang: &str) -> (r: Option<String>)
    ensures
        match r {
            Some(p) => lang_prefix_of(lang@) == Some(p@),
            None => lang_prefix_of(lang@) is None,
        },
        vstd::utf8::is_ascii_chars(lang@) ==> (r matches Some(p)
            && p@ == ascii_lower(lang@).take(if lang@.len() < 2 { lang@.len() as int } else { 2int })),
{
    let low = to_lowercase(lang);
    proof {
        if vstd::utf8::is_ascii_chars(lang@) {
            lemma_ascii_prefix(lang@);
        }
    }
    let lang_len = lang.as_bytes().len();
    let k: usize = if lang_len < 2 { lang_len } else { 2 };
    let low_s = low.as_str();
    if low_s.is_char_boundary(k) {
        let (head, _) = low_s.split_at(k);
        proof {
            vstd::utf8::encode_utf8_decode_utf8(head@);
            assert(low_s@ == low@);
            assert(vstd::string::StringSliceAdditionalSpecFns::spec_bytes(head) == encode_utf8(head@));
            assert(encode_utf8(low@).subrange(0, k as int) =~= encode_utf8(low@).take(k as int));
            assert(decode_utf8(encode_utf8(lowercase(lang@)).take(k as int)) == head@);
        }
        Some(head.to_owned())
    } else {
        None
    }
}

/// The language that Supertonic synthesizes in: the prefix where Supertonic
/// supports it, and English otherwise.
pub fn resolve_lang(prefix: String, supported: bool) -> (r: String)
    ensures
        r@ == (if supported { prefix@ } else { "en"@ }),
{
    if supported {
        prefix
    } else {
        String::from_str("en")
    }
}

} // verus!
