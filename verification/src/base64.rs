//! Base64 (RFC 4648, standard alphabet, with padding) through the `base64` crate.
use vstd::prelude::*;
use base64::Engine;

verus! {

/// The character of the standard alphabet for a 6-bit value.
pub open spec fn b64_char(v: int) -> char {
    if v < 26 {
        (65 + v) as char  // 'A'..'Z'
    } else if v < 52 {
        (97 + v - 26) as char  // 'a'..'z'
    } else if v < 62 {
        (48 + v - 52) as char  // '0'..'9'
    } else if v == 62 {
        '+'
    } else {
        '/'
    }
}

/// Standard base64 with `=` padding: each group of three bytes becomes four
/// characters; a final group of one or two bytes is padded to four.
pub open spec fn base64_standard(b: Seq<u8>) -> Seq<char>
    decreases b.len(),
{
    let b0 = if b.len() > 0 { b[0] as int } else { 0 };
    let b1 = if b.len() > 1 { b[1] as int } else { 0 };
    let b2 = if b.len() > 2 { b[2] as int } else { 0 };
    if b.len() == 0 {
        seq![]
    } else if b.len() == 1 {
        seq![b64_char(b0 / 4), b64_char((b0 % 4) * 16), '=', '=']
    } else if b.len() == 2 {
        seq![b64_char(b0 / 4), b64_char((b0 % 4) * 16 + b1 / 16), b64_char((b1 % 16) * 4), '=']
    } else {
        seq![
            b64_char(b0 / 4),
            b64_char((b0 % 4) * 16 + b1 / 16),
            b64_char((b1 % 16) * 4 + b2 / 64),
            b64_char(b2 % 64),
        ] + base64_standard(b.skip(3))
    }
}

/// The length of the padded encoding of `n` bytes.
pub open spec fn base64_len(n: nat) -> nat {
    4 * ((n + 2) / 3)
}

/// `base64::engine::general_purpose::STANDARD.encode`: the standard alphabet
/// with padding, as the crate documents (RFC 4648). The crate panics when the
/// encoded length does not fit in `usize`; that input is left out.
#[verifier::external_body]
pub(crate) fn encode_standard(bytes: &[u8]) -> (s: String)
    requires
        base64_len(bytes@.len()) <= usize::MAX,
    ensures
        s@ == base64_standard(bytes@),
{
    base64::engine::general_purpose::STANDARD.encode(bytes)
}

/// The 6-bit value that a char of the standard alphabet stands for: `A`..`Z`
/// are 0..25, `a`..`z` are 26..51, `0`..`9` are 52..61, `+` is 62 and `/` is
/// 63; any other char stands for none (-1).
pub open spec fn sextet(c: char) -> int {
    if 'A' <= c && c <= 'Z' {
        c as int - 65
    } else if 'a' <= c && c <= 'z' {
        c as int - 71
    } else if '0' <= c && c <= '9' {
        c as int + 4
    } else if c == '+' {
        62
    } else if c == '/' {
        63
    } else {
        -1
    }
}

proof fn lemma_sextet(v: int)
    requires
        0 <= v < 64,
    ensures
        sextet(b64_char(v)) == v,
{
}

/// Base64 reads back: every group of three bytes becomes four alphabet chars
/// whose 6-bit values, read as one 24-bit number, are the three bytes; a
/// final single byte becomes two chars whose 12 bits begin with it (the
/// rest zero) and `==`; a final pair of bytes becomes three chars whose 18
/// bits begin with them (the rest zero) and `=`.
pub proof fn lemma_base64_reads_back(b: Seq<u8>)
    ensures
        b.len() >= 3 ==> ({
            let e = base64_standard(b);
            &&& e.skip(4) == base64_standard(b.skip(3))
            &&& 0 <= sextet(e[0]) < 64 && 0 <= sextet(e[1]) < 64 && 0 <= sextet(e[2]) < 64 && 0 <= sextet(e[3]) < 64
            &&& sextet(e[0]) * 262144 + sextet(e[1]) * 4096 + sextet(e[2]) * 64 + sextet(e[3])
                == b[0] * 65536 + b[1] * 256 + b[2]
        }),
        b.len() == 2 ==> ({
            let e = base64_standard(b);
            &&& e.len() == 4 && e[3] == '='
            &&& 0 <= sextet(e[0]) < 64 && 0 <= sextet(e[1]) < 64 && 0 <= sextet(e[2]) < 64
            &&& sextet(e[0]) * 4096 + sextet(e[1]) * 64 + sextet(e[2]) == (b[0] * 256 + b[1]) * 4
        }),
        b.len() == 1 ==> ({
            let e = base64_standard(b);
            &&& e.len() == 4 && e[2] == '=' && e[3] == '='
            &&& 0 <= sextet(e[0]) < 64 && 0 <= sextet(e[1]) < 64
            &&& sextet(e[0]) * 64 + sextet(e[1]) == b[0] * 16
        }),
        b.len() == 0 ==> base64_standard(b).len() == 0,
{
    if b.len() >= 1 {
        let b0 = b[0] as int;
        let b1 = if b.len() > 1 { b[1] as int } else { 0 };
        let b2 = if b.len() > 2 { b[2] as int } else { 0 };
        lemma_sextet(b0 / 4);
        lemma_sextet((b0 % 4) * 16 + b1 / 16);
        lemma_sextet((b1 % 16) * 4 + b2 / 64);
        lemma_sextet(b2 % 64);
        lemma_sextet((b0 % 4) * 16);
        lemma_sextet((b1 % 16) * 4);
        let e = base64_standard(b);
        if b.len() >= 3 {
            assert(e.skip(4) =~= base64_standard(b.skip(3)));
        }
    }
}

/// The encoding of `n` bytes has `4 * ceil(n / 3)` characters.
pub proof fn lemma_base64_len(b: Seq<u8>)
    ensures
        base64_standard(b).len() == base64_len(b.len()),
    decreases b.len(),
{
    if b.len() > 2 {
        lemma_base64_len(b.skip(3));
    }
}

} // verus!
