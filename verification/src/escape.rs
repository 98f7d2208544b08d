//! Escaping policies: percent-encoding rules over different allowed
//! character sets, all derived from the RFC 3986 unreserved set, plus an
//! identity policy that escapes nothing.
//!
//! A policy maps a text span to escaped output: characters inside the
//! policy's allowed set pass through unchanged; every other character has
//! each byte of its UTF-8 encoding written as `%` followed by two uppercase
//! hexadecimal digits.
use vstd::prelude::*;
use vstd::string::StrSliceExecFns;
use vstd::string::StringExecFns;
use vstd::utf8::char_is_scalar;
use vstd::utf8::encode_scalar;

verus! {

/// An escaping policy, chosen by the caller of an encoder.
#[derive(Debug, Clone, Copy, PartialEq, Eq)]
pub enum EncodingFn {
    /// Escape nothing; the input passes through unchanged.
    Passthrough,
    /// Allow the characters legal in a URL path segment (`pchar`).
    Path,
    /// Allow the Path set minus `/` and `?`, with `+` always escaped.
    Query,
    /// The Query set with the reserved characters `: / ? # [ ] @` also
    /// left unescaped; only safe for a single-parameter query.
    QueryAllowReserved,
    /// The `application/x-www-form-urlencoded` set: only alphanumerics
    /// and `* - . _` pass through.
    WwwFormUrlencoded,
}

/// True of ASCII letters and digits.
pub open spec fn spec_is_alnum(b: u8) -> bool {
    (0x30 <= b <= 0x39) || (0x41 <= b <= 0x5a) || (0x61 <= b <= 0x7a)
}

/// The RFC 3986 unreserved set: alphanumerics and `- . _ ~`.
pub open spec fn spec_unreserved(b: u8) -> bool {
    spec_is_alnum(b) || b == 0x2d || b == 0x2e || b == 0x5f || b == 0x7e
}

/// The allowed set for URL path segments: unreserved plus the `pchar`
/// sub-delimiters.
pub open spec fn spec_path_allowed(b: u8) -> bool {
    spec_unreserved(b) || b == 0x21 || b == 0x24 || b == 0x26 || b == 0x27 || b == 0x28 || b
        == 0x29 || b == 0x2a || b == 0x2b || b == 0x2c || b == 0x3b || b == 0x3d || b == 0x3a || b
        == 0x40
}

/// The allowed set for URL queries: the Path set with `/` and `?` also
/// allowed and `+` always escaped (historically ambiguous with a space).
pub open spec fn spec_query_allowed(b: u8) -> bool {
    (spec_path_allowed(b) && b != 0x2b) || b == 0x2f || b == 0x3f
}

/// The Query set with all reserved characters `: / ? # [ ] @` allowed.
pub open spec fn spec_query_reserved_allowed(b: u8) -> bool {
    spec_query_allowed(b) || b == 0x23 || b == 0x5b || b == 0x5d
}

/// The `application/x-www-form-urlencoded` set: alphanumerics and `* - . _`.
pub open spec fn spec_form_allowed(b: u8) -> bool {
    spec_is_alnum(b) || b == 0x2a || b == 0x2d || b == 0x2e || b == 0x5f
}

/// True when the policy passes the ASCII byte `b` through unescaped.
pub open spec fn spec_allows(p: EncodingFn, b: u8) -> bool {
    match p {
        EncodingFn::Passthrough => true,
        EncodingFn::Path => spec_path_allowed(b),
        EncodingFn::Query => spec_query_allowed(b),
        EncodingFn::QueryAllowReserved => spec_query_reserved_allowed(b),
        EncodingFn::WwwFormUrlencoded => spec_form_allowed(b),
    }
}

/// The uppercase hexadecimal digit character for `d`, which must lie in
/// `0 ..= 15`.
pub open spec fn hex_char_spec(d: u8) -> char {
    if d == 0 {
        '0'
    } else if d == 1 {
        '1'
    } else if d == 2 {
        '2'
    } else if d == 3 {
        '3'
    } else if d == 4 {
        '4'
    } else if d == 5 {
        '5'
    } else if d == 6 {
        '6'
    } else if d == 7 {
        '7'
    } else if d == 8 {
        '8'
    } else if d == 9 {
        '9'
    } else if d == 10 {
        'A'
    } else if d == 11 {
        'B'
    } else if d == 12 {
        'C'
    } else if d == 13 {
        'D'
    } else if d == 14 {
        'E'
    } else {
        'F'
    }
}

/// The three characters `%XY` that percent-encode the byte `b`.
pub open spec fn pct_byte(b: u8) -> Seq<char> {
    seq!['%', hex_char_spec(b / 16), hex_char_spec(b % 16)]
}

/// Percent-encodings of each byte of `bs`, concatenated.
pub open spec fn pct_bytes(bs: Seq<u8>) -> Seq<char>
    decreases bs.len(),
{
    if bs.len() == 0 {
        Seq::empty()
    } else {
        pct_bytes(bs.drop_last()) + pct_byte(bs.last())
    }
}

/// The escaped output for one character under a non-identity policy: the
/// character itself when it is ASCII and allowed, otherwise the
/// percent-encoding of its UTF-8 bytes.
pub open spec fn esc_char(p: EncodingFn, c: char) -> Seq<char> {
    if (c as u32) < 0x80 && spec_allows(p, c as u8) {
        seq![c]
    } else {
        pct_bytes(encode_scalar(c as u32))
    }
}

/// The escaped output for a text span under policy `p`: the span itself
/// under the identity policy, otherwise each character's escaped form,
/// concatenated.
pub open spec fn esc(p: EncodingFn, s: Seq<char>) -> Seq<char>
    decreases s.len(),
{
    if p == EncodingFn::Passthrough {
        s
    } else if s.len() == 0 {
        Seq::empty()
    } else {
        esc(p, s.drop_last()) + esc_char(p, s.last())
    }
}

/// Relies on String::push: it appends the given character to the end of
/// the string.
#[verifier::external_body]
pub(crate) fn push_char(out: &mut String, c: char)
    ensures
        final(out)@ == old(out)@ + seq![c],
{
    out.push(c);
}

fn is_alnum_byte(b: u8) -> (r: bool)
    ensures
        r == spec_is_alnum(b),
{
    (0x30 <= b && b <= 0x39) || (0x41 <= b && b <= 0x5a) || (0x61 <= b && b <= 0x7a)
}

fn path_allowed(b: u8) -> (r: bool)
    ensures
        r == spec_path_allowed(b),
{
    is_alnum_byte(b) || b == 0x2d || b == 0x2e || b == 0x5f || b == 0x7e || b == 0x21 || b == 0x24
        || b == 0x26 || b == 0x27 || b == 0x28 || b == 0x29 || b == 0x2a || b == 0x2b || b == 0x2c
        || b == 0x3b || b == 0x3d || b == 0x3a || b == 0x40
}

fn query_allowed(b: u8) -> (r: bool)
    ensures
        r == spec_query_allowed(b),
{
    (path_allowed(b) && b != 0x2b) || b == 0x2f || b == 0x3f
}

fn query_reserved_allowed(b: u8) -> (r: bool)
    ensures
        r == spec_query_reserved_allowed(b),
{
    query_allowed(b) || b == 0x23 || b == 0x5b || b == 0x5d
}

fn form_allowed(b: u8) -> (r: bool)
    ensures
        r == spec_form_allowed(b),
{
    is_alnum_byte(b) || b == 0x2a || b == 0x2d || b == 0x2e || b == 0x5f
}

fn byte_allowed(p: &EncodingFn, b: u8) -> (r: bool)
    ensures
        r == spec_allows(*p, b),
{
    match p {
        EncodingFn::Passthrough => true,
        EncodingFn::Path => path_allowed(b),
        EncodingFn::Query => query_allowed(b),
        EncodingFn::QueryAllowReserved => query_reserved_allowed(b),
        EncodingFn::WwwFormUrlencoded => form_allowed(b),
    }
}

fn hex_char(d: u8) -> (c: char)
    requires
        d < 16,
    ensures
        c == hex_char_spec(d),
{
    if d == 0 {
        '0'
    } else if d == 1 {
        '1'
    } else if d == 2 {
        '2'
    } else if d == 3 {
        '3'
    } else if d == 4 {
        '4'
    } else if d == 5 {
        '5'
    } else if d == 6 {
        '6'
    } else if d == 7 {
        '7'
    } else if d == 8 {
        '8'
    } else if d == 9 {
        '9'
    } else if d == 10 {
        'A'
    } else if d == 11 {
        'B'
    } else if d == 12 {
        'C'
    } else if d == 13 {
        'D'
    } else if d == 14 {
        'E'
    } else {
        'F'
    }
}

fn push_pct_byte(out: &mut String, b: u8)
    ensures
        final(out)@ == old(out)@ + pct_byte(b),
{
    push_char(out, '%');
    push_char(out, hex_char(b / 16));
    push_char(out, hex_char(b % 16));
    assert(final(out)@ =~= old(out)@ + pct_byte(b));
}

proof fn lemma_pct_bytes1(a: u8)
    ensures
        pct_bytes(seq![a]) == pct_byte(a),
{
    assert(seq![a].drop_last() =~= Seq::<u8>::empty());
    assert(pct_bytes(Seq::<u8>::empty()) =~= Seq::<char>::empty());
    assert(pct_bytes(seq![a]) =~= pct_byte(a));
}

proof fn lemma_pct_bytes2(a: u8, b: u8)
    ensures
        pct_bytes(seq![a, b]) == pct_byte(a) + pct_byte(b),
{
    lemma_pct_bytes1(a);
    assert(seq![a, b].drop_last() =~= seq![a]);
    assert(pct_bytes(seq![a, b]) =~= pct_byte(a) + pct_byte(b));
}

proof fn lemma_pct_bytes3(a: u8, b: u8, c: u8)
    ensures
        pct_bytes(seq![a, b, c]) == pct_byte(a) + pct_byte(b) + pct_byte(c),
{
    lemma_pct_bytes2(a, b);
    assert(seq![a, b, c].drop_last() =~= seq![a, b]);
    assert(pct_bytes(seq![a, b, c]) =~= pct_byte(a) + pct_byte(b) + pct_byte(c));
}

proof fn lemma_pct_bytes4(a: u8, b: u8, c: u8, d: u8)
    ensures
        pct_bytes(seq![a, b, c, d]) == pct_byte(a) + pct_byte(b) + pct_byte(c) + pct_byte(d),
{
    lemma_pct_bytes3(a, b, c);
    assert(seq![a, b, c, d].drop_last() =~= seq![a, b, c]);
    assert(pct_bytes(seq![a, b, c, d]) =~= pct_byte(a) + pct_byte(b) + pct_byte(c) + pct_byte(d));
}

/// Writes the escaped form of one character under a non-identity policy.
fn escape_char_into(out: &mut String, p: &EncodingFn, c: char)
    ensures
        final(out)@ == old(out)@ + esc_char(*p, c),
{
    proof {
        char_is_scalar(c);
    }
    let u = c as u32;
    if u < 0x80 {
        let b = u as u8;
        if byte_allowed(p, b) {
            push_char(out, c);
            return ;
        }
        push_pct_byte(out, b);
        proof {
            lemma_pct_bytes1(b);
            assert(u & 0x7F == u) by (bit_vector)
                requires
                    u < 0x80,
            ;
            assert(encode_scalar(u) == seq![b]);
        }
    } else if u < 0x800 {
        let b0: u8 = 0xC0u8 | (((u >> 6u32) & 0x1F) as u8);
        let b1: u8 = 0x80u8 | ((u & 0x3F) as u8);
        push_pct_byte(out, b0);
        push_pct_byte(out, b1);
        proof {
            lemma_pct_bytes2(b0, b1);
            assert(encode_scalar(u) == seq![b0, b1]);
            assert(final(out)@ =~= old(out)@ + esc_char(*p, c));
        }
    } else if u < 0x10000 {
        let b0: u8 = 0xE0u8 | (((u >> 12u32) & 0x0F) as u8);
        let b1: u8 = 0x80u8 | (((u >> 6u32) & 0x3F) as u8);
        let b2: u8 = 0x80u8 | ((u & 0x3F) as u8);
        push_pct_byte(out, b0);
        push_pct_byte(out, b1);
        push_pct_byte(out, b2);
        proof {
            lemma_pct_bytes3(b0, b1, b2);
            assert(encode_scalar(u) == seq![b0, b1, b2]);
            assert(final(out)@ =~= old(out)@ + esc_char(*p, c));
        }
    } else {
        let b0: u8 = 0xF0u8 | (((u >> 18u32) & 0x7) as u8);
        let b1: u8 = 0x80u8 | (((u >> 12u32) & 0x3F) as u8);
        let b2: u8 = 0x80u8 | (((u >> 6u32) & 0x3F) as u8);
        let b3: u8 = 0x80u8 | ((u & 0x3F) as u8);
        push_pct_byte(out, b0);
        push_pct_byte(out, b1);
        push_pct_byte(out, b2);
        push_pct_byte(out, b3);
        proof {
            lemma_pct_bytes4(b0, b1, b2, b3);
            assert(encode_scalar(u) == seq![b0, b1, b2, b3]);
            assert(final(out)@ =~= old(out)@ + esc_char(*p, c));
        }
    }
}

/// Appends the escaped form of `s` under policy `p` to `out`.
pub(crate) fn escape_into(out: &mut String, p: &EncodingFn, s: &str)
    ensures
        final(out)@ == old(out)@ + esc(*p, s@),
{
    let is_pass = match p {
        EncodingFn::Passthrough => true,
        _ => false,
    };
    if is_pass {
        out.append(s);
        return ;
    }
    let n = s.unicode_len();
    let mut i: usize = 0;
    while i < n
        invariant
            !(*p is Passthrough),
            n == s@.len(),
            0 <= i <= n,
            out@ == old(out)@ + esc(*p, s@.take(i as int)),
        decreases n - i,
    {
        let c = s.get_char(i);
        escape_char_into(out, p, c);
        proof {
            assert(s@.take(i + 1 as int).drop_last() =~= s@.take(i as int));
            assert(out@ =~= old(out)@ + esc(*p, s@.take(i + 1 as int)));
        }
        i = i + 1;
    }
    proof {
        assert(s@.take(n as int) =~= s@);
    }
}

/// Appends `esc(p, seq![c])` — the escaped form of a single character.
pub(crate) fn escape_char_value_into(out: &mut String, p: &EncodingFn, c: char)
    ensures
        final(out)@ == old(out)@ + esc(*p, seq![c]),
{
    let is_pass = match p {
        EncodingFn::Passthrough => true,
        _ => false,
    };
    if is_pass {
        push_char(out, c);
    } else {
        escape_char_into(out, p, c);
        proof {
            assert(seq![c].drop_last() =~= Seq::<char>::empty());
            assert(esc(*p, Seq::<char>::empty()) =~= Seq::<char>::empty());
            assert(esc(*p, seq![c]) =~= esc_char(*p, c));
        }
    }
}

impl EncodingFn {
    /// The escaped form of `s` under this policy, as a fresh string.
    pub fn escape(&self, s: &str) -> (r: String)
        ensures
            r@ == esc(*self, s@),
    {
        let mut out = String::new();
        escape_into(&mut out, self, s);
        out
    }
}

/// The identity policy: no characters are escaped.
pub fn passthrough() -> (r: EncodingFn)
    ensures
        r == EncodingFn::Passthrough,
{
    EncodingFn::Passthrough
}

/// The policy for text added to a URL path segment.
pub fn encode_path() -> (r: EncodingFn)
    ensures
        r == EncodingFn::Path,
{
    EncodingFn::Path
}

/// The policy for text added to a URL query.
pub fn encode_query() -> (r: EncodingFn)
    ensures
        r == EncodingFn::Query,
{
    EncodingFn::Query
}

/// The policy for text added to a URL query when reserved characters may
/// pass unescaped; only safe when the query holds a single parameter.
pub fn encode_query_allow_reserved() -> (r: EncodingFn)
    ensures
        r == EncodingFn::QueryAllowReserved,
{
    EncodingFn::QueryAllowReserved
}

/// The policy for an `application/x-www-form-urlencoded` form body.
pub fn encode_www_form_urlencoded() -> (r: EncodingFn)
    ensures
        r == EncodingFn::WwwFormUrlencoded,
{
    EncodingFn::WwwFormUrlencoded
}

} // verus!
