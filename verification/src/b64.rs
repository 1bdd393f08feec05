//! The codec boundary: base-64 transcoding of byte buffers.
//!
//! Tags produced by signing are re-encoded with the URL-safe alphabet and no
//! padding before they are displayed, and decoded again before verification.
//! The byte-stream subcommands additionally use the standard and URL-safe
//! alphabets with padding. Encoding is total; decoding fails exactly on text
//! that is not a well-formed encoding.

use vstd::prelude::*;
use vstd::string::StringSliceAdditionalSpecFns;

use crate::errors::TextError;

verus! {

/// Which base-64 alphabet a transcoding operation uses.
#[derive(Debug, Clone, Copy, PartialEq, Eq, Structural)]
pub enum Base64Format {
    /// `+` and `/` for the two final alphabet positions.
    Standard,
    /// `-` and `_` for the two final alphabet positions.
    UrlSafe,
}

/// The 6-bit groups of a byte sequence, most significant bits first.
///
/// Every three input bytes yield four groups; a final remainder of one or two
/// bytes yields two or three groups whose trailing bits are zero.
pub open spec fn spec_sextets(s: Seq<u8>) -> Seq<u8>
    decreases s.len(),
{
    if s.len() == 0 {
        Seq::empty()
    } else if s.len() == 1 {
        seq![s[0] >> 2, (s[0] & 3) << 4]
    } else if s.len() == 2 {
        seq![s[0] >> 2, ((s[0] & 3) << 4) | (s[1] >> 4), (s[1] & 15) << 2]
    } else {
        seq![
            s[0] >> 2,
            ((s[0] & 3) << 4) | (s[1] >> 4),
            ((s[1] & 15) << 2) | (s[2] >> 6),
            s[2] & 63,
        ] + spec_sextets(s.skip(3))
    }
}

/// The bytes packed back from 6-bit groups: the inverse of `spec_sextets`.
///
/// A leftover group count of one cannot arise from an encoding and is mapped
/// to nothing; callers rule it out before using this function.
pub open spec fn spec_unsextets(q: Seq<u8>) -> Seq<u8>
    decreases q.len(),
{
    if q.len() < 2 {
        Seq::empty()
    } else if q.len() == 2 {
        seq![((q[0] & 63) << 2) | (q[1] >> 4)]
    } else if q.len() == 3 {
        seq![((q[0] & 63) << 2) | (q[1] >> 4), ((q[1] & 15) << 4) | (q[2] >> 2)]
    } else {
        seq![
            ((q[0] & 63) << 2) | (q[1] >> 4),
            ((q[1] & 15) << 4) | (q[2] >> 2),
            ((q[2] & 3) << 6) | q[3],
        ] + spec_unsextets(q.skip(4))
    }
}

/// The alphabet byte that stands for the 6-bit value `v`.
pub open spec fn spec_b64_byte(v: u8, url: bool) -> u8 {
    if v < 26 {
        (65 + v) as u8  // 'A'..'Z'
    } else if v < 52 {
        (71 + v) as u8  // 'a'..'z'
    } else if v < 62 {
        (v - 4) as u8  // '0'..'9'
    } else if v == 62 {
        if url { 45 } else { 43 }  // '-' or '+'
    } else {
        if url { 95 } else { 47 }  // '_' or '/'
    }
}

/// The 6-bit value of an alphabet byte, or `None` for a byte outside the
/// alphabet.
pub open spec fn spec_b64_value(b: u8, url: bool) -> Option<u8> {
    if 65 <= b && b <= 90 {
        Some((b - 65) as u8)
    } else if 97 <= b && b <= 122 {
        Some((b - 71) as u8)
    } else if 48 <= b && b <= 57 {
        Some((b + 4) as u8)
    } else if b == 45 && url {
        Some(62u8)
    } else if b == 43 && !url {
        Some(62u8)
    } else if b == 95 && url {
        Some(63u8)
    } else if b == 47 && !url {
        Some(63u8)
    } else {
        None
    }
}

/// How many padding bytes a padded encoding appends for an input of `n` bytes.
pub open spec fn spec_pad_len(n: nat) -> nat {
    if n % 3 == 1 {
        2
    } else if n % 3 == 2 {
        1
    } else {
        0
    }
}

/// The full encoding of `s`: alphabet bytes, then padding if asked for.
pub open spec fn spec_b64_encode(s: Seq<u8>, url: bool, pad: bool) -> Seq<u8> {
    spec_sextets(s).map_values(|v: u8| spec_b64_byte(v, url)) + if pad {
        Seq::new(spec_pad_len(s.len()), |i: int| 61u8)
    } else {
        Seq::<u8>::empty()
    }
}

/// The number of trailing `=` bytes of `t`.
pub open spec fn spec_pad_count(t: Seq<u8>) -> nat
    decreases t.len(),
{
    if t.len() > 0 && t[t.len() - 1] == 61 {
        1 + spec_pad_count(t.take(t.len() - 1))
    } else {
        0
    }
}

/// Whether `t` is a well-formed padding-free encoding body under the chosen
/// alphabet: every byte is an alphabet byte, and the length is one a grouping
/// into sextets can produce.
pub open spec fn spec_b64_body_valid(t: Seq<u8>, url: bool) -> bool {
    t.len() % 4 != 1 && forall|i: int| 0 <= i < t.len() ==> spec_b64_value(#[trigger] t[i], url) is Some
}

/// The decoding of `t`, or `None` where `t` is not a well-formed encoding.
///
/// With padding, the text must be a whole number of four-byte blocks ending in
/// at most two `=` bytes; without, no `=` is accepted at all (it is outside
/// the alphabet).
pub open spec fn spec_b64_decode(t: Seq<u8>, url: bool, pad: bool) -> Option<Seq<u8>> {
    let p = if pad { spec_pad_count(t) } else { 0 };
    let body = t.take(t.len() - p);
    if pad && (t.len() % 4 != 0 || p > 2) {
        None
    } else if !spec_b64_body_valid(body, url) {
        None
    } else {
        Some(spec_unsextets(body.map_values(|b: u8| spec_b64_value(b, url)->Some_0)))
    }
}

// ---------------------------------------------------------------------------
// Facts about the model.
// ---------------------------------------------------------------------------

/// Packing three bytes into four sextets and unpacking them gives the bytes
/// back; the same holds for the shortened final groups.
proof fn lemma_pack_unpack(b0: u8, b1: u8, b2: u8)
    by (bit_vector)
    ensures
        (((b0 >> 2) & 63) << 2) | ((((b0 & 3) << 4) | (b1 >> 4)) >> 4) == b0,
        (((((b0 & 3) << 4) | (b1 >> 4)) & 15) << 4) | ((((b1 & 15) << 2) | (b2 >> 6)) >> 2) == b1,
        (((((b1 & 15) << 2) | (b2 >> 6)) & 3) << 6) | (b2 & 63) == b2,
        (((b0 >> 2) & 63) << 2) | (((b0 & 3) << 4) >> 4) == b0,
        (((((b0 & 3) << 4) | (b1 >> 4)) & 15) << 4) | (((b1 & 15) << 2) >> 2) == b1,
        b0 >> 2 < 64,
        ((b0 & 3) << 4) | (b1 >> 4) < 64,
        ((b1 & 15) << 2) | (b2 >> 6) < 64,
        b2 & 63 < 64,
        (b0 & 3) << 4 < 64,
        (b1 & 15) << 2 < 64,
{
}

/// Every sextet of a byte sequence is a 6-bit value.
proof fn lemma_sextets_bounded(s: Seq<u8>)
    ensures
        forall|i: int| 0 <= i < spec_sextets(s).len() ==> #[trigger] spec_sextets(s)[i] < 64,
    decreases s.len(),
{
    if s.len() == 0 {
    } else if s.len() == 1 {
        lemma_pack_unpack(s[0], 0, 0);
    } else if s.len() == 2 {
        lemma_pack_unpack(s[0], s[1], 0);
    } else {
        lemma_pack_unpack(s[0], s[1], s[2]);
        lemma_sextets_bounded(s.skip(3));
        assert forall|i: int| 0 <= i < spec_sextets(s).len() implies #[trigger] spec_sextets(s)[i]
            < 64 by {
            if i >= 4 {
                assert(spec_sextets(s)[i] == spec_sextets(s.skip(3))[i - 4]);
            }
        }
    }
}

/// Unpacking the sextets of a byte sequence gives the sequence back.
proof fn lemma_sextets_unsextets(s: Seq<u8>)
    ensures
        spec_unsextets(spec_sextets(s)) == s,
    decreases s.len(),
{
    if s.len() == 0 {
        assert(spec_unsextets(spec_sextets(s)) =~= s);
    } else if s.len() == 1 {
        lemma_pack_unpack(s[0], 0, 0);
        assert(spec_unsextets(spec_sextets(s)) =~= s);
    } else if s.len() == 2 {
        lemma_pack_unpack(s[0], s[1], 0);
        assert(spec_unsextets(spec_sextets(s)) =~= s);
    } else {
        let q = spec_sextets(s);
        lemma_pack_unpack(s[0], s[1], s[2]);
        lemma_sextets_unsextets(s.skip(3));
        assert(q.skip(4) =~= spec_sextets(s.skip(3)));
        assert(spec_unsextets(q) =~= s);
    }
}

/// The alphabet never uses `=`, and mapping a 6-bit value to its alphabet
/// byte and back is the identity.
proof fn lemma_alphabet_round_trip(v: u8, url: bool)
    requires
        v < 64,
    ensures
        spec_b64_value(spec_b64_byte(v, url), url) == Some(v),
        spec_b64_byte(v, url) != 61,
{
}

/// A sextet sequence, padded as the input length asks, is a whole number of
/// four-byte blocks; and without padding its length is never one past such a
/// block.
proof fn lemma_sextets_len(s: Seq<u8>)
    ensures
        (spec_sextets(s).len() + spec_pad_len(s.len())) % 4 == 0,
        spec_sextets(s).len() % 4 != 1,
        spec_pad_len(s.len()) <= 2,
    decreases s.len(),
{
    if s.len() >= 3 {
        lemma_sextets_len(s.skip(3));
        assert(s.skip(3).len() % 3 == s.len() % 3);
    }
}

/// Appending bytes that are all `=` to a body that does not end in `=` leaves
/// exactly those bytes as the trailing padding count.
proof fn lemma_pad_count_append(body: Seq<u8>, pad: Seq<u8>)
    requires
        forall|i: int| 0 <= i < pad.len() ==> pad[i] == 61,
        body.len() > 0 ==> body[body.len() - 1] != 61,
    ensures
        spec_pad_count(body + pad) == pad.len(),
    decreases pad.len(),
{
    let t = body + pad;
    if pad.len() == 0 {
        assert(t =~= body);
    } else {
        assert(t[t.len() - 1] == 61);
        assert(t.take(t.len() - 1) =~= body + pad.take(pad.len() - 1));
        lemma_pad_count_append(body, pad.take(pad.len() - 1));
    }
}

/// The codec round trip: decoding an encoding gives the original bytes back,
/// for every byte sequence (the empty one included), under every alphabet,
/// with or without padding.
pub proof fn lemma_b64_round_trip(s: Seq<u8>, url: bool, pad: bool)
    ensures
        spec_b64_decode(spec_b64_encode(s, url, pad), url, pad) == Some(s),
{
    let q = spec_sextets(s);
    let m = q.map_values(|v: u8| spec_b64_byte(v, url));
    let padding = if pad {
        Seq::new(spec_pad_len(s.len()), |i: int| 61u8)
    } else {
        Seq::<u8>::empty()
    };
    let t = spec_b64_encode(s, url, pad);
    lemma_sextets_bounded(s);
    lemma_sextets_len(s);
    assert forall|i: int| 0 <= i < m.len() implies spec_b64_value(#[trigger] m[i], url) == Some(
        q[i],
    ) && m[i] != 61 by {
        lemma_alphabet_round_trip(q[i], url);
    }
    if pad {
        lemma_pad_count_append(m, padding);
        assert(spec_pad_count(t) == padding.len());
    } else {
        assert(t =~= m);
    }
    let p = if pad { spec_pad_count(t) } else { 0 };
    assert(t.take(t.len() - p) =~= m);
    assert(spec_b64_body_valid(m, url));
    assert(m.map_values(|b: u8| spec_b64_value(b, url)->Some_0) =~= q);
    lemma_sextets_unsextets(s);
}

/// Sextet grouping distributes over concatenation at a whole-group boundary.
proof fn lemma_sextets_append(a: Seq<u8>, b: Seq<u8>)
    requires
        a.len() % 3 == 0,
    ensures
        spec_sextets(a + b) == spec_sextets(a) + spec_sextets(b),
    decreases a.len(),
{
    if a.len() == 0 {
        assert(a + b =~= b);
        assert(spec_sextets(a + b) =~= spec_sextets(a) + spec_sextets(b));
    } else {
        assert((a + b).skip(3) =~= a.skip(3) + b);
        lemma_sextets_append(a.skip(3), b);
        if b.len() == 0 {
            assert(a + b =~= a);
            assert(spec_sextets(a + b) =~= spec_sextets(a) + spec_sextets(b));
        } else {
            assert(spec_sextets(a + b) =~= spec_sextets(a) + spec_sextets(b));
        }
    }
}

/// Byte unpacking distributes over concatenation at a whole-block boundary.
proof fn lemma_unsextets_append(a: Seq<u8>, b: Seq<u8>)
    requires
        a.len() % 4 == 0,
    ensures
        spec_unsextets(a + b) == spec_unsextets(a) + spec_unsextets(b),
    decreases a.len(),
{
    if a.len() == 0 {
        assert(a + b =~= b);
        assert(spec_unsextets(a + b) =~= spec_unsextets(a) + spec_unsextets(b));
    } else {
        assert((a + b).skip(4) =~= a.skip(4) + b);
        lemma_unsextets_append(a.skip(4), b);
        assert(spec_unsextets(a + b) =~= spec_unsextets(a) + spec_unsextets(b));
    }
}

// ---------------------------------------------------------------------------
// Executable transcoding.
// ---------------------------------------------------------------------------

/// The alphabet byte for a 6-bit value.
fn b64_byte_of(v: u8, url: bool) -> (r: u8)
    requires
        v < 64,
    ensures
        r == spec_b64_byte(v, url),
{
    if v < 26 {
        65 + v
    } else if v < 52 {
        71 + v
    } else if v < 62 {
        v - 4
    } else if v == 62 {
        if url {
            45
        } else {
            43
        }
    } else {
        if url {
            95
        } else {
            47
        }
    }
}

/// The 6-bit value of an alphabet byte, or `None` outside the alphabet.
fn b64_value_of(b: u8, url: bool) -> (r: Option<u8>)
    ensures
        r == spec_b64_value(b, url),
{
    if 65 <= b && b <= 90 {
        Some(b - 65)
    } else if 97 <= b && b <= 122 {
        Some(b - 71)
    } else if 48 <= b && b <= 57 {
        Some(b + 4)
    } else if b == 45 && url {
        Some(62)
    } else if b == 43 && !url {
        Some(62)
    } else if b == 95 && url {
        Some(63)
    } else if b == 47 && !url {
        Some(63)
    } else {
        None
    }
}

/// Encode a byte buffer under the chosen alphabet, with or without padding.
pub fn b64_encode_bytes(data: &[u8], url: bool, pad: bool) -> (r: Vec<u8>)
    ensures
        r@ == spec_b64_encode(data@, url, pad),
{
    let n = data.len();
    let mut out: Vec<u8> = Vec::new();
    let mut i: usize = 0;
    while n - i >= 3
        invariant
            i % 3 == 0,
            i <= n,
            n == data@.len(),
            out@ == spec_sextets(data@.take(i as int)).map_values(|v: u8| spec_b64_byte(v, url)),
        decreases n - i,
    {
        let b0 = data[i];
        let b1 = data[i + 1];
        let b2 = data[i + 2];
        proof {
            lemma_pack_unpack(b0, b1, b2);
        }
        out.push(b64_byte_of(b0 >> 2, url));
        out.push(b64_byte_of(((b0 & 3) << 4) | (b1 >> 4), url));
        out.push(b64_byte_of(((b1 & 15) << 2) | (b2 >> 6), url));
        out.push(b64_byte_of(b2 & 63, url));
        proof {
            let a = data@.take(i as int);
            let g = data@.subrange(i as int, i + 3);
            assert(data@.take(i + 3) =~= a + g);
            lemma_sextets_append(a, g);
            assert(g.skip(3) =~= Seq::<u8>::empty());
            assert(spec_sextets(Seq::<u8>::empty()) =~= Seq::<u8>::empty());
            assert(g[0] == b0 && g[1] == b1 && g[2] == b2);
            assert(spec_sextets(g) =~= seq![
                b0 >> 2,
                ((b0 & 3) << 4) | (b1 >> 4),
                ((b1 & 15) << 2) | (b2 >> 6),
                b2 & 63,
            ]);
            assert(out@ =~= spec_sextets(data@.take(i + 3)).map_values(
                |v: u8| spec_b64_byte(v, url),
            ));
        }
        i += 3;
    }
    proof {
        lemma_pack_unpack(if n - i >= 1 { data@[i as int] } else { 0 }, if n - i == 2 {
            data@[i + 1]
        } else {
            0
        }, 0);
    }
    if n - i == 1 {
        let b0 = data[i];
        out.push(b64_byte_of(b0 >> 2, url));
        out.push(b64_byte_of((b0 & 3) << 4, url));
        proof {
            let a = data@.take(i as int);
            let g = data@.subrange(i as int, n as int);
            assert(data@ =~= a + g);
            lemma_sextets_append(a, g);
            assert(spec_sextets(g) =~= seq![b0 >> 2, (b0 & 3) << 4]);
            assert(out@ =~= spec_sextets(data@).map_values(|v: u8| spec_b64_byte(v, url)));
        }
    } else if n - i == 2 {
        let b0 = data[i];
        let b1 = data[i + 1];
        out.push(b64_byte_of(b0 >> 2, url));
        out.push(b64_byte_of(((b0 & 3) << 4) | (b1 >> 4), url));
        out.push(b64_byte_of((b1 & 15) << 2, url));
        proof {
            let a = data@.take(i as int);
            let g = data@.subrange(i as int, n as int);
            assert(data@ =~= a + g);
            lemma_sextets_append(a, g);
            assert(spec_sextets(g) =~= seq![b0 >> 2, ((b0 & 3) << 4) | (b1 >> 4), (b1 & 15) << 2]);
            assert(out@ =~= spec_sextets(data@).map_values(|v: u8| spec_b64_byte(v, url)));
        }
    } else {
        proof {
            assert(data@.take(i as int) =~= data@);
        }
    }
    if pad {
        if n % 3 == 1 {
            out.push(61);
            out.push(61);
        } else if n % 3 == 2 {
            out.push(61);
        }
    }
    proof {
        assert(out@ =~= spec_b64_encode(data@, url, pad));
    }
    out
}

/// Decode base-64 text given as bytes; fails with `TagDecodeError` exactly on
/// text that is not a well-formed encoding under the chosen alphabet.
#[verifier::rlimit(100)]
#[verifier::loop_isolation(false)]
pub fn b64_decode_bytes(t: &[u8], url: bool, pad: bool) -> (r: Result<Vec<u8>, TextError>)
    ensures
        match spec_b64_decode(t@, url, pad) {
            Some(s) => r matches Ok(v) && v@ == s,
            None => r == Err::<Vec<u8>, TextError>(TextError::TagDecodeError),
        },
{
    let n = t.len();
    proof {
        assert(t@.take(n as int) =~= t@);
    }
    let mut end: usize = n;
    while end > 0 && t[end - 1] == 61
        invariant
            end <= n,
            n == t@.len(),
            spec_pad_count(t@) == (n - end) + spec_pad_count(t@.take(end as int)),
        decreases end,
    {
        proof {
            assert(t@.take(end as int).take(end - 1) =~= t@.take(end - 1));
        }
        end = end - 1;
    }
    proof {
        assert(spec_pad_count(t@.take(end as int)) == 0);
        assert(spec_pad_count(t@) == n - end);
    }
    let p: usize = if pad { n - end } else { 0 };
    if pad && (n % 4 != 0 || p > 2) {
        return Err(TextError::TagDecodeError);
    }
    let body_len: usize = n - p;
    let ghost body = t@.take(body_len as int);
    let mut vals: Vec<u8> = Vec::new();
    let mut i: usize = 0;
    while i < body_len
        invariant
            i <= body_len,
            body_len <= n,
            n == t@.len(),
            body == t@.take(body_len as int),
            vals@.len() == i,
            forall|j: int|
                0 <= j < i ==> spec_b64_value(body[j], url) == Some(#[trigger] vals@[j]),
        decreases body_len - i,
    {
        match b64_value_of(t[i], url) {
            Some(v) => {
                vals.push(v);
            },
            None => {
                proof {
                    assert(body[i as int] == t@[i as int]);
                    assert(spec_b64_value(body[i as int], url) is None);
                    assert(!spec_b64_body_valid(body, url));
                    let ghost ps: nat = if pad { spec_pad_count(t@) } else { 0 };
                    assert(t@.take(t@.len() - ps) =~= body);
                    assert(spec_b64_decode(t@, url, pad) is None);
                }
                return Err(TextError::TagDecodeError);
            },
        }
        i += 1;
    }
    if body_len % 4 == 1 {
        proof {
            assert(!spec_b64_body_valid(body, url));
            let ghost ps: nat = if pad { spec_pad_count(t@) } else { 0 };
            assert(t@.take(t@.len() - ps) =~= body);
            assert(spec_b64_decode(t@, url, pad) is None);
        }
        return Err(TextError::TagDecodeError);
    }
    proof {
        assert forall|j: int| 0 <= j < body.len() implies spec_b64_value(
            #[trigger] body[j],
            url,
        ) is Some by {
            assert(spec_b64_value(body[j], url) == Some(vals@[j]));
        }
        assert(spec_b64_body_valid(body, url));
        assert(vals@ =~= body.map_values(|b: u8| spec_b64_value(b, url)->Some_0));
        let ghost ps: nat = if pad { spec_pad_count(t@) } else { 0 };
        assert(t@.take(t@.len() - ps) =~= body);
        assert(spec_b64_decode(t@, url, pad) == Some(spec_unsextets(vals@)));
    }
    let m = vals.len();
    let mut out: Vec<u8> = Vec::new();
    let mut k: usize = 0;
    while m - k >= 4
        invariant
            k % 4 == 0,
            k <= m,
            m == vals@.len(),
            out@ == spec_unsextets(vals@.take(k as int)),
        decreases m - k,
    {
        let q0 = vals[k];
        let q1 = vals[k + 1];
        let q2 = vals[k + 2];
        let q3 = vals[k + 3];
        out.push(((q0 & 63) << 2) | (q1 >> 4));
        out.push(((q1 & 15) << 4) | (q2 >> 2));
        out.push(((q2 & 3) << 6) | q3);
        proof {
            let a = vals@.take(k as int);
            let g = vals@.subrange(k as int, k + 4);
            assert(vals@.take(k + 4) =~= a + g);
            lemma_unsextets_append(a, g);
            assert(g.skip(4) =~= Seq::<u8>::empty());
            assert(spec_unsextets(Seq::<u8>::empty()) =~= Seq::<u8>::empty());
            assert(g[0] == q0 && g[1] == q1 && g[2] == q2 && g[3] == q3);
            assert(spec_unsextets(g) =~= seq![
                ((q0 & 63) << 2) | (q1 >> 4),
                ((q1 & 15) << 4) | (q2 >> 2),
                ((q2 & 3) << 6) | q3,
            ]);
            assert(out@ =~= spec_unsextets(vals@.take(k + 4)));
        }
        k += 4;
    }
    if m - k == 2 {
        let q0 = vals[k];
        let q1 = vals[k + 1];
        out.push(((q0 & 63) << 2) | (q1 >> 4));
        proof {
            let a = vals@.take(k as int);
            let g = vals@.subrange(k as int, m as int);
            assert(vals@ =~= a + g);
            lemma_unsextets_append(a, g);
            assert(spec_unsextets(g) =~= seq![((q0 & 63) << 2) | (q1 >> 4)]);
            assert(out@ =~= spec_unsextets(vals@));
        }
    } else if m - k == 3 {
        let q0 = vals[k];
        let q1 = vals[k + 1];
        let q2 = vals[k + 2];
        out.push(((q0 & 63) << 2) | (q1 >> 4));
        out.push(((q1 & 15) << 4) | (q2 >> 2));
        proof {
            let a = vals@.take(k as int);
            let g = vals@.subrange(k as int, m as int);
            assert(vals@ =~= a + g);
            lemma_unsextets_append(a, g);
            assert(spec_unsextets(g) =~= seq![
                ((q0 & 63) << 2) | (q1 >> 4),
                ((q1 & 15) << 4) | (q2 >> 2),
            ]);
            assert(out@ =~= spec_unsextets(vals@));
        }
    } else {
        proof {
            assert(vals@.take(k as int) =~= vals@);
        }
    }
    Ok(out)
}


// ---------------------------------------------------------------------------
// Text-level entry points.
// ---------------------------------------------------------------------------

/// The characters of an ASCII byte sequence, one per byte.
pub open spec fn spec_chars_of(s: Seq<u8>) -> Seq<char> {
    s.map_values(|b: u8| b as char)
}

/// Every byte an encoding produces is ASCII.
pub(crate) proof fn lemma_encode_ascii(s: Seq<u8>, url: bool, pad: bool)
    ensures
        forall|i: int|
            0 <= i < spec_b64_encode(s, url, pad).len() ==> #[trigger] spec_b64_encode(
                s,
                url,
                pad,
            )[i] < 128,
{
    let q = spec_sextets(s);
    let m = q.map_values(|v: u8| spec_b64_byte(v, url));
    assert forall|i: int|
        0 <= i < spec_b64_encode(s, url, pad).len() implies #[trigger] spec_b64_encode(
        s,
        url,
        pad,
    )[i] < 128 by {
        if i < m.len() {
            assert(spec_b64_encode(s, url, pad)[i] == spec_b64_byte(q[i], url));
        } else {
            assert(spec_b64_encode(s, url, pad)[i] == 61);
        }
    }
}

/// Relies on `String::from_utf8`: bytes that are all ASCII decode to the
/// string whose characters have exactly those byte values.
#[verifier::external_body]
pub(crate) fn ascii_to_string(v: Vec<u8>) -> (r: String)
    requires
        forall|i: int| 0 <= i < v@.len() ==> v@[i] < 128,
    ensures
        r@ == v@.map_values(|b: u8| b as char),
{
    match String::from_utf8(v) {
        Ok(s) => s,
        Err(_) => String::new(),
    }
}

/// Whether a format selects the URL-safe alphabet.
pub open spec fn spec_is_url(format: Base64Format) -> bool {
    format is UrlSafe
}

/// Encode a byte buffer to padded base-64 text under the chosen alphabet.
pub fn process_encode(data: &Vec<u8>, format: Base64Format) -> (r: String)
    ensures
        r@ == spec_chars_of(spec_b64_encode(data@, spec_is_url(format), true)),
{
    let url = match format {
        Base64Format::Standard => false,
        Base64Format::UrlSafe => true,
    };
    let bytes = b64_encode_bytes(data.as_slice(), url, true);
    proof {
        lemma_encode_ascii(data@, url, true);
    }
    ascii_to_string(bytes)
}

/// Decode padded base-64 text under the chosen alphabet; fails with
/// `TagDecodeError` exactly on text that is not a well-formed encoding.
pub fn process_decode(input: &str, format: Base64Format) -> (r: Result<Vec<u8>, TextError>)
    ensures
        match spec_b64_decode(input.spec_bytes(), spec_is_url(format), true) {
            Some(s) => r matches Ok(v) && v@ == s,
            None => r == Err::<Vec<u8>, TextError>(TextError::TagDecodeError),
        },
{
    let url = match format {
        Base64Format::Standard => false,
        Base64Format::UrlSafe => true,
    };
    b64_decode_bytes(input.as_bytes(), url, true)
}

} // verus!
