//! Minimal-form CBOR primitives.
//!
//! Every message on the wire is a sequence of CBOR data items.  The codec
//! uses the canonical (shortest) form of each item header when encoding and
//! accepts only that form when decoding, so that every value has exactly one
//! byte-level image and decoding is the exact inverse of encoding.

use vstd::prelude::*;

verus! {

/// The ways a decode can fail: the buffer ended before the item did, or a
/// byte contradicts every encoding the codec can produce.
#[derive(Debug, Clone, Copy, PartialEq, Eq, Structural)]
pub enum DecodeError {
    Truncated,
    Malformed,
}

/// Canonical CBOR header for major type `major` with argument `v`:
/// the shortest of the five definite-length argument encodings.
pub open spec fn head_enc(major: u8, v: u64) -> Seq<u8>
    recommends
        major < 8,
{
    if v < 24 {
        seq![(major << 5) | (v as u8)]
    } else if v < 0x100 {
        seq![(major << 5) | 24u8, v as u8]
    } else if v < 0x10000 {
        seq![(major << 5) | 25u8, (v >> 8) as u8, v as u8]
    } else if v < 0x100000000 {
        seq![
            (major << 5) | 26u8,
            (v >> 24) as u8,
            (v >> 16) as u8,
            (v >> 8) as u8,
            v as u8,
        ]
    } else {
        seq![
            (major << 5) | 27u8,
            (v >> 56) as u8,
            (v >> 48) as u8,
            (v >> 40) as u8,
            (v >> 32) as u8,
            (v >> 24) as u8,
            (v >> 16) as u8,
            (v >> 8) as u8,
            v as u8,
        ]
    }
}

/// Appends the canonical header for (`major`, `v`) to `out`.
pub fn push_head(out: &mut Vec<u8>, major: u8, v: u64)
    requires
        major < 8,
    ensures
        final(out)@ == old(out)@ + head_enc(major, v),
{
    let tag: u8 = major << 5;
    if v < 24 {
        out.push(tag | (v as u8));
    } else if v < 0x100 {
        out.push(tag | 24u8);
        out.push(v as u8);
    } else if v < 0x10000 {
        out.push(tag | 25u8);
        out.push((v >> 8) as u8);
        out.push(v as u8);
    } else if v < 0x100000000 {
        out.push(tag | 26u8);
        out.push((v >> 24) as u8);
        out.push((v >> 16) as u8);
        out.push((v >> 8) as u8);
        out.push(v as u8);
    } else {
        out.push(tag | 27u8);
        out.push((v >> 56) as u8);
        out.push((v >> 48) as u8);
        out.push((v >> 40) as u8);
        out.push((v >> 32) as u8);
        out.push((v >> 24) as u8);
        out.push((v >> 16) as u8);
        out.push((v >> 8) as u8);
        out.push(v as u8);
    }
    assert(out@ =~= old(out)@ + head_enc(major, v));
}

/// Facts about the first byte of a canonical header: the major type sits in
/// the top three bits and the additional-information bits name the argument
/// class, which is determined by the argument's magnitude.
proof fn lemma_head_byte0(m: u8, v: u64)
    requires
        m < 8,
    ensures
        head_enc(m, v)[0] >> 5 == m,
        v < 24 ==> head_enc(m, v)[0] & 0x1f == v as u8 && (v as u8) < 24 && (v as u8) as u64 == v,
        24 <= v < 0x100 ==> head_enc(m, v)[0] & 0x1f == 24,
        0x100 <= v < 0x10000 ==> head_enc(m, v)[0] & 0x1f == 25,
        0x10000 <= v < 0x100000000 ==> head_enc(m, v)[0] & 0x1f == 26,
        v >= 0x100000000 ==> head_enc(m, v)[0] & 0x1f == 27,
{
    if v < 24 {
        assert(((m << 5) | (v as u8)) >> 5 == m && ((m << 5) | (v as u8)) & 0x1f == v as u8
            && (v as u8) < 24 && ((v as u8) as u64) == v) by (bit_vector)
            requires m < 8 && v < 24;
    } else if v < 0x100 {
        assert(((m << 5) | 24u8) >> 5 == m && ((m << 5) | 24u8) & 0x1f == 24) by (bit_vector)
            requires m < 8;
    } else if v < 0x10000 {
        assert(((m << 5) | 25u8) >> 5 == m && ((m << 5) | 25u8) & 0x1f == 25) by (bit_vector)
            requires m < 8;
    } else if v < 0x100000000 {
        assert(((m << 5) | 26u8) >> 5 == m && ((m << 5) | 26u8) & 0x1f == 26) by (bit_vector)
            requires m < 8;
    } else {
        assert(((m << 5) | 27u8) >> 5 == m && ((m << 5) | 27u8) & 0x1f == 27) by (bit_vector)
            requires m < 8;
    }
}

/// A two-byte big-endian argument is recovered exactly from its bytes.
proof fn lemma_be2(v: u64, b1: u8, b2: u8)
    requires
        (v >> 8) as u8 == b1,
        v as u8 == b2,
        v < 0x10000,
    ensures
        v == ((b1 as u64) << 8) | (b2 as u64),
{
    assert(v < 0x10000 ==> v == ((((v >> 8) as u8) as u64) << 8) | ((v as u8) as u64))
        by (bit_vector);
}

/// A four-byte big-endian argument is recovered exactly from its bytes.
proof fn lemma_be4(v: u64, b1: u8, b2: u8, b3: u8, b4: u8)
    requires
        (v >> 24) as u8 == b1,
        (v >> 16) as u8 == b2,
        (v >> 8) as u8 == b3,
        v as u8 == b4,
        v < 0x100000000,
    ensures
        v == ((b1 as u64) << 24) | ((b2 as u64) << 16) | ((b3 as u64) << 8) | (b4 as u64),
{
    assert(v < 0x100000000 ==> v == ((((v >> 24) as u8) as u64) << 24) | ((((v >> 16) as u8)
        as u64) << 16) | ((((v >> 8) as u8) as u64) << 8) | ((v as u8) as u64)) by (bit_vector);
}

/// An eight-byte big-endian argument is recovered exactly from its bytes.
proof fn lemma_be8(v: u64, b1: u8, b2: u8, b3: u8, b4: u8, b5: u8, b6: u8, b7: u8, b8: u8)
    requires
        (v >> 56) as u8 == b1,
        (v >> 48) as u8 == b2,
        (v >> 40) as u8 == b3,
        (v >> 32) as u8 == b4,
        (v >> 24) as u8 == b5,
        (v >> 16) as u8 == b6,
        (v >> 8) as u8 == b7,
        v as u8 == b8,
    ensures
        v == ((b1 as u64) << 56) | ((b2 as u64) << 48) | ((b3 as u64) << 40) | ((b4 as u64) << 32)
            | ((b5 as u64) << 24) | ((b6 as u64) << 16) | ((b7 as u64) << 8) | (b8 as u64),
{
    assert(v == ((((v >> 56) as u8) as u64) << 56) | ((((v >> 48) as u8) as u64) << 48) | ((((v
        >> 40) as u8) as u64) << 40) | ((((v >> 32) as u8) as u64) << 32) | ((((v >> 24) as u8)
        as u64) << 24) | ((((v >> 16) as u8) as u64) << 16) | ((((v >> 8) as u8) as u64) << 8) | ((
    v as u8) as u64)) by (bit_vector);
}

/// Splits a known concatenation: when a stretch of `b` equals `a + rest`,
/// the stretch begins with `a` and continues with `rest`.
pub proof fn lemma_prefix_match(b: Seq<u8>, pos: int, a: Seq<u8>, rest: Seq<u8>)
    requires
        0 <= pos,
        pos + a.len() + rest.len() <= b.len(),
        b.subrange(pos, pos + a.len() + rest.len()) == a + rest,
    ensures
        b.subrange(pos, pos + a.len()) == a,
        b.subrange(pos + a.len(), pos + a.len() + rest.len()) == rest,
{
    let whole = b.subrange(pos, pos + a.len() + rest.len());
    assert forall|i: int| 0 <= i < a.len() implies b.subrange(pos, pos + a.len())[i] == a[i] by {
        assert(whole[i] == (a + rest)[i]);
    }
    assert(b.subrange(pos, pos + a.len()) =~= a);
    assert forall|i: int| 0 <= i < rest.len() implies b.subrange(
        pos + a.len(),
        pos + a.len() + rest.len(),
    )[i] == rest[i] by {
        assert(whole[a.len() + i] == (a + rest)[a.len() + i]);
    }
    assert(b.subrange(pos + a.len(), pos + a.len() + rest.len()) =~= rest);
}

/// Splits a known three-part concatenation into its segments.
pub proof fn lemma_split3(b: Seq<u8>, pos: int, a1: Seq<u8>, a2: Seq<u8>, a3: Seq<u8>)
    requires
        0 <= pos,
        pos + a1.len() + a2.len() + a3.len() <= b.len(),
        b.subrange(pos, pos + a1.len() + a2.len() + a3.len()) == a1 + a2 + a3,
    ensures
        b.subrange(pos, pos + a1.len()) == a1,
        b.subrange(pos + a1.len(), pos + a1.len() + a2.len()) == a2,
        b.subrange(pos + a1.len() + a2.len(), pos + a1.len() + a2.len() + a3.len()) == a3,
{
    assert(a1 + a2 + a3 =~= a1 + (a2 + a3));
    lemma_prefix_match(b, pos, a1, a2 + a3);
    lemma_prefix_match(b, pos + a1.len(), a2, a3);
}

/// Parses one canonical header at `pos`.  Succeeds exactly on the canonical
/// encodings that `head_enc` produces: the returned triple is the unique
/// (major, argument, end) whose encoding sits at `pos`, and whenever such an
/// encoding sits there the parse accepts it.
#[verifier::rlimit(50)]
pub fn parse_head(buf: &[u8], pos: usize) -> (r: Result<(u8, u64, usize), DecodeError>)
    ensures
        r matches Ok(t) ==> t.0 < 8 && pos + head_enc(t.0, t.1).len() == t.2 && t.2 <= buf@.len()
            && buf@.subrange(pos as int, t.2 as int) == head_enc(t.0, t.1),
        forall|m: u8, v: u64| #![trigger head_enc(m, v)]
            m < 8 && pos + head_enc(m, v).len() <= buf@.len() && buf@.subrange(
                pos as int,
                pos + head_enc(m, v).len(),
            ) == head_enc(m, v) ==> (r matches Ok(t) && t.0 == m && t.1 == v && t.2 == pos
                + head_enc(m, v).len()),
{
    if pos >= buf.len() {
        assert forall|m: u8, v: u64|
            m < 8 && pos + head_enc(m, v).len() <= buf@.len() && buf@.subrange(
                pos as int,
                pos + head_enc(m, v).len(),
            ) == head_enc(m, v) implies false by {}
        return Err(DecodeError::Truncated);
    }
    let rem: usize = buf.len() - pos;
    let b0: u8 = buf[pos];
    let m0: u8 = b0 >> 5;
    let ai: u8 = b0 & 0x1f;
    proof {
        assert(m0 < 8 && ai < 32) by (bit_vector)
            requires m0 == b0 >> 5 && ai == b0 & 0x1f;
    }
    if ai < 24 {
        let v0: u64 = ai as u64;
        proof {
            assert((m0 << 5) | ai == b0) by (bit_vector)
                requires m0 == b0 >> 5 && ai == b0 & 0x1f;
            assert(buf@.subrange(pos as int, pos + 1) =~= head_enc(m0, v0));
            assert forall|m: u8, v: u64|
                m < 8 && pos + head_enc(m, v).len() <= buf@.len() && buf@.subrange(
                    pos as int,
                    pos + head_enc(m, v).len(),
                ) == head_enc(m, v) implies m == m0 && v == v0 && pos + head_enc(m, v).len() == pos
                + 1 by {
                assert(head_enc(m, v)[0] == b0);
                lemma_head_byte0(m, v);
            }
        }
        return Ok((m0, v0, pos + 1));
    } else if ai == 24 {
        if rem < 2 {
            proof {
                assert forall|m: u8, v: u64|
                    m < 8 && pos + head_enc(m, v).len() <= buf@.len() && buf@.subrange(
                        pos as int,
                        pos + head_enc(m, v).len(),
                    ) == head_enc(m, v) implies false by {
                    assert(head_enc(m, v)[0] == b0);
                    lemma_head_byte0(m, v);
                }
            }
            return Err(DecodeError::Truncated);
        }
        let b1: u8 = buf[pos + 1];
        if b1 < 24 {
            proof {
                assert forall|m: u8, v: u64|
                    m < 8 && pos + head_enc(m, v).len() <= buf@.len() && buf@.subrange(
                        pos as int,
                        pos + head_enc(m, v).len(),
                    ) == head_enc(m, v) implies false by {
                    assert(head_enc(m, v)[0] == b0);
                    lemma_head_byte0(m, v);
                    assert(24 <= v < 0x100);
                    assert(head_enc(m, v)[1] == b1);
                    assert(v as u8 == b1 && 24 <= v < 0x100 ==> false) by (bit_vector)
                        requires b1 < 24;
                }
            }
            return Err(DecodeError::Malformed);
        }
        let v0: u64 = b1 as u64;
        proof {
            assert((m0 << 5) | 24u8 == b0) by (bit_vector)
                requires m0 == b0 >> 5 && 24u8 == b0 & 0x1f;
            assert(v0 as u8 == b1 && 24 <= v0 < 0x100) by (bit_vector)
                requires v0 == b1 as u64 && b1 >= 24;
            assert(buf@.subrange(pos as int, pos + 2) =~= head_enc(m0, v0));
            assert forall|m: u8, v: u64|
                m < 8 && pos + head_enc(m, v).len() <= buf@.len() && buf@.subrange(
                    pos as int,
                    pos + head_enc(m, v).len(),
                ) == head_enc(m, v) implies m == m0 && v == v0 && pos + head_enc(m, v).len() == pos
                + 2 by {
                assert(head_enc(m, v)[0] == b0);
                lemma_head_byte0(m, v);
                assert(24 <= v < 0x100);
                assert(head_enc(m, v)[1] == b1);
                assert(v as u8 == b1 && v < 0x100 ==> v == b1 as u64) by (bit_vector);
            }
        }
        return Ok((m0, v0, pos + 2));
    } else if ai == 25 {
        if rem < 3 {
            proof {
                assert forall|m: u8, v: u64|
                    m < 8 && pos + head_enc(m, v).len() <= buf@.len() && buf@.subrange(
                        pos as int,
                        pos + head_enc(m, v).len(),
                    ) == head_enc(m, v) implies false by {
                    assert(head_enc(m, v)[0] == b0);
                    lemma_head_byte0(m, v);
                }
            }
            return Err(DecodeError::Truncated);
        }
        let b1: u8 = buf[pos + 1];
        let b2: u8 = buf[pos + 2];
        let v0: u64 = ((b1 as u64) << 8) | (b2 as u64);
        if v0 < 0x100 {
            proof {
                assert forall|m: u8, v: u64|
                    m < 8 && pos + head_enc(m, v).len() <= buf@.len() && buf@.subrange(
                        pos as int,
                        pos + head_enc(m, v).len(),
                    ) == head_enc(m, v) implies false by {
                    assert(head_enc(m, v)[0] == b0);
                    lemma_head_byte0(m, v);
                    assert(0x100 <= v < 0x10000);
                    assert(head_enc(m, v)[1] == b1 && head_enc(m, v)[2] == b2);
                    lemma_be2(v, b1, b2);
                }
            }
            return Err(DecodeError::Malformed);
        }
        proof {
            assert((m0 << 5) | 25u8 == b0) by (bit_vector)
                requires m0 == b0 >> 5 && 25u8 == b0 & 0x1f;
            assert((v0 >> 8) as u8 == b1 && v0 as u8 == b2 && v0 < 0x10000) by (bit_vector)
                requires v0 == ((b1 as u64) << 8) | (b2 as u64);
            assert(buf@.subrange(pos as int, pos + 3) =~= head_enc(m0, v0));
            assert forall|m: u8, v: u64|
                m < 8 && pos + head_enc(m, v).len() <= buf@.len() && buf@.subrange(
                    pos as int,
                    pos + head_enc(m, v).len(),
                ) == head_enc(m, v) implies m == m0 && v == v0 && pos + head_enc(m, v).len() == pos
                + 3 by {
                assert(head_enc(m, v)[0] == b0);
                lemma_head_byte0(m, v);
                assert(0x100 <= v < 0x10000);
                assert(head_enc(m, v)[1] == b1 && head_enc(m, v)[2] == b2);
                lemma_be2(v, b1, b2);
            }
        }
        return Ok((m0, v0, pos + 3));
    } else if ai == 26 {
        if rem < 5 {
            proof {
                assert forall|m: u8, v: u64|
                    m < 8 && pos + head_enc(m, v).len() <= buf@.len() && buf@.subrange(
                        pos as int,
                        pos + head_enc(m, v).len(),
                    ) == head_enc(m, v) implies false by {
                    assert(head_enc(m, v)[0] == b0);
                    lemma_head_byte0(m, v);
                }
            }
            return Err(DecodeError::Truncated);
        }
        let b1: u8 = buf[pos + 1];
        let b2: u8 = buf[pos + 2];
        let b3: u8 = buf[pos + 3];
        let b4: u8 = buf[pos + 4];
        let v0: u64 = ((b1 as u64) << 24) | ((b2 as u64) << 16) | ((b3 as u64) << 8) | (b4 as u64);
        if v0 < 0x10000 {
            proof {
                assert forall|m: u8, v: u64|
                    m < 8 && pos + head_enc(m, v).len() <= buf@.len() && buf@.subrange(
                        pos as int,
                        pos + head_enc(m, v).len(),
                    ) == head_enc(m, v) implies false by {
                    assert(head_enc(m, v)[0] == b0);
                    lemma_head_byte0(m, v);
                    assert(0x10000 <= v < 0x100000000);
                    assert(head_enc(m, v)[1] == b1 && head_enc(m, v)[2] == b2 && head_enc(m, v)[3]
                        == b3 && head_enc(m, v)[4] == b4);
                    lemma_be4(v, b1, b2, b3, b4);
                }
            }
            return Err(DecodeError::Malformed);
        }
        proof {
            assert((m0 << 5) | 26u8 == b0) by (bit_vector)
                requires m0 == b0 >> 5 && 26u8 == b0 & 0x1f;
            assert((v0 >> 24) as u8 == b1 && (v0 >> 16) as u8 == b2 && (v0 >> 8) as u8 == b3 && v0
                as u8 == b4 && v0 < 0x100000000) by (bit_vector)
                requires v0 == ((b1 as u64) << 24) | ((b2 as u64) << 16) | ((b3 as u64) << 8) | (
                b4 as u64);
            assert(buf@.subrange(pos as int, pos + 5) =~= head_enc(m0, v0));
            assert forall|m: u8, v: u64|
                m < 8 && pos + head_enc(m, v).len() <= buf@.len() && buf@.subrange(
                    pos as int,
                    pos + head_enc(m, v).len(),
                ) == head_enc(m, v) implies m == m0 && v == v0 && pos + head_enc(m, v).len() == pos
                + 5 by {
                assert(head_enc(m, v)[0] == b0);
                lemma_head_byte0(m, v);
                assert(0x10000 <= v < 0x100000000);
                assert(head_enc(m, v)[1] == b1 && head_enc(m, v)[2] == b2 && head_enc(m, v)[3] == b3
                    && head_enc(m, v)[4] == b4);
                lemma_be4(v, b1, b2, b3, b4);
            }
        }
        return Ok((m0, v0, pos + 5));
    } else if ai == 27 {
        if rem < 9 {
            proof {
                assert forall|m: u8, v: u64|
                    m < 8 && pos + head_enc(m, v).len() <= buf@.len() && buf@.subrange(
                        pos as int,
                        pos + head_enc(m, v).len(),
                    ) == head_enc(m, v) implies false by {
                    assert(head_enc(m, v)[0] == b0);
                    lemma_head_byte0(m, v);
                }
            }
            return Err(DecodeError::Truncated);
        }
        let b1: u8 = buf[pos + 1];
        let b2: u8 = buf[pos + 2];
        let b3: u8 = buf[pos + 3];
        let b4: u8 = buf[pos + 4];
        let b5: u8 = buf[pos + 5];
        let b6: u8 = buf[pos + 6];
        let b7: u8 = buf[pos + 7];
        let b8: u8 = buf[pos + 8];
        let hi: u64 = ((b1 as u64) << 56) | ((b2 as u64) << 48) | ((b3 as u64) << 40) | ((b4
            as u64) << 32);
        let v0: u64 = hi | ((b5 as u64) << 24) | ((b6 as u64) << 16) | ((b7 as u64) << 8) | (b8
            as u64);
        if v0 < 0x100000000 {
            proof {
                assert forall|m: u8, v: u64|
                    m < 8 && pos + head_enc(m, v).len() <= buf@.len() && buf@.subrange(
                        pos as int,
                        pos + head_enc(m, v).len(),
                    ) == head_enc(m, v) implies false by {
                    assert(head_enc(m, v)[0] == b0);
                    lemma_head_byte0(m, v);
                    assert(v >= 0x100000000);
                    assert(head_enc(m, v)[1] == b1 && head_enc(m, v)[2] == b2 && head_enc(m, v)[3]
                        == b3 && head_enc(m, v)[4] == b4 && head_enc(m, v)[5] == b5 && head_enc(
                        m,
                        v,
                    )[6] == b6 && head_enc(m, v)[7] == b7 && head_enc(m, v)[8] == b8);
                    lemma_be8(v, b1, b2, b3, b4, b5, b6, b7, b8);
                }
            }
            return Err(DecodeError::Malformed);
        }
        proof {
            assert((m0 << 5) | 27u8 == b0) by (bit_vector)
                requires m0 == b0 >> 5 && 27u8 == b0 & 0x1f;
            assert((v0 >> 56) as u8 == b1 && (v0 >> 48) as u8 == b2 && (v0 >> 40) as u8 == b3 && (v0
                >> 32) as u8 == b4 && (v0 >> 24) as u8 == b5 && (v0 >> 16) as u8 == b6 && (v0 >> 8)
                as u8 == b7 && v0 as u8 == b8) by (bit_vector)
                requires v0 == ((b1 as u64) << 56) | ((b2 as u64) << 48) | ((b3 as u64) << 40) | ((
                b4 as u64) << 32) | ((b5 as u64) << 24) | ((b6 as u64) << 16) | ((b7 as u64) << 8)
                    | (b8 as u64);
            assert(buf@.subrange(pos as int, pos + 9) =~= head_enc(m0, v0));
            assert forall|m: u8, v: u64|
                m < 8 && pos + head_enc(m, v).len() <= buf@.len() && buf@.subrange(
                    pos as int,
                    pos + head_enc(m, v).len(),
                ) == head_enc(m, v) implies m == m0 && v == v0 && pos + head_enc(m, v).len() == pos
                + 9 by {
                assert(head_enc(m, v)[0] == b0);
                lemma_head_byte0(m, v);
                assert(v >= 0x100000000);
                assert(head_enc(m, v)[1] == b1 && head_enc(m, v)[2] == b2 && head_enc(m, v)[3] == b3
                    && head_enc(m, v)[4] == b4 && head_enc(m, v)[5] == b5 && head_enc(m, v)[6] == b6
                    && head_enc(m, v)[7] == b7 && head_enc(m, v)[8] == b8);
                lemma_be8(v, b1, b2, b3, b4, b5, b6, b7, b8);
            }
        }
        return Ok((m0, v0, pos + 9));
    } else {
        proof {
            assert forall|m: u8, v: u64|
                m < 8 && pos + head_enc(m, v).len() <= buf@.len() && buf@.subrange(
                    pos as int,
                    pos + head_enc(m, v).len(),
                ) == head_enc(m, v) implies false by {
                assert(head_enc(m, v)[0] == b0);
                lemma_head_byte0(m, v);
            }
        }
        return Err(DecodeError::Malformed);
    }
}

/// Canonical encoding of an unsigned integer (major type 0).
pub open spec fn uenc(v: u64) -> Seq<u8> {
    head_enc(0, v)
}

/// Appends the canonical encoding of `v` to `out`.
pub fn push_uint(out: &mut Vec<u8>, v: u64)
    ensures
        final(out)@ == old(out)@ + uenc(v),
{
    push_head(out, 0, v);
}

/// Parses one canonical unsigned integer at `pos`: succeeds exactly on the
/// encodings `uenc` produces and returns the encoded value.
pub fn parse_uint(buf: &[u8], pos: usize) -> (r: Result<(u64, usize), DecodeError>)
    ensures
        r matches Ok(t) ==> pos + uenc(t.0).len() == t.1 && t.1 <= buf@.len() && buf@.subrange(
            pos as int,
            t.1 as int,
        ) == uenc(t.0),
        forall|v: u64| #![trigger uenc(v)]
            pos + uenc(v).len() <= buf@.len() && buf@.subrange(pos as int, pos + uenc(v).len())
                == uenc(v) ==> (r matches Ok(t) && t.0 == v && t.1 == pos + uenc(v).len()),
{
    match parse_head(buf, pos) {
        Ok((m, v, end)) => {
            if m == 0 {
                Ok((v, end))
            } else {
                proof {
                    assert forall|w: u64|
                        pos + uenc(w).len() <= buf@.len() && buf@.subrange(
                            pos as int,
                            pos + uenc(w).len(),
                        ) == uenc(w) implies false by {
                        assert(uenc(w) == head_enc(0, w));
                    }
                }
                Err(DecodeError::Malformed)
            }
        },
        Err(e) => {
            proof {
                assert forall|w: u64|
                    pos + uenc(w).len() <= buf@.len() && buf@.subrange(
                        pos as int,
                        pos + uenc(w).len(),
                    ) == uenc(w) implies false by {
                    assert(uenc(w) == head_enc(0, w));
                }
            }
            Err(e)
        },
    }
}

/// Canonical encoding of a boolean (the two simple values).
pub open spec fn bool_enc(b: bool) -> Seq<u8> {
    if b {
        seq![0xf5u8]
    } else {
        seq![0xf4u8]
    }
}

/// Appends the encoding of `b` to `out`.
pub fn push_bool(out: &mut Vec<u8>, b: bool)
    ensures
        final(out)@ == old(out)@ + bool_enc(b),
{
    if b {
        out.push(0xf5);
    } else {
        out.push(0xf4);
    }
    assert(out@ =~= old(out)@ + bool_enc(b));
}

/// Parses one boolean at `pos`: succeeds exactly on the two bytes `bool_enc`
/// produces.
pub fn parse_bool(buf: &[u8], pos: usize) -> (r: Result<(bool, usize), DecodeError>)
    ensures
        r matches Ok(t) ==> pos + 1 == t.1 && t.1 <= buf@.len() && buf@.subrange(
            pos as int,
            t.1 as int,
        ) == bool_enc(t.0),
        forall|b: bool| #![trigger bool_enc(b)]
            pos + bool_enc(b).len() <= buf@.len() && buf@.subrange(pos as int, pos + bool_enc(
                b,
            ).len()) == bool_enc(b) ==> (r matches Ok(t) && t.0 == b && t.1 == pos + 1),
{
    if pos >= buf.len() {
        return Err(DecodeError::Truncated);
    }
    let b0: u8 = buf[pos];
    if b0 == 0xf4 {
        proof {
            assert(buf@.subrange(pos as int, pos + 1) =~= bool_enc(false));
            assert forall|b: bool|
                pos + bool_enc(b).len() <= buf@.len() && buf@.subrange(
                    pos as int,
                    pos + bool_enc(b).len(),
                ) == bool_enc(b) implies b == false by {
                assert(bool_enc(b)[0] == b0);
            }
        }
        Ok((false, pos + 1))
    } else if b0 == 0xf5 {
        proof {
            assert(buf@.subrange(pos as int, pos + 1) =~= bool_enc(true));
            assert forall|b: bool|
                pos + bool_enc(b).len() <= buf@.len() && buf@.subrange(
                    pos as int,
                    pos + bool_enc(b).len(),
                ) == bool_enc(b) implies b == true by {
                assert(bool_enc(b)[0] == b0);
            }
        }
        Ok((true, pos + 1))
    } else {
        proof {
            assert forall|b: bool|
                pos + bool_enc(b).len() <= buf@.len() && buf@.subrange(
                    pos as int,
                    pos + bool_enc(b).len(),
                ) == bool_enc(b) implies false by {
                assert(bool_enc(b)[0] == b0);
            }
        }
        Err(DecodeError::Malformed)
    }
}

/// Canonical encoding of a signed 32-bit value: a non-negative value is an
/// unsigned item, a negative one a negative item with argument `-1 - c`.
pub open spec fn i32_enc(c: i32) -> Seq<u8> {
    if c >= 0 {
        head_enc(0, c as u64)
    } else {
        head_enc(1, (-1 - c) as u64)
    }
}

/// Appends the encoding of `c` to `out`.
pub fn push_i32(out: &mut Vec<u8>, c: i32)
    ensures
        final(out)@ == old(out)@ + i32_enc(c),
{
    if c >= 0 {
        push_head(out, 0, c as u64);
    } else {
        let mag: i64 = -1 - (c as i64);
        assert(mag as u64 == (-1 - c) as u64);
        push_head(out, 1, mag as u64);
    }
}

/// Parses one signed 32-bit value at `pos`: succeeds exactly on the
/// encodings `i32_enc` produces.
pub fn parse_i32(buf: &[u8], pos: usize) -> (r: Result<(i32, usize), DecodeError>)
    ensures
        r matches Ok(t) ==> pos + i32_enc(t.0).len() == t.1 && t.1 <= buf@.len() && buf@.subrange(
            pos as int,
            t.1 as int,
        ) == i32_enc(t.0),
        forall|c: i32| #![trigger i32_enc(c)]
            pos + i32_enc(c).len() <= buf@.len() && buf@.subrange(pos as int, pos + i32_enc(
                c,
            ).len()) == i32_enc(c) ==> (r matches Ok(t) && t.0 == c && t.1 == pos + i32_enc(
                c,
            ).len()),
{
    match parse_head(buf, pos) {
        Ok((m, v, end)) => {
            if m == 0 {
                if v > 0x7fffffff {
                    proof {
                        assert forall|c: i32|
                            pos + i32_enc(c).len() <= buf@.len() && buf@.subrange(
                                pos as int,
                                pos + i32_enc(c).len(),
                            ) == i32_enc(c) implies false by {
                            if c >= 0 {
                                assert(i32_enc(c) == head_enc(0, c as u64));
                            } else {
                                assert(i32_enc(c) == head_enc(1, (-1 - c) as u64));
                            }
                        }
                    }
                    Err(DecodeError::Malformed)
                } else {
                    let c: i32 = v as i32;
                    proof {
                        assert(c as u64 == v && c >= 0);
                        assert forall|w: i32|
                            pos + i32_enc(w).len() <= buf@.len() && buf@.subrange(
                                pos as int,
                                pos + i32_enc(w).len(),
                            ) == i32_enc(w) implies w == c && pos + i32_enc(w).len() == end by {
                            if w >= 0 {
                                assert(i32_enc(w) == head_enc(0, w as u64));
                            } else {
                                assert(i32_enc(w) == head_enc(1, (-1 - w) as u64));
                            }
                        }
                    }
                    Ok((c, end))
                }
            } else if m == 1 {
                if v > 0x7fffffff {
                    proof {
                        assert forall|c: i32|
                            pos + i32_enc(c).len() <= buf@.len() && buf@.subrange(
                                pos as int,
                                pos + i32_enc(c).len(),
                            ) == i32_enc(c) implies false by {
                            if c >= 0 {
                                assert(i32_enc(c) == head_enc(0, c as u64));
                            } else {
                                assert(i32_enc(c) == head_enc(1, (-1 - c) as u64));
                            }
                        }
                    }
                    Err(DecodeError::Malformed)
                } else {
                    let c64: i64 = -1 - (v as i64);
                    let c: i32 = c64 as i32;
                    proof {
                        assert(c < 0 && (-1 - c) as u64 == v);
                        assert forall|w: i32|
                            pos + i32_enc(w).len() <= buf@.len() && buf@.subrange(
                                pos as int,
                                pos + i32_enc(w).len(),
                            ) == i32_enc(w) implies w == c && pos + i32_enc(w).len() == end by {
                            if w >= 0 {
                                assert(i32_enc(w) == head_enc(0, w as u64));
                            } else {
                                assert(i32_enc(w) == head_enc(1, (-1 - w) as u64));
                            }
                        }
                    }
                    Ok((c, end))
                }
            } else {
                proof {
                    assert forall|c: i32|
                        pos + i32_enc(c).len() <= buf@.len() && buf@.subrange(
                            pos as int,
                            pos + i32_enc(c).len(),
                        ) == i32_enc(c) implies false by {
                        if c >= 0 {
                            assert(i32_enc(c) == head_enc(0, c as u64));
                        } else {
                            assert(i32_enc(c) == head_enc(1, (-1 - c) as u64));
                        }
                    }
                }
                Err(DecodeError::Malformed)
            }
        },
        Err(e) => {
            proof {
                assert forall|c: i32|
                    pos + i32_enc(c).len() <= buf@.len() && buf@.subrange(
                        pos as int,
                        pos + i32_enc(c).len(),
                    ) == i32_enc(c) implies false by {
                    if c >= 0 {
                        assert(i32_enc(c) == head_enc(0, c as u64));
                    } else {
                        assert(i32_enc(c) == head_enc(1, (-1 - c) as u64));
                    }
                }
            }
            Err(e)
        },
    }
}

/// Canonical encoding of a text string: its UTF-8 bytes behind a major
/// type 3 header.  The library carries textual data as the raw bytes and
/// never interprets them.
pub open spec fn tstr_enc(s: Seq<u8>) -> Seq<u8> {
    head_enc(3, s.len() as u64) + s
}

/// Appends the encoding of the text `s` to `out`.
pub fn push_tstr(out: &mut Vec<u8>, s: &[u8])
    ensures
        final(out)@ == old(out)@ + tstr_enc(s@),
{
    push_head(out, 3, s.len() as u64);
    out.extend_from_slice(s);
    assert(out@ =~= old(out)@ + tstr_enc(s@));
}

/// Parses one canonical text string at `pos`: succeeds exactly on the
/// encodings `tstr_enc` produces and hands the payload bytes out.
pub fn parse_tstr(buf: &[u8], pos: usize) -> (r: Result<(Vec<u8>, usize), DecodeError>)
    ensures
        r matches Ok(t) ==> pos + tstr_enc(t.0@).len() == t.1 && t.1 <= buf@.len()
            && buf@.subrange(pos as int, t.1 as int) == tstr_enc(t.0@),
        forall|s: Seq<u8>| #![trigger tstr_enc(s)]
            pos + tstr_enc(s).len() <= buf@.len() && buf@.subrange(
                pos as int,
                pos + tstr_enc(s).len(),
            ) == tstr_enc(s) ==> (r matches Ok(t) && t.0@ == s && t.1 == pos + tstr_enc(s).len()),
{
    match parse_head(buf, pos) {
        Ok((m, n, hend)) => {
            if m != 3 {
                proof {
                    assert forall|s: Seq<u8>|
                        pos + tstr_enc(s).len() <= buf@.len() && buf@.subrange(
                            pos as int,
                            pos + tstr_enc(s).len(),
                        ) == tstr_enc(s) implies false by {
                        lemma_prefix_match(buf@, pos as int, head_enc(3, s.len() as u64), s);
                    }
                }
                return Err(DecodeError::Malformed);
            }
            let rem: usize = buf.len() - hend;
            if n > rem as u64 {
                proof {
                    assert forall|s: Seq<u8>|
                        pos + tstr_enc(s).len() <= buf@.len() && buf@.subrange(
                            pos as int,
                            pos + tstr_enc(s).len(),
                        ) == tstr_enc(s) implies false by {
                        lemma_prefix_match(buf@, pos as int, head_enc(3, s.len() as u64), s);
                    }
                }
                return Err(DecodeError::Truncated);
            }
            let nn: usize = n as usize;
            let payload = vstd::slice::slice_subrange(buf, hend, hend + nn);
            let v = vstd::slice::slice_to_vec(payload);
            let end: usize = hend + nn;
            proof {
                assert(buf@.subrange(pos as int, end as int) =~= head_enc(3, n) + v@);
                assert(v@.len() as u64 == n);
                assert forall|s: Seq<u8>|
                    pos + tstr_enc(s).len() <= buf@.len() && buf@.subrange(
                        pos as int,
                        pos + tstr_enc(s).len(),
                    ) == tstr_enc(s) implies v@ == s && pos + tstr_enc(s).len() == end by {
                    lemma_prefix_match(buf@, pos as int, head_enc(3, s.len() as u64), s);
                }
            }
            Ok((v, end))
        },
        Err(e) => {
            proof {
                assert forall|s: Seq<u8>|
                    pos + tstr_enc(s).len() <= buf@.len() && buf@.subrange(
                        pos as int,
                        pos + tstr_enc(s).len(),
                    ) == tstr_enc(s) implies false by {
                    lemma_prefix_match(buf@, pos as int, head_enc(3, s.len() as u64), s);
                }
            }
            Err(e)
        },
    }
}

/// Parses the exact header (`major`, `v`) at `pos`: succeeds exactly when
/// that header's canonical encoding sits there.
pub fn parse_expect_head(buf: &[u8], pos: usize, major: u8, v: u64) -> (r: Result<
    usize,
    DecodeError,
>)
    requires
        major < 8,
    ensures
        r matches Ok(end) ==> end == pos + head_enc(major, v).len() && end <= buf@.len()
            && buf@.subrange(pos as int, end as int) == head_enc(major, v),
        pos + head_enc(major, v).len() <= buf@.len() && buf@.subrange(
            pos as int,
            pos + head_enc(major, v).len(),
        ) == head_enc(major, v) ==> r == Ok::<usize, DecodeError>(
            (pos + head_enc(major, v).len()) as usize,
        ),
{
    match parse_head(buf, pos) {
        Ok((m, w, end)) => {
            if m == major && w == v {
                Ok(end)
            } else {
                Err(DecodeError::Malformed)
            }
        },
        Err(e) => Err(e),
    }
}

/// Parses the exact text string `key` at `pos`: succeeds exactly when the
/// canonical encoding of `key` sits there.
pub fn parse_key(buf: &[u8], pos: usize, key: &[u8]) -> (r: Result<usize, DecodeError>)
    ensures
        r matches Ok(end) ==> end == pos + tstr_enc(key@).len() && end <= buf@.len()
            && buf@.subrange(pos as int, end as int) == tstr_enc(key@),
        pos + tstr_enc(key@).len() <= buf@.len() && buf@.subrange(
            pos as int,
            pos + tstr_enc(key@).len(),
        ) == tstr_enc(key@) ==> r == Ok::<usize, DecodeError>(
            (pos + tstr_enc(key@).len()) as usize,
        ),
{
    match parse_tstr(buf, pos) {
        Ok((s, end)) => {
            if bytes_eq(s.as_slice(), key) {
                Ok(end)
            } else {
                Err(DecodeError::Malformed)
            }
        },
        Err(e) => Err(e),
    }
}

/// A one-entry map whose single value is an unsigned integer.
pub open spec fn map1_u64_enc(k: Seq<u8>, v: u64) -> Seq<u8> {
    head_enc(5, 1) + tstr_enc(k) + uenc(v)
}

/// Appends `{k: v}` to `out`.
pub fn push_map1_u64(out: &mut Vec<u8>, key: &[u8], v: u64)
    ensures
        final(out)@ == old(out)@ + map1_u64_enc(key@, v),
{
    push_head(out, 5, 1);
    push_tstr(out, key);
    push_uint(out, v);
    assert(out@ =~= old(out)@ + map1_u64_enc(key@, v));
}

/// Parses `{k: v}` at `pos`: succeeds exactly on the encodings
/// `map1_u64_enc` produces for the given key.
pub fn parse_map1_u64(buf: &[u8], pos: usize, key: &[u8]) -> (r: Result<(u64, usize), DecodeError>)
    ensures
        r matches Ok(t) ==> pos + map1_u64_enc(key@, t.0).len() == t.1 && t.1 <= buf@.len()
            && buf@.subrange(pos as int, t.1 as int) == map1_u64_enc(key@, t.0),
        forall|v: u64| #![trigger map1_u64_enc(key@, v)]
            pos + map1_u64_enc(key@, v).len() <= buf@.len() && buf@.subrange(
                pos as int,
                pos + map1_u64_enc(key@, v).len(),
            ) == map1_u64_enc(key@, v) ==> (r matches Ok(t) && t.0 == v && t.1 == pos
                + map1_u64_enc(key@, v).len()),
{
    proof {
        assert forall|v: u64|
            pos + map1_u64_enc(key@, v).len() <= buf@.len() && buf@.subrange(
                pos as int,
                pos + map1_u64_enc(key@, v).len(),
            ) == map1_u64_enc(key@, v) implies buf@.subrange(
            pos as int,
            pos + head_enc(5, 1).len(),
        ) == head_enc(5, 1) && buf@.subrange(
            pos + head_enc(5, 1).len(),
            pos + head_enc(5, 1).len() + tstr_enc(key@).len(),
        ) == tstr_enc(key@) && buf@.subrange(
            pos + head_enc(5, 1).len() + tstr_enc(key@).len(),
            pos + map1_u64_enc(key@, v).len(),
        ) == uenc(v) by {
            assert(map1_u64_enc(key@, v) =~= head_enc(5, 1) + (tstr_enc(key@) + uenc(v)));
            lemma_prefix_match(buf@, pos as int, head_enc(5, 1), tstr_enc(key@) + uenc(v));
            lemma_prefix_match(
                buf@,
                pos + head_enc(5, 1).len(),
                tstr_enc(key@),
                uenc(v),
            );
        }
    }
    let p1 = match parse_expect_head(buf, pos, 5, 1) {
        Ok(p) => p,
        Err(e) => {
            return Err(e);
        },
    };
    let p2 = match parse_key(buf, p1, key) {
        Ok(p) => p,
        Err(e) => {
            return Err(e);
        },
    };
    match parse_uint(buf, p2) {
        Ok((v, p3)) => {
            proof {
                assert(buf@.subrange(pos as int, p3 as int) =~= buf@.subrange(
                    pos as int,
                    p1 as int,
                ) + buf@.subrange(p1 as int, p2 as int) + buf@.subrange(p2 as int, p3 as int));
            }
            Ok((v, p3))
        },
        Err(e) => Err(e),
    }
}

/// A one-entry map whose single value is a boolean.
pub open spec fn map1_bool_enc(k: Seq<u8>, b: bool) -> Seq<u8> {
    head_enc(5, 1) + tstr_enc(k) + bool_enc(b)
}

/// Appends `{k: b}` to `out`.
pub fn push_map1_bool(out: &mut Vec<u8>, key: &[u8], b: bool)
    ensures
        final(out)@ == old(out)@ + map1_bool_enc(key@, b),
{
    push_head(out, 5, 1);
    push_tstr(out, key);
    push_bool(out, b);
    assert(out@ =~= old(out)@ + map1_bool_enc(key@, b));
}

/// Parses `{k: b}` at `pos`: succeeds exactly on the encodings
/// `map1_bool_enc` produces for the given key.
pub fn parse_map1_bool(buf: &[u8], pos: usize, key: &[u8]) -> (r: Result<
    (bool, usize),
    DecodeError,
>)
    ensures
        r matches Ok(t) ==> pos + map1_bool_enc(key@, t.0).len() == t.1 && t.1 <= buf@.len()
            && buf@.subrange(pos as int, t.1 as int) == map1_bool_enc(key@, t.0),
        forall|b: bool| #![trigger map1_bool_enc(key@, b)]
            pos + map1_bool_enc(key@, b).len() <= buf@.len() && buf@.subrange(
                pos as int,
                pos + map1_bool_enc(key@, b).len(),
            ) == map1_bool_enc(key@, b) ==> (r matches Ok(t) && t.0 == b && t.1 == pos
                + map1_bool_enc(key@, b).len()),
{
    proof {
        assert forall|b: bool|
            pos + map1_bool_enc(key@, b).len() <= buf@.len() && buf@.subrange(
                pos as int,
                pos + map1_bool_enc(key@, b).len(),
            ) == map1_bool_enc(key@, b) implies buf@.subrange(pos as int, pos + head_enc(5, 1).len())
            == head_enc(5, 1) && buf@.subrange(
            pos + head_enc(5, 1).len(),
            pos + head_enc(5, 1).len() + tstr_enc(key@).len(),
        ) == tstr_enc(key@) && buf@.subrange(
            pos + head_enc(5, 1).len() + tstr_enc(key@).len(),
            pos + map1_bool_enc(key@, b).len(),
        ) == bool_enc(b) by {
            assert(map1_bool_enc(key@, b) =~= head_enc(5, 1) + (tstr_enc(key@) + bool_enc(b)));
            lemma_prefix_match(buf@, pos as int, head_enc(5, 1), tstr_enc(key@) + bool_enc(b));
            lemma_prefix_match(buf@, pos + head_enc(5, 1).len(), tstr_enc(key@), bool_enc(b));
        }
    }
    let p1 = match parse_expect_head(buf, pos, 5, 1) {
        Ok(p) => p,
        Err(e) => {
            return Err(e);
        },
    };
    let p2 = match parse_key(buf, p1, key) {
        Ok(p) => p,
        Err(e) => {
            return Err(e);
        },
    };
    match parse_bool(buf, p2) {
        Ok((b, p3)) => {
            proof {
                assert(buf@.subrange(pos as int, p3 as int) =~= buf@.subrange(
                    pos as int,
                    p1 as int,
                ) + buf@.subrange(p1 as int, p2 as int) + buf@.subrange(p2 as int, p3 as int));
            }
            Ok((b, p3))
        },
        Err(e) => Err(e),
    }
}

/// A one-entry map whose single value is a signed 32-bit integer.
pub open spec fn map1_i32_enc(k: Seq<u8>, c: i32) -> Seq<u8> {
    head_enc(5, 1) + tstr_enc(k) + i32_enc(c)
}

/// Appends `{k: c}` to `out`.
pub fn push_map1_i32(out: &mut Vec<u8>, key: &[u8], c: i32)
    ensures
        final(out)@ == old(out)@ + map1_i32_enc(key@, c),
{
    push_head(out, 5, 1);
    push_tstr(out, key);
    push_i32(out, c);
    assert(out@ =~= old(out)@ + map1_i32_enc(key@, c));
}

/// Parses `{k: c}` at `pos`: succeeds exactly on the encodings
/// `map1_i32_enc` produces for the given key.
pub fn parse_map1_i32(buf: &[u8], pos: usize, key: &[u8]) -> (r: Result<(i32, usize), DecodeError>)
    ensures
        r matches Ok(t) ==> pos + map1_i32_enc(key@, t.0).len() == t.1 && t.1 <= buf@.len()
            && buf@.subrange(pos as int, t.1 as int) == map1_i32_enc(key@, t.0),
        forall|c: i32| #![trigger map1_i32_enc(key@, c)]
            pos + map1_i32_enc(key@, c).len() <= buf@.len() && buf@.subrange(
                pos as int,
                pos + map1_i32_enc(key@, c).len(),
            ) == map1_i32_enc(key@, c) ==> (r matches Ok(t) && t.0 == c && t.1 == pos
                + map1_i32_enc(key@, c).len()),
{
    proof {
        assert forall|c: i32|
            pos + map1_i32_enc(key@, c).len() <= buf@.len() && buf@.subrange(
                pos as int,
                pos + map1_i32_enc(key@, c).len(),
            ) == map1_i32_enc(key@, c) implies buf@.subrange(pos as int, pos + head_enc(5, 1).len())
            == head_enc(5, 1) && buf@.subrange(
            pos + head_enc(5, 1).len(),
            pos + head_enc(5, 1).len() + tstr_enc(key@).len(),
        ) == tstr_enc(key@) && buf@.subrange(
            pos + head_enc(5, 1).len() + tstr_enc(key@).len(),
            pos + map1_i32_enc(key@, c).len(),
        ) == i32_enc(c) by {
            assert(map1_i32_enc(key@, c) =~= head_enc(5, 1) + (tstr_enc(key@) + i32_enc(c)));
            lemma_prefix_match(buf@, pos as int, head_enc(5, 1), tstr_enc(key@) + i32_enc(c));
            lemma_prefix_match(buf@, pos + head_enc(5, 1).len(), tstr_enc(key@), i32_enc(c));
        }
    }
    let p1 = match parse_expect_head(buf, pos, 5, 1) {
        Ok(p) => p,
        Err(e) => {
            return Err(e);
        },
    };
    let p2 = match parse_key(buf, p1, key) {
        Ok(p) => p,
        Err(e) => {
            return Err(e);
        },
    };
    match parse_i32(buf, p2) {
        Ok((c, p3)) => {
            proof {
                assert(buf@.subrange(pos as int, p3 as int) =~= buf@.subrange(
                    pos as int,
                    p1 as int,
                ) + buf@.subrange(p1 as int, p2 as int) + buf@.subrange(p2 as int, p3 as int));
            }
            Ok((c, p3))
        },
        Err(e) => Err(e),
    }
}

/// A one-entry map whose single value is a text string.
pub open spec fn map1_tstr_enc(k: Seq<u8>, s: Seq<u8>) -> Seq<u8> {
    head_enc(5, 1) + tstr_enc(k) + tstr_enc(s)
}

/// Appends `{k: s}` to `out`.
pub fn push_map1_tstr(out: &mut Vec<u8>, key: &[u8], s: &[u8])
    ensures
        final(out)@ == old(out)@ + map1_tstr_enc(key@, s@),
{
    push_head(out, 5, 1);
    push_tstr(out, key);
    push_tstr(out, s);
    assert(out@ =~= old(out)@ + map1_tstr_enc(key@, s@));
}

/// Parses `{k: s}` at `pos`: succeeds exactly on the encodings
/// `map1_tstr_enc` produces for the given key.
pub fn parse_map1_tstr(buf: &[u8], pos: usize, key: &[u8]) -> (r: Result<
    (Vec<u8>, usize),
    DecodeError,
>)
    ensures
        r matches Ok(t) ==> pos + map1_tstr_enc(key@, t.0@).len() == t.1 && t.1 <= buf@.len()
            && buf@.subrange(pos as int, t.1 as int) == map1_tstr_enc(key@, t.0@),
        forall|s: Seq<u8>| #![trigger map1_tstr_enc(key@, s)]
            pos + map1_tstr_enc(key@, s).len() <= buf@.len() && buf@.subrange(
                pos as int,
                pos + map1_tstr_enc(key@, s).len(),
            ) == map1_tstr_enc(key@, s) ==> (r matches Ok(t) && t.0@ == s && t.1 == pos
                + map1_tstr_enc(key@, s).len()),
{
    proof {
        assert forall|s: Seq<u8>|
            pos + map1_tstr_enc(key@, s).len() <= buf@.len() && buf@.subrange(
                pos as int,
                pos + map1_tstr_enc(key@, s).len(),
            ) == map1_tstr_enc(key@, s) implies buf@.subrange(pos as int, pos + head_enc(5, 1).len())
            == head_enc(5, 1) && buf@.subrange(
            pos + head_enc(5, 1).len(),
            pos + head_enc(5, 1).len() + tstr_enc(key@).len(),
        ) == tstr_enc(key@) && buf@.subrange(
            pos + head_enc(5, 1).len() + tstr_enc(key@).len(),
            pos + map1_tstr_enc(key@, s).len(),
        ) == tstr_enc(s) by {
            assert(map1_tstr_enc(key@, s) =~= head_enc(5, 1) + (tstr_enc(key@) + tstr_enc(s)));
            lemma_prefix_match(buf@, pos as int, head_enc(5, 1), tstr_enc(key@) + tstr_enc(s));
            lemma_prefix_match(buf@, pos + head_enc(5, 1).len(), tstr_enc(key@), tstr_enc(s));
        }
    }
    let p1 = match parse_expect_head(buf, pos, 5, 1) {
        Ok(p) => p,
        Err(e) => {
            return Err(e);
        },
    };
    let p2 = match parse_key(buf, p1, key) {
        Ok(p) => p,
        Err(e) => {
            return Err(e);
        },
    };
    match parse_tstr(buf, p2) {
        Ok((s, p3)) => {
            proof {
                assert(buf@.subrange(pos as int, p3 as int) =~= buf@.subrange(
                    pos as int,
                    p1 as int,
                ) + buf@.subrange(p1 as int, p2 as int) + buf@.subrange(p2 as int, p3 as int));
            }
            Ok((s, p3))
        },
        Err(e) => Err(e),
    }
}

/// A two-entry map whose values are unsigned integers.
pub open spec fn map2_u64_u64_enc(k1: Seq<u8>, v1: u64, k2: Seq<u8>, v2: u64) -> Seq<u8> {
    head_enc(5, 2) + tstr_enc(k1) + uenc(v1) + tstr_enc(k2) + uenc(v2)
}

/// Appends `{k1: v1, k2: v2}` to `out`.
pub fn push_map2_u64_u64(out: &mut Vec<u8>, key1: &[u8], v1: u64, key2: &[u8], v2: u64)
    ensures
        final(out)@ == old(out)@ + map2_u64_u64_enc(key1@, v1, key2@, v2),
{
    push_head(out, 5, 2);
    push_tstr(out, key1);
    push_uint(out, v1);
    push_tstr(out, key2);
    push_uint(out, v2);
    assert(out@ =~= old(out)@ + map2_u64_u64_enc(key1@, v1, key2@, v2));
}

/// Parses `{k1: v1, k2: v2}` at `pos`: succeeds exactly on the encodings
/// `map2_u64_u64_enc` produces for the given keys.
pub fn parse_map2_u64_u64(buf: &[u8], pos: usize, key1: &[u8], key2: &[u8]) -> (r: Result<
    (u64, u64, usize),
    DecodeError,
>)
    ensures
        r matches Ok(t) ==> pos + map2_u64_u64_enc(key1@, t.0, key2@, t.1).len() == t.2 && t.2
            <= buf@.len() && buf@.subrange(pos as int, t.2 as int) == map2_u64_u64_enc(
            key1@,
            t.0,
            key2@,
            t.1,
        ),
        forall|v1: u64, v2: u64| #![trigger map2_u64_u64_enc(key1@, v1, key2@, v2)]
            pos + map2_u64_u64_enc(key1@, v1, key2@, v2).len() <= buf@.len() && buf@.subrange(
                pos as int,
                pos + map2_u64_u64_enc(key1@, v1, key2@, v2).len(),
            ) == map2_u64_u64_enc(key1@, v1, key2@, v2) ==> (r matches Ok(t) && t.0 == v1 && t.1
                == v2 && t.2 == pos + map2_u64_u64_enc(key1@, v1, key2@, v2).len()),
{
    proof {
        assert forall|v1: u64, v2: u64|
            pos + map2_u64_u64_enc(key1@, v1, key2@, v2).len() <= buf@.len() && buf@.subrange(
                pos as int,
                pos + map2_u64_u64_enc(key1@, v1, key2@, v2).len(),
            ) == map2_u64_u64_enc(key1@, v1, key2@, v2) implies buf@.subrange(
            pos as int,
            pos + head_enc(5, 2).len(),
        ) == head_enc(5, 2) && buf@.subrange(
            pos + head_enc(5, 2).len(),
            pos + head_enc(5, 2).len() + tstr_enc(key1@).len(),
        ) == tstr_enc(key1@) && buf@.subrange(
            pos + head_enc(5, 2).len() + tstr_enc(key1@).len(),
            pos + head_enc(5, 2).len() + tstr_enc(key1@).len() + uenc(v1).len(),
        ) == uenc(v1) && buf@.subrange(
            pos + head_enc(5, 2).len() + tstr_enc(key1@).len() + uenc(v1).len(),
            pos + head_enc(5, 2).len() + tstr_enc(key1@).len() + uenc(v1).len() + tstr_enc(
                key2@,
            ).len(),
        ) == tstr_enc(key2@) && buf@.subrange(
            pos + head_enc(5, 2).len() + tstr_enc(key1@).len() + uenc(v1).len() + tstr_enc(
                key2@,
            ).len(),
            pos + map2_u64_u64_enc(key1@, v1, key2@, v2).len(),
        ) == uenc(v2) by {
            let a1 = head_enc(5, 2);
            let a2 = tstr_enc(key1@);
            let a3 = uenc(v1);
            let a4 = tstr_enc(key2@);
            let a5 = uenc(v2);
            assert(map2_u64_u64_enc(key1@, v1, key2@, v2) =~= a1 + (a2 + (a3 + (a4 + a5))));
            lemma_prefix_match(buf@, pos as int, a1, a2 + (a3 + (a4 + a5)));
            lemma_prefix_match(buf@, pos + a1.len(), a2, a3 + (a4 + a5));
            lemma_prefix_match(buf@, pos + a1.len() + a2.len(), a3, a4 + a5);
            lemma_prefix_match(buf@, pos + a1.len() + a2.len() + a3.len(), a4, a5);
        }
    }
    let p1 = match parse_expect_head(buf, pos, 5, 2) {
        Ok(p) => p,
        Err(e) => {
            return Err(e);
        },
    };
    let p2 = match parse_key(buf, p1, key1) {
        Ok(p) => p,
        Err(e) => {
            return Err(e);
        },
    };
    let (v1, p3) = match parse_uint(buf, p2) {
        Ok(t) => t,
        Err(e) => {
            return Err(e);
        },
    };
    let p4 = match parse_key(buf, p3, key2) {
        Ok(p) => p,
        Err(e) => {
            return Err(e);
        },
    };
    match parse_uint(buf, p4) {
        Ok((v2, p5)) => {
            proof {
                assert(buf@.subrange(pos as int, p5 as int) =~= buf@.subrange(
                    pos as int,
                    p1 as int,
                ) + buf@.subrange(p1 as int, p2 as int) + buf@.subrange(p2 as int, p3 as int)
                    + buf@.subrange(p3 as int, p4 as int) + buf@.subrange(p4 as int, p5 as int));
            }
            Ok((v1, v2, p5))
        },
        Err(e) => Err(e),
    }
}

/// The elements of a byte array, each encoded as an unsigned integer item.
pub open spec fn u8s_enc(s: Seq<u8>) -> Seq<u8>
    decreases s.len(),
{
    if s.len() == 0 {
        Seq::empty()
    } else {
        uenc(s[0] as u64) + u8s_enc(s.skip(1))
    }
}

/// An array of small unsigned integers: how a byte buffer crosses the wire.
pub open spec fn bytes_arr_enc(s: Seq<u8>) -> Seq<u8> {
    head_enc(4, s.len() as u64) + u8s_enc(s)
}

/// Each element of a byte array occupies at least one byte on the wire.
proof fn lemma_u8s_enc_len(s: Seq<u8>)
    ensures
        u8s_enc(s).len() >= s.len(),
    decreases s.len(),
{
    if s.len() > 0 {
        lemma_u8s_enc_len(s.skip(1));
    }
}

/// The element block of a byte array splits at any index.
proof fn lemma_u8s_enc_split(s: Seq<u8>, j: int)
    requires
        0 <= j <= s.len(),
    ensures
        u8s_enc(s) == u8s_enc(s.take(j)) + u8s_enc(s.skip(j)),
    decreases j,
{
    if j == 0 {
        assert(s.take(0) =~= Seq::<u8>::empty());
        assert(s.skip(0) =~= s);
        assert(u8s_enc(s.take(0)) + u8s_enc(s.skip(0)) =~= u8s_enc(s));
    } else {
        lemma_u8s_enc_split(s.skip(1), j - 1);
        assert(s.skip(1).take(j - 1) =~= s.take(j).skip(1));
        assert(s.skip(1).skip(j - 1) =~= s.skip(j));
        assert(s.take(j)[0] == s[0]);
        assert(u8s_enc(s) =~= u8s_enc(s.take(j)) + u8s_enc(s.skip(j)));
    }
}

/// Extending the parsed prefix by one element appends that element's item.
proof fn lemma_u8s_enc_take_succ(s: Seq<u8>, j: int)
    requires
        0 <= j < s.len(),
    ensures
        u8s_enc(s.take(j + 1)) == u8s_enc(s.take(j)) + uenc(s[j] as u64),
{
    lemma_u8s_enc_split(s.take(j + 1), j);
    assert(s.take(j + 1).take(j) =~= s.take(j));
    assert(s.take(j + 1).skip(j) =~= seq![s[j]]);
    assert(seq![s[j]].skip(1) =~= Seq::<u8>::empty());
    assert(u8s_enc(Seq::<u8>::empty()) == Seq::<u8>::empty());
    assert(seq![s[j]][0] == s[j]);
    assert(u8s_enc(seq![s[j]]) =~= uenc(s[j] as u64));
}

/// Positional facts about element `j` of a byte array sitting at `pos` in `b`.
proof fn lemma_bytes_arr_elem(b: Seq<u8>, pos: int, s: Seq<u8>, j: int)
    requires
        0 <= pos,
        0 <= j < s.len(),
        pos + bytes_arr_enc(s).len() <= b.len(),
        b.subrange(pos, pos + bytes_arr_enc(s).len()) == bytes_arr_enc(s),
    ensures
        ({
            let p0 = pos + head_enc(4, s.len() as u64).len();
            let pj = p0 + u8s_enc(s.take(j)).len();
            &&& pj + uenc(s[j] as u64).len() <= b.len()
            &&& b.subrange(pj, pj + uenc(s[j] as u64).len()) == uenc(s[j] as u64)
            &&& u8s_enc(s.take(j + 1)).len() == u8s_enc(s.take(j)).len() + uenc(s[j] as u64).len()
            &&& s.take(j + 1) == s.take(j).push(s[j])
        }),
{
    assert(bytes_arr_enc(s) =~= head_enc(4, s.len() as u64) + u8s_enc(s));
    lemma_prefix_match(b, pos, head_enc(4, s.len() as u64), u8s_enc(s));
    let p0 = pos + head_enc(4, s.len() as u64).len();
    lemma_u8s_enc_split(s, j);
    assert(u8s_enc(s) =~= u8s_enc(s.take(j)) + u8s_enc(s.skip(j)));
    lemma_prefix_match(b, p0, u8s_enc(s.take(j)), u8s_enc(s.skip(j)));
    assert(s.skip(j)[0] == s[j]);
    assert(u8s_enc(s.skip(j)) =~= uenc(s[j] as u64) + u8s_enc(s.skip(j).skip(1)));
    lemma_prefix_match(
        b,
        p0 + u8s_enc(s.take(j)).len(),
        uenc(s[j] as u64),
        u8s_enc(s.skip(j).skip(1)),
    );
    lemma_u8s_enc_take_succ(s, j);
    assert(s.take(j + 1) =~= s.take(j).push(s[j]));
}

/// Appends the array encoding of the byte buffer `s` to `out`.
pub fn push_bytes_arr(out: &mut Vec<u8>, s: &[u8])
    ensures
        final(out)@ == old(out)@ + bytes_arr_enc(s@),
{
    push_head(out, 4, s.len() as u64);
    let mut i: usize = 0;
    while i < s.len()
        invariant
            i <= s@.len(),
            out@ == old(out)@ + head_enc(4, s@.len() as u64) + u8s_enc(s@.take(i as int)),
        decreases s@.len() - i,
    {
        push_uint(out, s[i] as u64);
        proof {
            lemma_u8s_enc_take_succ(s@, i as int);
            assert(out@ =~= old(out)@ + head_enc(4, s@.len() as u64) + u8s_enc(
                s@.take(i + 1),
            ));
        }
        i = i + 1;
    }
    proof {
        assert(s@.take(s@.len() as int) =~= s@);
        assert(out@ =~= old(out)@ + bytes_arr_enc(s@));
    }
}

/// Parses a byte array at `pos`: succeeds exactly on the encodings
/// `bytes_arr_enc` produces and hands the bytes out.
pub fn parse_bytes_arr(buf: &[u8], pos: usize) -> (r: Result<(Vec<u8>, usize), DecodeError>)
    ensures
        r matches Ok(t) ==> pos + bytes_arr_enc(t.0@).len() == t.1 && t.1 <= buf@.len()
            && buf@.subrange(pos as int, t.1 as int) == bytes_arr_enc(t.0@),
        forall|s: Seq<u8>| #![trigger bytes_arr_enc(s)]
            pos + bytes_arr_enc(s).len() <= buf@.len() && buf@.subrange(
                pos as int,
                pos + bytes_arr_enc(s).len(),
            ) == bytes_arr_enc(s) ==> (r matches Ok(t) && t.0@ == s && t.1 == pos + bytes_arr_enc(
                s,
            ).len()),
{
    proof {
        assert forall|s: Seq<u8>|
            pos + bytes_arr_enc(s).len() <= buf@.len() && buf@.subrange(
                pos as int,
                pos + bytes_arr_enc(s).len(),
            ) == bytes_arr_enc(s) implies buf@.subrange(
            pos as int,
            pos + head_enc(4, s.len() as u64).len(),
        ) == head_enc(4, s.len() as u64) && buf@.subrange(
            pos + head_enc(4, s.len() as u64).len(),
            pos + bytes_arr_enc(s).len(),
        ) == u8s_enc(s) by {
            assert(bytes_arr_enc(s) =~= head_enc(4, s.len() as u64) + u8s_enc(s));
            lemma_prefix_match(buf@, pos as int, head_enc(4, s.len() as u64), u8s_enc(s));
        }
    }
    let (n, p0) = match parse_head(buf, pos) {
        Ok((m, n, p)) => {
            if m == 4 {
                (n, p)
            } else {
                return Err(DecodeError::Malformed);
            }
        },
        Err(e) => {
            return Err(e);
        },
    };
    let mut acc: Vec<u8> = Vec::new();
    let mut p: usize = p0;
    let mut j: u64 = 0;
    proof {
        assert(u8s_enc(Seq::<u8>::empty()) == Seq::<u8>::empty());
        assert(buf@.subrange(p0 as int, p0 as int) =~= Seq::<u8>::empty());
        assert forall|s: Seq<u8>|
            pos + bytes_arr_enc(s).len() <= buf@.len() && buf@.subrange(
                pos as int,
                pos + bytes_arr_enc(s).len(),
            ) == bytes_arr_enc(s) implies s.len() == n && s.take(0) == acc@ && p == p0 + u8s_enc(
            s.take(0),
        ).len() by {
            vstd::slice::axiom_spec_len(buf);
            lemma_u8s_enc_len(s);
            assert(s.take(0) =~= Seq::<u8>::empty());
        }
    }
    while j < n
        invariant
            j <= n,
            p <= buf@.len(),
            pos + head_enc(4, n).len() == p0,
            p0 <= p,
            acc@.len() == j,
            buf@.subrange(pos as int, p0 as int) == head_enc(4, n),
            buf@.subrange(p0 as int, p as int) == u8s_enc(acc@),
            forall|s: Seq<u8>| #![trigger bytes_arr_enc(s)]
                pos + bytes_arr_enc(s).len() <= buf@.len() && buf@.subrange(
                    pos as int,
                    pos + bytes_arr_enc(s).len(),
                ) == bytes_arr_enc(s) ==> s.len() == n && s.take(j as int) == acc@ && p == p0
                    + u8s_enc(s.take(j as int)).len(),
        decreases n - j,
    {
        match parse_uint(buf, p) {
            Ok((v, p2)) => {
                if v > 0xff {
                    proof {
                        assert forall|s: Seq<u8>|
                            pos + bytes_arr_enc(s).len() <= buf@.len() && buf@.subrange(
                                pos as int,
                                pos + bytes_arr_enc(s).len(),
                            ) == bytes_arr_enc(s) implies false by {
                            lemma_bytes_arr_elem(buf@, pos as int, s, j as int);
                        }
                    }
                    return Err(DecodeError::Malformed);
                }
                let ghost old_acc = acc@;
                let ghost old_p = p;
                acc.push(v as u8);
                p = p2;
                j = j + 1;
                proof {
                    lemma_u8s_enc_take_succ(acc@, j - 1);
                    assert(acc@.take(j as int) =~= acc@);
                    assert(acc@.take(j - 1) =~= old_acc);
                    assert(buf@.subrange(p0 as int, p as int) =~= buf@.subrange(
                        p0 as int,
                        old_p as int,
                    ) + buf@.subrange(old_p as int, p as int));
                    assert(buf@.subrange(p0 as int, p as int) == u8s_enc(acc@));
                    assert forall|s: Seq<u8>|
                        pos + bytes_arr_enc(s).len() <= buf@.len() && buf@.subrange(
                            pos as int,
                            pos + bytes_arr_enc(s).len(),
                        ) == bytes_arr_enc(s) implies s.len() == n && s.take(j as int) == acc@ && p
                        == p0 + u8s_enc(s.take(j as int)).len() by {
                        lemma_bytes_arr_elem(buf@, pos as int, s, j - 1);
                        assert(s.take(j as int) =~= s.take(j - 1).push(s[j - 1]));
                    }
                }
            },
            Err(e) => {
                proof {
                    assert forall|s: Seq<u8>|
                        pos + bytes_arr_enc(s).len() <= buf@.len() && buf@.subrange(
                            pos as int,
                            pos + bytes_arr_enc(s).len(),
                        ) == bytes_arr_enc(s) implies false by {
                        lemma_bytes_arr_elem(buf@, pos as int, s, j as int);
                    }
                }
                return Err(e);
            },
        }
    }
    proof {
        assert(buf@.subrange(pos as int, p as int) =~= buf@.subrange(pos as int, p0 as int)
            + buf@.subrange(p0 as int, p as int));
        assert(acc@.len() as u64 == n);
        assert(buf@.subrange(pos as int, p as int) == bytes_arr_enc(acc@));
        assert forall|s: Seq<u8>|
            pos + bytes_arr_enc(s).len() <= buf@.len() && buf@.subrange(
                pos as int,
                pos + bytes_arr_enc(s).len(),
            ) == bytes_arr_enc(s) implies s == acc@ && pos + bytes_arr_enc(s).len() == p by {
            assert(s.take(j as int) =~= s);
        }
    }
    Ok((acc, p))
}

/// A one-entry map whose single value is a byte array.
pub open spec fn map1_bytes_enc(k: Seq<u8>, s: Seq<u8>) -> Seq<u8> {
    head_enc(5, 1) + tstr_enc(k) + bytes_arr_enc(s)
}

/// Appends `{k: s}` to `out`, the buffer as an array of integers.
pub fn push_map1_bytes(out: &mut Vec<u8>, key: &[u8], s: &[u8])
    ensures
        final(out)@ == old(out)@ + map1_bytes_enc(key@, s@),
{
    push_head(out, 5, 1);
    push_tstr(out, key);
    push_bytes_arr(out, s);
    assert(out@ =~= old(out)@ + map1_bytes_enc(key@, s@));
}

/// Parses `{k: s}` at `pos`: succeeds exactly on the encodings
/// `map1_bytes_enc` produces for the given key.
pub fn parse_map1_bytes(buf: &[u8], pos: usize, key: &[u8]) -> (r: Result<
    (Vec<u8>, usize),
    DecodeError,
>)
    ensures
        r matches Ok(t) ==> pos + map1_bytes_enc(key@, t.0@).len() == t.1 && t.1 <= buf@.len()
            && buf@.subrange(pos as int, t.1 as int) == map1_bytes_enc(key@, t.0@),
        forall|s: Seq<u8>| #![trigger map1_bytes_enc(key@, s)]
            pos + map1_bytes_enc(key@, s).len() <= buf@.len() && buf@.subrange(
                pos as int,
                pos + map1_bytes_enc(key@, s).len(),
            ) == map1_bytes_enc(key@, s) ==> (r matches Ok(t) && t.0@ == s && t.1 == pos
                + map1_bytes_enc(key@, s).len()),
{
    proof {
        assert forall|s: Seq<u8>| #![trigger map1_bytes_enc(key@, s)]
            pos + map1_bytes_enc(key@, s).len() <= buf@.len() && buf@.subrange(
                pos as int,
                pos + map1_bytes_enc(key@, s).len(),
            ) == map1_bytes_enc(key@, s) implies buf@.subrange(
            pos as int,
            pos + head_enc(5, 1).len(),
        ) == head_enc(5, 1) && buf@.subrange(
            pos + head_enc(5, 1).len(),
            pos + head_enc(5, 1).len() + tstr_enc(key@).len(),
        ) == tstr_enc(key@) && buf@.subrange(
            pos + head_enc(5, 1).len() + tstr_enc(key@).len(),
            pos + map1_bytes_enc(key@, s).len(),
        ) == bytes_arr_enc(s) by {
            assert(map1_bytes_enc(key@, s) =~= head_enc(5, 1) + (tstr_enc(key@) + bytes_arr_enc(
                s,
            )));
            lemma_prefix_match(buf@, pos as int, head_enc(5, 1), tstr_enc(key@) + bytes_arr_enc(s));
            lemma_prefix_match(buf@, pos + head_enc(5, 1).len(), tstr_enc(key@), bytes_arr_enc(s));
        }
    }
    let p1 = match parse_expect_head(buf, pos, 5, 1) {
        Ok(p) => p,
        Err(e) => {
            return Err(e);
        },
    };
    let p2 = match parse_key(buf, p1, key) {
        Ok(p) => p,
        Err(e) => {
            return Err(e);
        },
    };
    match parse_bytes_arr(buf, p2) {
        Ok((s, p3)) => {
            proof {
                assert(buf@.subrange(pos as int, p3 as int) =~= buf@.subrange(
                    pos as int,
                    p1 as int,
                ) + buf@.subrange(p1 as int, p2 as int) + buf@.subrange(p2 as int, p3 as int));
            }
            Ok((s, p3))
        },
        Err(e) => Err(e),
    }
}

/// A two-entry map holding an unsigned integer and a byte array.
pub open spec fn map2_u64_bytes_enc(k1: Seq<u8>, v: u64, k2: Seq<u8>, s: Seq<u8>) -> Seq<u8> {
    head_enc(5, 2) + tstr_enc(k1) + uenc(v) + tstr_enc(k2) + bytes_arr_enc(s)
}

/// Appends `{k1: v, k2: s}` to `out`.
pub fn push_map2_u64_bytes(out: &mut Vec<u8>, key1: &[u8], v: u64, key2: &[u8], s: &[u8])
    ensures
        final(out)@ == old(out)@ + map2_u64_bytes_enc(key1@, v, key2@, s@),
{
    push_head(out, 5, 2);
    push_tstr(out, key1);
    push_uint(out, v);
    push_tstr(out, key2);
    push_bytes_arr(out, s);
    assert(out@ =~= old(out)@ + map2_u64_bytes_enc(key1@, v, key2@, s@));
}

/// Parses `{k1: v, k2: s}` at `pos`: succeeds exactly on the encodings
/// `map2_u64_bytes_enc` produces for the given keys.
pub fn parse_map2_u64_bytes(buf: &[u8], pos: usize, key1: &[u8], key2: &[u8]) -> (r: Result<
    (u64, Vec<u8>, usize),
    DecodeError,
>)
    ensures
        r matches Ok(t) ==> pos + map2_u64_bytes_enc(key1@, t.0, key2@, t.1@).len() == t.2 && t.2
            <= buf@.len() && buf@.subrange(pos as int, t.2 as int) == map2_u64_bytes_enc(
            key1@,
            t.0,
            key2@,
            t.1@,
        ),
        forall|v: u64, s: Seq<u8>| #![trigger map2_u64_bytes_enc(key1@, v, key2@, s)]
            pos + map2_u64_bytes_enc(key1@, v, key2@, s).len() <= buf@.len() && buf@.subrange(
                pos as int,
                pos + map2_u64_bytes_enc(key1@, v, key2@, s).len(),
            ) == map2_u64_bytes_enc(key1@, v, key2@, s) ==> (r matches Ok(t) && t.0 == v && t.1@
                == s && t.2 == pos + map2_u64_bytes_enc(key1@, v, key2@, s).len()),
{
    proof {
        assert forall|v: u64, s: Seq<u8>| #![trigger map2_u64_bytes_enc(key1@, v, key2@, s)]
            pos + map2_u64_bytes_enc(key1@, v, key2@, s).len() <= buf@.len() && buf@.subrange(
                pos as int,
                pos + map2_u64_bytes_enc(key1@, v, key2@, s).len(),
            ) == map2_u64_bytes_enc(key1@, v, key2@, s) implies buf@.subrange(
            pos as int,
            pos + head_enc(5, 2).len(),
        ) == head_enc(5, 2) && buf@.subrange(
            pos + head_enc(5, 2).len(),
            pos + head_enc(5, 2).len() + tstr_enc(key1@).len(),
        ) == tstr_enc(key1@) && buf@.subrange(
            pos + head_enc(5, 2).len() + tstr_enc(key1@).len(),
            pos + head_enc(5, 2).len() + tstr_enc(key1@).len() + uenc(v).len(),
        ) == uenc(v) && buf@.subrange(
            pos + head_enc(5, 2).len() + tstr_enc(key1@).len() + uenc(v).len(),
            pos + head_enc(5, 2).len() + tstr_enc(key1@).len() + uenc(v).len() + tstr_enc(
                key2@,
            ).len(),
        ) == tstr_enc(key2@) && buf@.subrange(
            pos + head_enc(5, 2).len() + tstr_enc(key1@).len() + uenc(v).len() + tstr_enc(
                key2@,
            ).len(),
            pos + map2_u64_bytes_enc(key1@, v, key2@, s).len(),
        ) == bytes_arr_enc(s) by {
            let a1 = head_enc(5, 2);
            let a2 = tstr_enc(key1@);
            let a3 = uenc(v);
            let a4 = tstr_enc(key2@);
            let a5 = bytes_arr_enc(s);
            assert(map2_u64_bytes_enc(key1@, v, key2@, s) =~= a1 + (a2 + (a3 + (a4 + a5))));
            lemma_prefix_match(buf@, pos as int, a1, a2 + (a3 + (a4 + a5)));
            lemma_prefix_match(buf@, pos + a1.len(), a2, a3 + (a4 + a5));
            lemma_prefix_match(buf@, pos + a1.len() + a2.len(), a3, a4 + a5);
            lemma_prefix_match(buf@, pos + a1.len() + a2.len() + a3.len(), a4, a5);
        }
    }
    let p1 = match parse_expect_head(buf, pos, 5, 2) {
        Ok(p) => p,
        Err(e) => {
            return Err(e);
        },
    };
    let p2 = match parse_key(buf, p1, key1) {
        Ok(p) => p,
        Err(e) => {
            return Err(e);
        },
    };
    let (v, p3) = match parse_uint(buf, p2) {
        Ok(t) => t,
        Err(e) => {
            return Err(e);
        },
    };
    let p4 = match parse_key(buf, p3, key2) {
        Ok(p) => p,
        Err(e) => {
            return Err(e);
        },
    };
    match parse_bytes_arr(buf, p4) {
        Ok((s, p5)) => {
            proof {
                assert(buf@.subrange(pos as int, p5 as int) =~= buf@.subrange(
                    pos as int,
                    p1 as int,
                ) + buf@.subrange(p1 as int, p2 as int) + buf@.subrange(p2 as int, p3 as int)
                    + buf@.subrange(p3 as int, p4 as int) + buf@.subrange(p4 as int, p5 as int));
            }
            Ok((v, s, p5))
        },
        Err(e) => Err(e),
    }
}

/// The view of a byte vector and its deep view are the same sequence.
pub proof fn lemma_u8vec_deep_view(v: Vec<u8>)
    ensures
        v.deep_view() == v@,
{
    assert(v.deep_view() =~= v@);
}

/// The elements of an array of text strings.
pub open spec fn tstrs_enc(ss: Seq<Seq<u8>>) -> Seq<u8>
    decreases ss.len(),
{
    if ss.len() == 0 {
        Seq::empty()
    } else {
        tstr_enc(ss[0]) + tstrs_enc(ss.skip(1))
    }
}

/// An array of text strings.
pub open spec fn tstr_arr_enc(ss: Seq<Seq<u8>>) -> Seq<u8> {
    head_enc(4, ss.len() as u64) + tstrs_enc(ss)
}

/// Each text string occupies at least one byte on the wire.
proof fn lemma_tstrs_enc_len(ss: Seq<Seq<u8>>)
    ensures
        tstrs_enc(ss).len() >= ss.len(),
    decreases ss.len(),
{
    if ss.len() > 0 {
        lemma_tstrs_enc_len(ss.skip(1));
    }
}

/// The element block of a text-string array splits at any index.
proof fn lemma_tstrs_enc_split(ss: Seq<Seq<u8>>, j: int)
    requires
        0 <= j <= ss.len(),
    ensures
        tstrs_enc(ss) == tstrs_enc(ss.take(j)) + tstrs_enc(ss.skip(j)),
    decreases j,
{
    if j == 0 {
        assert(ss.take(0) =~= Seq::<Seq<u8>>::empty());
        assert(ss.skip(0) =~= ss);
        assert(tstrs_enc(ss.take(0)) + tstrs_enc(ss.skip(0)) =~= tstrs_enc(ss));
    } else {
        lemma_tstrs_enc_split(ss.skip(1), j - 1);
        assert(ss.skip(1).take(j - 1) =~= ss.take(j).skip(1));
        assert(ss.skip(1).skip(j - 1) =~= ss.skip(j));
        assert(ss.take(j)[0] == ss[0]);
        assert(tstrs_enc(ss) =~= tstrs_enc(ss.take(j)) + tstrs_enc(ss.skip(j)));
    }
}

/// Extending the parsed prefix by one element appends that element's item.
proof fn lemma_tstrs_enc_take_succ(ss: Seq<Seq<u8>>, j: int)
    requires
        0 <= j < ss.len(),
    ensures
        tstrs_enc(ss.take(j + 1)) == tstrs_enc(ss.take(j)) + tstr_enc(ss[j]),
{
    lemma_tstrs_enc_split(ss.take(j + 1), j);
    assert(ss.take(j + 1).take(j) =~= ss.take(j));
    assert(ss.take(j + 1).skip(j) =~= seq![ss[j]]);
    assert(seq![ss[j]].skip(1) =~= Seq::<Seq<u8>>::empty());
    assert(tstrs_enc(Seq::<Seq<u8>>::empty()) == Seq::<u8>::empty());
    assert(seq![ss[j]][0] == ss[j]);
    assert(tstrs_enc(seq![ss[j]]) =~= tstr_enc(ss[j]));
}

/// Positional facts about element `j` of a text-string array at `pos` in `b`.
proof fn lemma_tstr_arr_elem(b: Seq<u8>, pos: int, ss: Seq<Seq<u8>>, j: int)
    requires
        0 <= pos,
        0 <= j < ss.len(),
        pos + tstr_arr_enc(ss).len() <= b.len(),
        b.subrange(pos, pos + tstr_arr_enc(ss).len()) == tstr_arr_enc(ss),
    ensures
        ({
            let p0 = pos + head_enc(4, ss.len() as u64).len();
            let pj = p0 + tstrs_enc(ss.take(j)).len();
            &&& pj + tstr_enc(ss[j]).len() <= b.len()
            &&& b.subrange(pj, pj + tstr_enc(ss[j]).len()) == tstr_enc(ss[j])
            &&& tstrs_enc(ss.take(j + 1)).len() == tstrs_enc(ss.take(j)).len() + tstr_enc(
                ss[j],
            ).len()
            &&& ss.take(j + 1) == ss.take(j).push(ss[j])
        }),
{
    assert(tstr_arr_enc(ss) =~= head_enc(4, ss.len() as u64) + tstrs_enc(ss));
    lemma_prefix_match(b, pos, head_enc(4, ss.len() as u64), tstrs_enc(ss));
    let p0 = pos + head_enc(4, ss.len() as u64).len();
    lemma_tstrs_enc_split(ss, j);
    assert(tstrs_enc(ss) =~= tstrs_enc(ss.take(j)) + tstrs_enc(ss.skip(j)));
    lemma_prefix_match(b, p0, tstrs_enc(ss.take(j)), tstrs_enc(ss.skip(j)));
    assert(ss.skip(j)[0] == ss[j]);
    assert(tstrs_enc(ss.skip(j)) =~= tstr_enc(ss[j]) + tstrs_enc(ss.skip(j).skip(1)));
    lemma_prefix_match(
        b,
        p0 + tstrs_enc(ss.take(j)).len(),
        tstr_enc(ss[j]),
        tstrs_enc(ss.skip(j).skip(1)),
    );
    lemma_tstrs_enc_take_succ(ss, j);
    assert(ss.take(j + 1) =~= ss.take(j).push(ss[j]));
}

/// Appends the array encoding of the text strings in `items` to `out`.
pub fn push_tstr_arr(out: &mut Vec<u8>, items: &Vec<Vec<u8>>)
    ensures
        final(out)@ == old(out)@ + tstr_arr_enc(items.deep_view()),
{
    proof {
        assert(items.deep_view().len() == items@.len());
    }
    push_head(out, 4, items.len() as u64);
    let mut i: usize = 0;
    while i < items.len()
        invariant
            i <= items@.len(),
            items.deep_view().len() == items@.len(),
            out@ == old(out)@ + head_enc(4, items.deep_view().len() as u64) + tstrs_enc(
                items.deep_view().take(i as int),
            ),
        decreases items@.len() - i,
    {
        push_tstr(out, items[i].as_slice());
        proof {
            lemma_tstrs_enc_take_succ(items.deep_view(), i as int);
            assert(items.deep_view()[i as int] == items@[i as int].deep_view());
            lemma_u8vec_deep_view(items@[i as int]);
            assert(out@ =~= old(out)@ + head_enc(4, items.deep_view().len() as u64) + tstrs_enc(
                items.deep_view().take(i + 1),
            ));
        }
        i = i + 1;
    }
    proof {
        assert(items.deep_view().take(items@.len() as int) =~= items.deep_view());
        assert(out@ =~= old(out)@ + tstr_arr_enc(items.deep_view()));
    }
}

/// Parses an array of text strings at `pos`: succeeds exactly on the
/// encodings `tstr_arr_enc` produces.
pub fn parse_tstr_arr(buf: &[u8], pos: usize) -> (r: Result<(Vec<Vec<u8>>, usize), DecodeError>)
    ensures
        r matches Ok(t) ==> pos + tstr_arr_enc(t.0.deep_view()).len() == t.1 && t.1 <= buf@.len()
            && buf@.subrange(pos as int, t.1 as int) == tstr_arr_enc(t.0.deep_view()),
        forall|ss: Seq<Seq<u8>>| #![trigger tstr_arr_enc(ss)]
            pos + tstr_arr_enc(ss).len() <= buf@.len() && buf@.subrange(
                pos as int,
                pos + tstr_arr_enc(ss).len(),
            ) == tstr_arr_enc(ss) ==> (r matches Ok(t) && t.0.deep_view() == ss && t.1 == pos
                + tstr_arr_enc(ss).len()),
{
    proof {
        assert forall|ss: Seq<Seq<u8>>|
            pos + tstr_arr_enc(ss).len() <= buf@.len() && buf@.subrange(
                pos as int,
                pos + tstr_arr_enc(ss).len(),
            ) == tstr_arr_enc(ss) implies buf@.subrange(
            pos as int,
            pos + head_enc(4, ss.len() as u64).len(),
        ) == head_enc(4, ss.len() as u64) && buf@.subrange(
            pos + head_enc(4, ss.len() as u64).len(),
            pos + tstr_arr_enc(ss).len(),
        ) == tstrs_enc(ss) by {
            assert(tstr_arr_enc(ss) =~= head_enc(4, ss.len() as u64) + tstrs_enc(ss));
            lemma_prefix_match(buf@, pos as int, head_enc(4, ss.len() as u64), tstrs_enc(ss));
        }
    }
    let (n, p0) = match parse_head(buf, pos) {
        Ok((m, n, p)) => {
            if m == 4 {
                (n, p)
            } else {
                return Err(DecodeError::Malformed);
            }
        },
        Err(e) => {
            return Err(e);
        },
    };
    let mut acc: Vec<Vec<u8>> = Vec::new();
    let mut p: usize = p0;
    let mut j: u64 = 0;
    proof {
        assert(tstrs_enc(Seq::<Seq<u8>>::empty()) == Seq::<u8>::empty());
        assert(buf@.subrange(p0 as int, p0 as int) =~= Seq::<u8>::empty());
        assert(acc.deep_view() =~= Seq::<Seq<u8>>::empty());
        assert forall|ss: Seq<Seq<u8>>|
            pos + tstr_arr_enc(ss).len() <= buf@.len() && buf@.subrange(
                pos as int,
                pos + tstr_arr_enc(ss).len(),
            ) == tstr_arr_enc(ss) implies ss.len() == n && ss.take(0) == acc.deep_view() && p == p0
            + tstrs_enc(ss.take(0)).len() by {
            vstd::slice::axiom_spec_len(buf);
            lemma_tstrs_enc_len(ss);
            assert(ss.take(0) =~= Seq::<Seq<u8>>::empty());
        }
    }
    while j < n
        invariant
            j <= n,
            p <= buf@.len(),
            pos + head_enc(4, n).len() == p0,
            p0 <= p,
            acc.deep_view().len() == j,
            buf@.subrange(pos as int, p0 as int) == head_enc(4, n),
            buf@.subrange(p0 as int, p as int) == tstrs_enc(acc.deep_view()),
            forall|ss: Seq<Seq<u8>>| #![trigger tstr_arr_enc(ss)]
                pos + tstr_arr_enc(ss).len() <= buf@.len() && buf@.subrange(
                    pos as int,
                    pos + tstr_arr_enc(ss).len(),
                ) == tstr_arr_enc(ss) ==> ss.len() == n && ss.take(j as int) == acc.deep_view() && p
                    == p0 + tstrs_enc(ss.take(j as int)).len(),
        decreases n - j,
    {
        match parse_tstr(buf, p) {
            Ok((v, p2)) => {
                let ghost old_acc = acc.deep_view();
                let ghost old_p = p;
                let ghost vv = v@;
                proof {
                    lemma_u8vec_deep_view(v);
                }
                acc.push(v);
                p = p2;
                j = j + 1;
                proof {
                    assert(acc.deep_view() =~= old_acc.push(vv));
                    lemma_tstrs_enc_take_succ(acc.deep_view(), j - 1);
                    assert(acc.deep_view().take(j as int) =~= acc.deep_view());
                    assert(acc.deep_view().take(j - 1) =~= old_acc);
                    assert(buf@.subrange(p0 as int, p as int) =~= buf@.subrange(
                        p0 as int,
                        old_p as int,
                    ) + buf@.subrange(old_p as int, p as int));
                    assert(buf@.subrange(p0 as int, p as int) == tstrs_enc(acc.deep_view()));
                    assert forall|ss: Seq<Seq<u8>>|
                        pos + tstr_arr_enc(ss).len() <= buf@.len() && buf@.subrange(
                            pos as int,
                            pos + tstr_arr_enc(ss).len(),
                        ) == tstr_arr_enc(ss) implies ss.len() == n && ss.take(j as int)
                        == acc.deep_view() && p == p0 + tstrs_enc(ss.take(j as int)).len() by {
                        lemma_tstr_arr_elem(buf@, pos as int, ss, j - 1);
                        assert(ss.take(j as int) =~= ss.take(j - 1).push(ss[j - 1]));
                    }
                }
            },
            Err(e) => {
                proof {
                    assert forall|ss: Seq<Seq<u8>>|
                        pos + tstr_arr_enc(ss).len() <= buf@.len() && buf@.subrange(
                            pos as int,
                            pos + tstr_arr_enc(ss).len(),
                        ) == tstr_arr_enc(ss) implies false by {
                        lemma_tstr_arr_elem(buf@, pos as int, ss, j as int);
                    }
                }
                return Err(e);
            },
        }
    }
    proof {
        assert(buf@.subrange(pos as int, p as int) =~= buf@.subrange(pos as int, p0 as int)
            + buf@.subrange(p0 as int, p as int));
        assert(acc.deep_view().len() as u64 == n);
        assert(buf@.subrange(pos as int, p as int) == tstr_arr_enc(acc.deep_view()));
        assert forall|ss: Seq<Seq<u8>>|
            pos + tstr_arr_enc(ss).len() <= buf@.len() && buf@.subrange(
                pos as int,
                pos + tstr_arr_enc(ss).len(),
            ) == tstr_arr_enc(ss) implies ss == acc.deep_view() && pos + tstr_arr_enc(ss).len()
            == p by {
            assert(ss.take(j as int) =~= ss);
        }
    }
    Ok((acc, p))
}

/// The elements of an array of two-entry maps of unsigned integers.
pub open spec fn pairs_enc(k1: Seq<u8>, k2: Seq<u8>, ps: Seq<(u64, u64)>) -> Seq<u8>
    decreases ps.len(),
{
    if ps.len() == 0 {
        Seq::empty()
    } else {
        map2_u64_u64_enc(k1, ps[0].0, k2, ps[0].1) + pairs_enc(k1, k2, ps.skip(1))
    }
}

/// An array of two-entry maps of unsigned integers under fixed keys.
pub open spec fn pairs_arr_enc(k1: Seq<u8>, k2: Seq<u8>, ps: Seq<(u64, u64)>) -> Seq<u8> {
    head_enc(4, ps.len() as u64) + pairs_enc(k1, k2, ps)
}

/// Each element occupies at least one byte on the wire.
proof fn lemma_pairs_enc_len(k1: Seq<u8>, k2: Seq<u8>, ps: Seq<(u64, u64)>)
    ensures
        pairs_enc(k1, k2, ps).len() >= ps.len(),
    decreases ps.len(),
{
    if ps.len() > 0 {
        lemma_pairs_enc_len(k1, k2, ps.skip(1));
    }
}

/// The element block of a pair array splits at any index.
proof fn lemma_pairs_enc_split(k1: Seq<u8>, k2: Seq<u8>, ps: Seq<(u64, u64)>, j: int)
    requires
        0 <= j <= ps.len(),
    ensures
        pairs_enc(k1, k2, ps) == pairs_enc(k1, k2, ps.take(j)) + pairs_enc(k1, k2, ps.skip(j)),
    decreases j,
{
    if j == 0 {
        assert(ps.take(0) =~= Seq::<(u64, u64)>::empty());
        assert(ps.skip(0) =~= ps);
        assert(pairs_enc(k1, k2, ps.take(0)) + pairs_enc(k1, k2, ps.skip(0)) =~= pairs_enc(
            k1,
            k2,
            ps,
        ));
    } else {
        lemma_pairs_enc_split(k1, k2, ps.skip(1), j - 1);
        assert(ps.skip(1).take(j - 1) =~= ps.take(j).skip(1));
        assert(ps.skip(1).skip(j - 1) =~= ps.skip(j));
        assert(ps.take(j)[0] == ps[0]);
        assert(pairs_enc(k1, k2, ps) =~= pairs_enc(k1, k2, ps.take(j)) + pairs_enc(
            k1,
            k2,
            ps.skip(j),
        ));
    }
}

/// Extending the parsed prefix by one element appends that element's item.
proof fn lemma_pairs_enc_take_succ(k1: Seq<u8>, k2: Seq<u8>, ps: Seq<(u64, u64)>, j: int)
    requires
        0 <= j < ps.len(),
    ensures
        pairs_enc(k1, k2, ps.take(j + 1)) == pairs_enc(k1, k2, ps.take(j)) + map2_u64_u64_enc(
            k1,
            ps[j].0,
            k2,
            ps[j].1,
        ),
{
    lemma_pairs_enc_split(k1, k2, ps.take(j + 1), j);
    assert(ps.take(j + 1).take(j) =~= ps.take(j));
    assert(ps.take(j + 1).skip(j) =~= seq![ps[j]]);
    assert(seq![ps[j]].skip(1) =~= Seq::<(u64, u64)>::empty());
    assert(pairs_enc(k1, k2, Seq::<(u64, u64)>::empty()) == Seq::<u8>::empty());
    assert(seq![ps[j]][0] == ps[j]);
    assert(pairs_enc(k1, k2, seq![ps[j]]) =~= map2_u64_u64_enc(k1, ps[j].0, k2, ps[j].1));
}

/// Positional facts about element `j` of a pair array at `pos` in `b`.
proof fn lemma_pairs_arr_elem(b: Seq<u8>, pos: int, k1: Seq<u8>, k2: Seq<u8>, ps: Seq<(u64, u64)>, j: int)
    requires
        0 <= pos,
        0 <= j < ps.len(),
        pos + pairs_arr_enc(k1, k2, ps).len() <= b.len(),
        b.subrange(pos, pos + pairs_arr_enc(k1, k2, ps).len()) == pairs_arr_enc(k1, k2, ps),
    ensures
        ({
            let p0 = pos + head_enc(4, ps.len() as u64).len();
            let pj = p0 + pairs_enc(k1, k2, ps.take(j)).len();
            let elem = map2_u64_u64_enc(k1, ps[j].0, k2, ps[j].1);
            &&& pj + elem.len() <= b.len()
            &&& b.subrange(pj, pj + elem.len()) == elem
            &&& pairs_enc(k1, k2, ps.take(j + 1)).len() == pairs_enc(k1, k2, ps.take(j)).len()
                + elem.len()
            &&& ps.take(j + 1) == ps.take(j).push(ps[j])
        }),
{
    assert(pairs_arr_enc(k1, k2, ps) =~= head_enc(4, ps.len() as u64) + pairs_enc(k1, k2, ps));
    lemma_prefix_match(b, pos, head_enc(4, ps.len() as u64), pairs_enc(k1, k2, ps));
    let p0 = pos + head_enc(4, ps.len() as u64).len();
    lemma_pairs_enc_split(k1, k2, ps, j);
    assert(pairs_enc(k1, k2, ps) =~= pairs_enc(k1, k2, ps.take(j)) + pairs_enc(k1, k2, ps.skip(j)));
    lemma_prefix_match(b, p0, pairs_enc(k1, k2, ps.take(j)), pairs_enc(k1, k2, ps.skip(j)));
    assert(ps.skip(j)[0] == ps[j]);
    assert(pairs_enc(k1, k2, ps.skip(j)) =~= map2_u64_u64_enc(k1, ps[j].0, k2, ps[j].1)
        + pairs_enc(k1, k2, ps.skip(j).skip(1)));
    lemma_prefix_match(
        b,
        p0 + pairs_enc(k1, k2, ps.take(j)).len(),
        map2_u64_u64_enc(k1, ps[j].0, k2, ps[j].1),
        pairs_enc(k1, k2, ps.skip(j).skip(1)),
    );
    lemma_pairs_enc_take_succ(k1, k2, ps, j);
    assert(ps.take(j + 1) =~= ps.take(j).push(ps[j]));
}

/// Appends the array encoding of the pairs in `items` to `out`.
pub fn push_pairs_arr(out: &mut Vec<u8>, key1: &[u8], key2: &[u8], items: &Vec<(u64, u64)>)
    ensures
        final(out)@ == old(out)@ + pairs_arr_enc(key1@, key2@, items@),
{
    push_head(out, 4, items.len() as u64);
    let mut i: usize = 0;
    while i < items.len()
        invariant
            i <= items@.len(),
            out@ == old(out)@ + head_enc(4, items@.len() as u64) + pairs_enc(
                key1@,
                key2@,
                items@.take(i as int),
            ),
        decreases items@.len() - i,
    {
        let (v1, v2) = items[i];
        push_map2_u64_u64(out, key1, v1, key2, v2);
        proof {
            lemma_pairs_enc_take_succ(key1@, key2@, items@, i as int);
            assert(out@ =~= old(out)@ + head_enc(4, items@.len() as u64) + pairs_enc(
                key1@,
                key2@,
                items@.take(i + 1),
            ));
        }
        i = i + 1;
    }
    proof {
        assert(items@.take(items@.len() as int) =~= items@);
        assert(out@ =~= old(out)@ + pairs_arr_enc(key1@, key2@, items@));
    }
}

/// Parses an array of two-entry integer maps at `pos`: succeeds exactly on
/// the encodings `pairs_arr_enc` produces for the given keys.
pub fn parse_pairs_arr(buf: &[u8], pos: usize, key1: &[u8], key2: &[u8]) -> (r: Result<
    (Vec<(u64, u64)>, usize),
    DecodeError,
>)
    ensures
        r matches Ok(t) ==> pos + pairs_arr_enc(key1@, key2@, t.0@).len() == t.1 && t.1
            <= buf@.len() && buf@.subrange(pos as int, t.1 as int) == pairs_arr_enc(
            key1@,
            key2@,
            t.0@,
        ),
        forall|ps: Seq<(u64, u64)>| #![trigger pairs_arr_enc(key1@, key2@, ps)]
            pos + pairs_arr_enc(key1@, key2@, ps).len() <= buf@.len() && buf@.subrange(
                pos as int,
                pos + pairs_arr_enc(key1@, key2@, ps).len(),
            ) == pairs_arr_enc(key1@, key2@, ps) ==> (r matches Ok(t) && t.0@ == ps && t.1 == pos
                + pairs_arr_enc(key1@, key2@, ps).len()),
{
    proof {
        assert forall|ps: Seq<(u64, u64)>|
            pos + pairs_arr_enc(key1@, key2@, ps).len() <= buf@.len() && buf@.subrange(
                pos as int,
                pos + pairs_arr_enc(key1@, key2@, ps).len(),
            ) == pairs_arr_enc(key1@, key2@, ps) implies buf@.subrange(
            pos as int,
            pos + head_enc(4, ps.len() as u64).len(),
        ) == head_enc(4, ps.len() as u64) && buf@.subrange(
            pos + head_enc(4, ps.len() as u64).len(),
            pos + pairs_arr_enc(key1@, key2@, ps).len(),
        ) == pairs_enc(key1@, key2@, ps) by {
            assert(pairs_arr_enc(key1@, key2@, ps) =~= head_enc(4, ps.len() as u64) + pairs_enc(
                key1@,
                key2@,
                ps,
            ));
            lemma_prefix_match(
                buf@,
                pos as int,
                head_enc(4, ps.len() as u64),
                pairs_enc(key1@, key2@, ps),
            );
        }
    }
    let (n, p0) = match parse_head(buf, pos) {
        Ok((m, n, p)) => {
            if m == 4 {
                (n, p)
            } else {
                return Err(DecodeError::Malformed);
            }
        },
        Err(e) => {
            return Err(e);
        },
    };
    let mut acc: Vec<(u64, u64)> = Vec::new();
    let mut p: usize = p0;
    let mut j: u64 = 0;
    proof {
        assert(pairs_enc(key1@, key2@, Seq::<(u64, u64)>::empty()) == Seq::<u8>::empty());
        assert(buf@.subrange(p0 as int, p0 as int) =~= Seq::<u8>::empty());
        assert forall|ps: Seq<(u64, u64)>| #![trigger pairs_arr_enc(key1@, key2@, ps)]
            pos + pairs_arr_enc(key1@, key2@, ps).len() <= buf@.len() && buf@.subrange(
                pos as int,
                pos + pairs_arr_enc(key1@, key2@, ps).len(),
            ) == pairs_arr_enc(key1@, key2@, ps) implies ps.len() == n && ps.take(0) == acc@ && p
            == p0 + pairs_enc(key1@, key2@, ps.take(0)).len() by {
            vstd::slice::axiom_spec_len(buf);
            lemma_pairs_enc_len(key1@, key2@, ps);
            assert(ps.take(0) =~= Seq::<(u64, u64)>::empty());
        }
    }
    while j < n
        invariant
            j <= n,
            p <= buf@.len(),
            pos + head_enc(4, n).len() == p0,
            p0 <= p,
            acc@.len() == j,
            buf@.subrange(pos as int, p0 as int) == head_enc(4, n),
            buf@.subrange(p0 as int, p as int) == pairs_enc(key1@, key2@, acc@),
            forall|ps: Seq<(u64, u64)>| #![trigger pairs_arr_enc(key1@, key2@, ps)]
                pos + pairs_arr_enc(key1@, key2@, ps).len() <= buf@.len() && buf@.subrange(
                    pos as int,
                    pos + pairs_arr_enc(key1@, key2@, ps).len(),
                ) == pairs_arr_enc(key1@, key2@, ps) ==> ps.len() == n && ps.take(j as int) == acc@
                    && p == p0 + pairs_enc(key1@, key2@, ps.take(j as int)).len(),
        decreases n - j,
    {
        match parse_map2_u64_u64(buf, p, key1, key2) {
            Ok((v1, v2, p2)) => {
                let ghost old_acc = acc@;
                let ghost old_p = p;
                acc.push((v1, v2));
                p = p2;
                j = j + 1;
                proof {
                    lemma_pairs_enc_take_succ(key1@, key2@, acc@, j - 1);
                    assert(acc@.take(j as int) =~= acc@);
                    assert(acc@.take(j - 1) =~= old_acc);
                    assert(buf@.subrange(p0 as int, p as int) =~= buf@.subrange(
                        p0 as int,
                        old_p as int,
                    ) + buf@.subrange(old_p as int, p as int));
                    assert(buf@.subrange(p0 as int, p as int) == pairs_enc(key1@, key2@, acc@));
                    assert forall|ps: Seq<(u64, u64)>| #![trigger pairs_arr_enc(key1@, key2@, ps)]
                        pos + pairs_arr_enc(key1@, key2@, ps).len() <= buf@.len() && buf@.subrange(
                            pos as int,
                            pos + pairs_arr_enc(key1@, key2@, ps).len(),
                        ) == pairs_arr_enc(key1@, key2@, ps) implies ps.len() == n && ps.take(
                        j as int,
                    ) == acc@ && p == p0 + pairs_enc(key1@, key2@, ps.take(j as int)).len() by {
                        lemma_pairs_arr_elem(buf@, pos as int, key1@, key2@, ps, j - 1);
                        assert(ps.take(j as int) =~= ps.take(j - 1).push(ps[j - 1]));
                    }
                }
            },
            Err(e) => {
                proof {
                    assert forall|ps: Seq<(u64, u64)>| #![trigger pairs_arr_enc(key1@, key2@, ps)]
                        pos + pairs_arr_enc(key1@, key2@, ps).len() <= buf@.len() && buf@.subrange(
                            pos as int,
                            pos + pairs_arr_enc(key1@, key2@, ps).len(),
                        ) == pairs_arr_enc(key1@, key2@, ps) implies false by {
                        lemma_pairs_arr_elem(buf@, pos as int, key1@, key2@, ps, j as int);
                    }
                }
                return Err(e);
            },
        }
    }
    proof {
        assert(buf@.subrange(pos as int, p as int) =~= buf@.subrange(pos as int, p0 as int)
            + buf@.subrange(p0 as int, p as int));
        assert(acc@.len() as u64 == n);
        assert(buf@.subrange(pos as int, p as int) == pairs_arr_enc(key1@, key2@, acc@));
        assert forall|ps: Seq<(u64, u64)>| #![trigger pairs_arr_enc(key1@, key2@, ps)]
            pos + pairs_arr_enc(key1@, key2@, ps).len() <= buf@.len() && buf@.subrange(
                pos as int,
                pos + pairs_arr_enc(key1@, key2@, ps).len(),
            ) == pairs_arr_enc(key1@, key2@, ps) implies ps == acc@ && pos + pairs_arr_enc(
            key1@,
            key2@,
            ps,
        ).len() == p by {
            assert(ps.take(j as int) =~= ps);
        }
    }
    Ok((acc, p))
}

/// Compares two byte slices for equality of contents.
pub fn bytes_eq(a: &[u8], b: &[u8]) -> (r: bool)
    ensures
        r <==> a@ == b@,
{
    if a.len() != b.len() {
        return false;
    }
    let mut i: usize = 0;
    while i < a.len()
        invariant
            i <= a@.len(),
            a@.len() == b@.len(),
            forall|j: int| 0 <= j < i ==> a@[j] == b@[j],
        decreases a@.len() - i,
    {
        if a[i] != b[i] {
            return false;
        }
        i = i + 1;
    }
    assert(a@ =~= b@);
    true
}

} // verus!
