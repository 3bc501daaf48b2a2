//! Protobuf wire-format primitives shared by the message codecs: field
//! keys, varint and length-delimited fields, skipping of unknown fields,
//! and decimal rendering of identifiers.
use vstd::prelude::*;

use crate::varint::{
    decode_varint, encode_varint, lemma_parse_varint_bounds, parse_varint, varint_seq, VarintStep,
};

verus! {

/// Wire type of a varint value.
pub const WT_VARINT: u64 = 0;

/// Wire type of an eight-byte value.
pub const WT_FIXED64: u64 = 1;

/// Wire type of a length-delimited value.
pub const WT_LEN: u64 = 2;

/// Wire type of a four-byte value.
pub const WT_FIXED32: u64 = 5;

/// The key that introduces a field: field number and wire type packed into
/// one varint.
pub open spec fn pb_key(field: u64, wt: u64) -> Seq<u8>
    recommends
        field * 8 + wt <= u64::MAX,
{
    varint_seq((field * 8 + wt) as u64)
}

/// An encoded varint field.
pub open spec fn pb_varint_field(field: u64, v: u64) -> Seq<u8> {
    pb_key(field, WT_VARINT) + varint_seq(v)
}

/// An encoded length-delimited field.
pub open spec fn pb_len_field(field: u64, b: Seq<u8>) -> Seq<u8> {
    pb_key(field, WT_LEN) + varint_seq(b.len() as u64) + b
}

/// Appends the key of `field` with wire type `wt`.
pub fn encode_key(field: u32, wt: u32, out: &mut Vec<u8>)
    requires
        wt <= 7,
    ensures
        final(out)@ == old(out)@ + pb_key(field as u64, wt as u64),
{
    encode_varint((field as u64) * 8 + (wt as u64), out);
}

/// Appends a varint field.
pub fn encode_varint_field(field: u32, v: u64, out: &mut Vec<u8>)
    ensures
        final(out)@ == old(out)@ + pb_varint_field(field as u64, v),
{
    encode_key(field, 0, out);
    encode_varint(v, out);
    proof {
        assert(out@ =~= old(out)@ + pb_varint_field(field as u64, v));
    }
}

/// Appends a length-delimited field.
pub fn encode_len_field(field: u32, b: &[u8], out: &mut Vec<u8>)
    ensures
        final(out)@ == old(out)@ + pb_len_field(field as u64, b@),
{
    encode_key(field, 2, out);
    encode_varint(b.len() as u64, out);
    out.extend_from_slice(b);
    proof {
        assert(out@ =~= old(out)@ + pb_len_field(field as u64, b@));
    }
}

/// How many bytes a value of wire type `wt` occupies at the front of `s`,
/// or `None` when `s` ends inside it or the wire type is unknown.
pub open spec fn skip_len(wt: u64, s: Seq<u8>) -> Option<int> {
    if wt == WT_VARINT {
        match parse_varint(s) {
            None => None,
            Some((v, used)) => Some(used),
        }
    } else if wt == WT_FIXED64 {
        if s.len() >= 8 {
            Some(8)
        } else {
            None
        }
    } else if wt == WT_LEN {
        match parse_varint(s) {
            None => None,
            Some((v, used)) => {
                if used + v <= s.len() {
                    Some(used + v)
                } else {
                    None
                }
            },
        }
    } else if wt == WT_FIXED32 {
        if s.len() >= 4 {
            Some(4)
        } else {
            None
        }
    } else {
        None
    }
}

/// A skipped value occupies at least one byte and at most the whole
/// sequence.
pub proof fn lemma_skip_len_bounds(wt: u64, s: Seq<u8>)
    ensures
        (match skip_len(wt, s) {
            Some(sk) => 1 <= sk <= s.len(),
            None => true,
        }),
{
    lemma_parse_varint_bounds(s);
}

/// Skips one value of wire type `wt` starting at `pos`; agrees exactly
/// with [`skip_len`] on the suffix of the buffer.
pub fn skip_value(buf: &[u8], pos: usize, wt: u64) -> (r: Option<usize>)
    requires
        pos <= buf@.len(),
    ensures
        (match r {
            Some(sk) => skip_len(wt, buf@.skip(pos as int)) == Some(sk as int) && 1 <= sk && pos
                + sk <= buf@.len(),
            None => skip_len(wt, buf@.skip(pos as int)) is None,
        }),
{
    let ghost s = buf@.skip(pos as int);
    proof {
        lemma_parse_varint_bounds(s);
    }
    if wt == WT_VARINT {
        match decode_varint(buf, pos) {
            VarintStep::Got(_, used) => Some(used),
            _ => None,
        }
    } else if wt == WT_FIXED64 {
        if buf.len() - pos >= 8 {
            Some(8)
        } else {
            None
        }
    } else if wt == WT_LEN {
        match decode_varint(buf, pos) {
            VarintStep::Got(v, used) => {
                if v <= (buf.len() - pos - used) as u64 {
                    Some(used + v as usize)
                } else {
                    None
                }
            },
            _ => None,
        }
    } else if wt == WT_FIXED32 {
        if buf.len() - pos >= 4 {
            Some(4)
        } else {
            None
        }
    } else {
        None
    }
}

/// A length-delimited value at the front of `s`: its bytes and how much
/// the length prefix and the bytes consumed together.
pub open spec fn read_len(s: Seq<u8>) -> Option<(Seq<u8>, int)> {
    match parse_varint(s) {
        None => None,
        Some((v, used)) => {
            if used + v <= s.len() {
                Some((s.subrange(used, used + v), used + v))
            } else {
                None
            }
        },
    }
}

/// A read length-delimited value consumed at least one byte and at most
/// the whole sequence.
pub proof fn lemma_read_len_bounds(s: Seq<u8>)
    ensures
        (match read_len(s) {
            Some((b, used)) => 1 <= used <= s.len(),
            None => true,
        }),
{
    lemma_parse_varint_bounds(s);
}

/// Reads one length-delimited value starting at `pos`; agrees exactly with
/// [`read_len`] on the suffix of the buffer.
pub fn read_len_value(buf: &[u8], pos: usize) -> (r: Option<(Vec<u8>, usize)>)
    requires
        pos <= buf@.len(),
    ensures
        (match r {
            Some((b, used)) => read_len(buf@.skip(pos as int)) == Some((b@, used as int)) && 1
                <= used && pos + used <= buf@.len(),
            None => read_len(buf@.skip(pos as int)) is None,
        }),
{
    let ghost s = buf@.skip(pos as int);
    match decode_varint(buf, pos) {
        VarintStep::Got(v, used) => {
            if v > (buf.len() - pos - used) as u64 {
                return None;
            }
            let n = v as usize;
            let start = pos + used;
            let mut b: Vec<u8> = Vec::new();
            let mut i: usize = 0;
            while i < n
                invariant
                    i <= n,
                    start + n <= buf@.len() <= usize::MAX,
                    b@ == buf@.subrange(start as int, start + i),
                decreases n - i,
            {
                b.push(buf[start + i]);
                i = i + 1;
                proof {
                    assert(buf@.subrange(start as int, start + i) =~= buf@.subrange(
                        start as int,
                        start + i - 1,
                    ) + seq![buf@[start + i - 1]]);
                }
            }
            proof {
                assert(s.subrange(used as int, used + n) =~= buf@.subrange(
                    start as int,
                    start + n,
                ));
            }
            Some((b, used + n))
        },
        _ => None,
    }
}

/// The decimal digits of `n`, most significant first.
pub open spec fn dec_seq(n: u64) -> Seq<u8>
    decreases n,
{
    if n < 10 {
        seq![(48 + n) as u8]
    } else {
        dec_seq(n / 10) + seq![(48 + n % 10) as u8]
    }
}

/// Appends the decimal rendering of `n`.
pub fn push_decimal(n: u64, out: &mut Vec<u8>)
    ensures
        final(out)@ == old(out)@ + dec_seq(n),
    decreases n,
{
    if n < 10 {
        out.push(48 + (n as u8));
        proof {
            assert(out@ =~= old(out)@ + dec_seq(n));
        }
    } else {
        push_decimal(n / 10, out);
        out.push(48 + ((n % 10) as u8));
        proof {
            assert(out@ =~= old(out)@ + dec_seq(n));
        }
    }
}

} // verus!
