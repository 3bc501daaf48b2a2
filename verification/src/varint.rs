//! Base-128 varints, the length encoding used both by the frame layer and
//! by the protobuf message bodies.
//!
//! A value is written least-significant group first; every byte except the
//! last has its high bit set.
use vstd::prelude::*;

verus! {

/// The byte sequence that encodes `n`.
pub open spec fn varint_seq(n: u64) -> Seq<u8>
    decreases n,
{
    if n < 128 {
        seq![n as u8]
    } else {
        seq![(n % 128 + 128) as u8] + varint_seq(n / 128)
    }
}

/// Parses one varint from the front of `s`: the value and how many bytes it
/// took, or `None` when `s` is empty, ends inside the varint, or the value
/// would not fit in 64 bits.
pub open spec fn parse_varint(s: Seq<u8>) -> Option<(u64, int)>
    decreases s.len(),
{
    if s.len() == 0 {
        None
    } else if s[0] < 128 {
        Some((s[0] as u64, 1))
    } else {
        match parse_varint(s.skip(1)) {
            None => None,
            Some((v, used)) => {
                let val = v as int * 128 + (s[0] - 128);
                if val <= u64::MAX {
                    Some((val as u64, used + 1))
                } else {
                    None
                }
            },
        }
    }
}

/// Parsing an encoded varint, whatever follows it, recovers the value and
/// consumes exactly the encoding.
pub proof fn lemma_parse_varint_of_seq(n: u64, rest: Seq<u8>)
    ensures
        parse_varint(varint_seq(n) + rest) == Some((n, varint_seq(n).len() as int)),
    decreases n,
{
    let s = varint_seq(n) + rest;
    if n < 128 {
        assert(s[0] == n as u8);
        assert(s[0] < 128);
    } else {
        lemma_parse_varint_of_seq(n / 128, rest);
        assert(s.skip(1) =~= varint_seq(n / 128) + rest);
        assert(s[0] == (n % 128 + 128) as u8);
        assert(s[0] >= 128);
        assert((n / 128) as int * 128 + (s[0] - 128) == n as int);
    }
}

/// True when the front of `s` can never become a 64-bit varint, however
/// the sequence is extended: the value already seen overflows 64 bits.
pub open spec fn varint_malformed(s: Seq<u8>) -> bool
    decreases s.len(),
{
    if s.len() == 0 {
        false
    } else if s[0] < 128 {
        false
    } else {
        match parse_varint(s.skip(1)) {
            None => varint_malformed(s.skip(1)),
            Some((v, used)) => v as int * 128 + (s[0] - 128) > u64::MAX,
        }
    }
}

/// A parsed varint consumed at least one byte and at most the whole
/// sequence.
pub proof fn lemma_parse_varint_bounds(s: Seq<u8>)
    ensures
        (match parse_varint(s) {
            Some((v, used)) => 1 <= used <= s.len(),
            None => true,
        }),
    decreases s.len(),
{
    if s.len() > 0 && s[0] >= 128 {
        lemma_parse_varint_bounds(s.skip(1));
    }
}

/// Result of trying to decode one varint from a buffer that may still be
/// growing.
#[derive(Clone, Copy, Debug, PartialEq, Eq, Structural)]
pub enum VarintStep {
    /// The value, and the number of bytes it occupied.
    Got(u64, usize),
    /// The buffer ends inside the varint; more bytes may complete it.
    Incomplete,
    /// No extension of the buffer can make this a 64-bit varint.
    Malformed,
}

/// Decodes one varint starting at `pos`. Agrees exactly with
/// [`parse_varint`] on the suffix of the buffer.
pub fn decode_varint(buf: &[u8], pos: usize) -> (r: VarintStep)
    requires
        pos <= buf@.len(),
    ensures
        (match r {
            VarintStep::Got(v, used) => {
                &&& parse_varint(buf@.skip(pos as int)) == Some((v, used as int))
                &&& pos + used <= buf@.len()
                &&& used >= 1
            },
            VarintStep::Incomplete => parse_varint(buf@.skip(pos as int)) is None,
            VarintStep::Malformed => parse_varint(buf@.skip(pos as int)) is None,
        }),
        parse_varint(buf@.skip(pos as int)) is Some ==> r is Got,
        r is Malformed <==> varint_malformed(buf@.skip(pos as int)),
    decreases buf@.len() - pos,
{
    if pos == buf.len() {
        return VarintStep::Incomplete;
    }
    let b = buf[pos];
    if b < 128 {
        return VarintStep::Got(b as u64, 1);
    }
    let tail = decode_varint(buf, pos + 1);
    proof {
        assert(buf@.skip(pos as int).skip(1) =~= buf@.skip(pos as int + 1));
    }
    match tail {
        VarintStep::Got(v, used) => {
            let low = (b - 128) as u64;
            if v <= (u64::MAX - low) / 128 {
                VarintStep::Got(v * 128 + low, used + 1)
            } else {
                VarintStep::Malformed
            }
        },
        VarintStep::Incomplete => VarintStep::Incomplete,
        VarintStep::Malformed => VarintStep::Malformed,
    }
}

/// Appends the encoding of `n` to `out`.
pub fn encode_varint(n: u64, out: &mut Vec<u8>)
    ensures
        final(out)@ == old(out)@ + varint_seq(n),
{
    let mut v: u64 = n;
    loop
        invariant
            out@ + varint_seq(v) == old(out)@ + varint_seq(n),
        decreases v,
    {
        if v < 128 {
            out.push(v as u8);
            proof {
                assert(out@ =~= old(out)@ + varint_seq(n));
            }
            return ;
        }
        let ghost prev = v;
        out.push((v % 128 + 128) as u8);
        v = v / 128;
        proof {
            assert(varint_seq(prev) == seq![(prev % 128 + 128) as u8] + varint_seq(prev / 128));
            assert(out@ + varint_seq(v) =~= old(out)@ + varint_seq(n));
        }
    }
}

} // verus!
