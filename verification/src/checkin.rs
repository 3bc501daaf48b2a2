//! The device check-in exchange: the request body the engine sends over
//! HTTP and the response body that carries the issued device identity.
//!
//! These are fixed external protobuf schemas; only the fields the engine
//! uses are modelled, and unknown response fields are skipped.
use vstd::prelude::*;

use crate::error::Error;
use crate::proto::{
    encode_varint_field, lemma_skip_len_bounds, pb_varint_field, skip_len, skip_value,
};
use crate::varint::{decode_varint, lemma_parse_varint_bounds, parse_varint, VarintStep};

verus! {

/// A device identity issued by check-in: immutable once issued and
/// required to authenticate the login handshake.
#[derive(Clone, Copy, Debug, PartialEq, Eq, Structural)]
pub struct Session {
    pub android_id: i64,
    pub security_token: u64,
}

/// The encoded check-in request: the prior identity when refreshing
/// (device id in field 2, security token in field 6), and the protocol
/// version in field 14.
pub open spec fn checkin_request_seq(identity: Option<(u64, u64)>) -> Seq<u8> {
    (match identity {
        Some((id, tok)) => pb_varint_field(2, id) + pb_varint_field(6, tok),
        None => Seq::empty(),
    }) + pb_varint_field(14, 3)
}

/// Encodes the check-in request body. With no prior identity the request
/// asks for a fresh device id and token; with one it asks for a refresh.
pub fn encode_checkin_request(identity: Option<&Session>) -> (r: Vec<u8>)
    ensures
        (match identity {
            Some(s) => r@ == checkin_request_seq(
                Some((s.android_id as u64, s.security_token)),
            ),
            None => r@ == checkin_request_seq(None),
        }),
{
    let mut out: Vec<u8> = Vec::new();
    match identity {
        Some(s) => {
            encode_varint_field(2, s.android_id as u64, &mut out);
            encode_varint_field(6, s.security_token, &mut out);
        },
        None => {},
    }
    encode_varint_field(14, 3, &mut out);
    proof {
        match identity {
            Some(s) => {
                assert(out@ =~= checkin_request_seq(Some((s.android_id as u64, s.security_token))));
            },
            None => {
                assert(out@ =~= checkin_request_seq(None));
            },
        }
    }
    out
}

/// Walks the check-in response fields: device id in field 7, security
/// token in field 8, both varints, last occurrence winning; every other
/// field is skipped. `None` on malformed bytes.
pub open spec fn parse_checkin_fields(s: Seq<u8>, acc: (Option<u64>, Option<u64>)) -> Option<
    (Option<u64>, Option<u64>),
>
    decreases s.len(),
    via parse_checkin_fields_dec
{
    if s.len() == 0 {
        Some(acc)
    } else {
        match parse_varint(s) {
            None => None,
            Some((key, kused)) => {
                let field = key / 8;
                let wt = key % 8;
                if field == 7 && wt == 0 {
                    match parse_varint(s.skip(kused)) {
                        None => None,
                        Some((v, vused)) => parse_checkin_fields(
                            s.skip(kused + vused),
                            (Some(v), acc.1),
                        ),
                    }
                } else if field == 8 && wt == 0 {
                    match parse_varint(s.skip(kused)) {
                        None => None,
                        Some((v, vused)) => parse_checkin_fields(
                            s.skip(kused + vused),
                            (acc.0, Some(v)),
                        ),
                    }
                } else {
                    match skip_len(wt, s.skip(kused)) {
                        None => None,
                        Some(sk) => parse_checkin_fields(s.skip(kused + sk), acc),
                    }
                }
            },
        }
    }
}

#[via_fn]
proof fn parse_checkin_fields_dec(s: Seq<u8>, acc: (Option<u64>, Option<u64>)) {
    lemma_parse_varint_bounds(s);
    if s.len() > 0 {
        match parse_varint(s) {
            None => {},
            Some((key, kused)) => {
                lemma_parse_varint_bounds(s.skip(kused));
                lemma_skip_len_bounds(key % 8, s.skip(kused));
            },
        }
    }
}

/// The device id and security token an encoded check-in response carries.
pub open spec fn checkin_identity(s: Seq<u8>) -> Option<(Option<u64>, Option<u64>)> {
    parse_checkin_fields(s, (None, None))
}

fn parse_checkin_at(buf: &[u8], pos: usize, aid: Option<u64>, tok: Option<u64>) -> (r: Result<
    (Option<u64>, Option<u64>),
    Error,
>)
    requires
        pos <= buf@.len(),
    ensures
        (match r {
            Ok(out) => parse_checkin_fields(buf@.skip(pos as int), (aid, tok)) == Some(out),
            Err(e) => e == Error::Protocol && parse_checkin_fields(
                buf@.skip(pos as int),
                (aid, tok),
            ) is None,
        }),
    decreases buf@.len() - pos,
{
    let ghost s = buf@.skip(pos as int);
    if pos == buf.len() {
        return Ok((aid, tok));
    }
    let (key, kused) = match decode_varint(buf, pos) {
        VarintStep::Got(k, u) => (k, u),
        _ => {
            return Err(Error::Protocol);
        },
    };
    let field = key / 8;
    let wt = key % 8;
    proof {
        assert(s.skip(kused as int) =~= buf@.skip(pos + kused));
    }
    if field == 7 && wt == 0 {
        match decode_varint(buf, pos + kused) {
            VarintStep::Got(v, vused) => {
                proof {
                    assert(s.skip(kused + vused) =~= buf@.skip(pos + kused + vused));
                }
                parse_checkin_at(buf, pos + kused + vused, Some(v), tok)
            },
            _ => Err(Error::Protocol),
        }
    } else if field == 8 && wt == 0 {
        match decode_varint(buf, pos + kused) {
            VarintStep::Got(v, vused) => {
                proof {
                    assert(s.skip(kused + vused) =~= buf@.skip(pos + kused + vused));
                }
                parse_checkin_at(buf, pos + kused + vused, aid, Some(v))
            },
            _ => Err(Error::Protocol),
        }
    } else {
        match skip_value(buf, pos + kused, wt) {
            Some(sk) => {
                proof {
                    assert(s.skip(kused + sk) =~= buf@.skip(pos + kused + sk));
                }
                parse_checkin_at(buf, pos + kused + sk, aid, tok)
            },
            None => Err(Error::Protocol),
        }
    }
}

/// Parses a check-in response body into the issued identity. A `Protocol`
/// error exactly when the bytes are malformed or either identity field is
/// missing.
pub fn parse_checkin_response(payload: &[u8]) -> (r: Result<Session, Error>)
    ensures
        (match r {
            Ok(sess) => (match checkin_identity(payload@) {
                Some((Some(a), Some(b))) => sess.android_id == a as i64 && sess.security_token
                    == b,
                _ => false,
            }),
            Err(e) => e == Error::Protocol && (match checkin_identity(payload@) {
                None => true,
                Some((a, b)) => a is None || b is None,
            }),
        }),
{
    proof {
        assert(payload@.skip(0) =~= payload@);
    }
    match parse_checkin_at(payload, 0, None, None) {
        Ok((Some(a), Some(b))) => Ok(Session { android_id: a as i64, security_token: b }),
        Ok(_) => Err(Error::Protocol),
        Err(e) => Err(e),
    }
}

} // verus!
