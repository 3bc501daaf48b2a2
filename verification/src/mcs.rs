//! The MCS message bodies the engine reads and writes: the login request
//! it sends, the login response it awaits, and the data-message stanza
//! that carries an encrypted payload.
//!
//! These are fixed external protobuf schemas; only the fields the engine
//! uses are modelled, and every unknown field is skipped, never rejected.
use vstd::prelude::*;

use crate::error::Error;
use crate::proto::{
    encode_len_field, encode_varint_field, lemma_read_len_bounds, lemma_skip_len_bounds,
    pb_len_field, pb_varint_field, push_decimal, dec_seq, read_len, read_len_value, skip_len,
    skip_value,
};
use crate::varint::{decode_varint, lemma_parse_varint_bounds, parse_varint, VarintStep};

verus! {

/// "login-1", the id string of the login request.
pub open spec fn login_id_label() -> Seq<u8> {
    seq![108u8, 111u8, 103u8, 105u8, 110u8, 45u8, 49u8]
}

/// "mcs.android.com", the login domain.
pub open spec fn domain_label() -> Seq<u8> {
    seq![109u8, 99u8, 115u8, 46u8, 97u8, 110u8, 100u8, 114u8, 111u8, 105u8, 100u8, 46u8, 99u8, 111u8, 109u8]
}

/// "android-", the device-id prefix.
pub open spec fn android_label() -> Seq<u8> {
    seq![97u8, 110u8, 100u8, 114u8, 111u8, 105u8, 100u8, 45u8]
}

fn push_login_id_label(v: &mut Vec<u8>)
    ensures
        final(v)@ == old(v)@ + login_id_label(),
{
    v.push(108); v.push(111); v.push(103); v.push(105); v.push(110); v.push(45); v.push(49);
    proof {
        assert(v@ =~= old(v)@ + login_id_label());
    }
}

fn push_domain_label(v: &mut Vec<u8>)
    ensures
        final(v)@ == old(v)@ + domain_label(),
{
    v.push(109); v.push(99); v.push(115); v.push(46); v.push(97); v.push(110); v.push(100); v.push(114); v.push(111); v.push(105); v.push(100); v.push(46); v.push(99); v.push(111); v.push(109);
    proof {
        assert(v@ =~= old(v)@ + domain_label());
    }
}

fn push_android_label(v: &mut Vec<u8>)
    ensures
        final(v)@ == old(v)@ + android_label(),
{
    v.push(97); v.push(110); v.push(100); v.push(114); v.push(111); v.push(105); v.push(100); v.push(45);
    proof {
        assert(v@ =~= old(v)@ + android_label());
    }
}

/// The repeated `received_persistent_id` fields, one per id already
/// delivered, in order.
pub open spec fn ids_fields(ids: Seq<Seq<u8>>) -> Seq<u8>
    decreases ids.len(),
{
    if ids.len() == 0 {
        Seq::empty()
    } else {
        pb_len_field(10, ids[0]) + ids_fields(ids.skip(1))
    }
}

/// The encoded login request: identity strings derived from the device id
/// and security token, the resource id, the already-delivered persistent
/// ids, and the android-id auth service marker.
pub open spec fn login_request_seq(android_id: u64, security_token: u64, ids: Seq<Seq<u8>>) -> Seq<
    u8,
> {
    pb_len_field(1, login_id_label()) + pb_len_field(2, domain_label()) + pb_len_field(
        3,
        dec_seq(android_id),
    ) + pb_len_field(4, dec_seq(android_id)) + pb_len_field(5, dec_seq(security_token))
        + pb_len_field(6, android_label() + dec_seq(android_id)) + ids_fields(ids)
        + pb_varint_field(16, 2)
}

/// Encodes the login request body for a device identity and the
/// persistent ids to replay.
pub fn encode_login_request(android_id: i64, security_token: u64, ids: &Vec<Vec<u8>>) -> (r: Vec<
    u8,
>)
    ensures
        r@ == login_request_seq(android_id as u64, security_token, ids.deep_view()),
{
    let aid = android_id as u64;
    let mut out: Vec<u8> = Vec::new();

    let mut id_label: Vec<u8> = Vec::new();
    push_login_id_label(&mut id_label);
    encode_len_field(1, id_label.as_slice(), &mut out);

    let mut domain: Vec<u8> = Vec::new();
    push_domain_label(&mut domain);
    encode_len_field(2, domain.as_slice(), &mut out);

    let mut user: Vec<u8> = Vec::new();
    push_decimal(aid, &mut user);
    encode_len_field(3, user.as_slice(), &mut out);
    encode_len_field(4, user.as_slice(), &mut out);

    let mut token: Vec<u8> = Vec::new();
    push_decimal(security_token, &mut token);
    encode_len_field(5, token.as_slice(), &mut out);

    let mut device: Vec<u8> = Vec::new();
    push_android_label(&mut device);
    push_decimal(aid, &mut device);
    encode_len_field(6, device.as_slice(), &mut out);

    let ghost head = out@;
    let mut i: usize = 0;
    proof {
        assert(ids.deep_view().skip(0) =~= ids.deep_view());
    }
    while i < ids.len()
        invariant
            i <= ids@.len(),
            out@ + ids_fields(ids.deep_view().skip(i as int)) == head + ids_fields(
                ids.deep_view(),
            ),
        decreases ids@.len() - i,
    {
        let ghost before = out@;
        encode_len_field(10, ids[i].as_slice(), &mut out);
        i = i + 1;
        proof {
            let dv = ids.deep_view();
            assert(dv.skip(i - 1)[0] == dv[i - 1]);
            assert(dv[i - 1] == ids@[i - 1]@);
            assert(dv.skip(i - 1).skip(1) =~= dv.skip(i as int));
            assert(ids_fields(dv.skip(i - 1)) == pb_len_field(10, dv[i - 1]) + ids_fields(
                dv.skip(i as int),
            ));
            assert(out@ + ids_fields(dv.skip(i as int)) =~= before + ids_fields(dv.skip(i - 1)));
        }
    }
    proof {
        assert(ids.deep_view().skip(ids@.len() as int) =~= Seq::<Seq<u8>>::empty());
        assert(out@ =~= out@ + ids_fields(Seq::empty()));
    }
    encode_varint_field(16, 2, &mut out);
    proof {
        assert(out@ =~= login_request_seq(android_id as u64, security_token, ids.deep_view()));
    }
    out
}

/// Walks the login-response fields: `Some(true)` when an error field
/// (field 2) is present, `Some(false)` when not, `None` on malformed
/// bytes.
pub open spec fn login_status_fields(s: Seq<u8>, has_error: bool) -> Option<bool>
    decreases s.len(),
    via login_status_fields_dec
{
    if s.len() == 0 {
        Some(has_error)
    } else {
        match parse_varint(s) {
            None => None,
            Some((key, kused)) => {
                let field = key / 8;
                let wt = key % 8;
                match skip_len(wt, s.skip(kused)) {
                    None => None,
                    Some(sk) => login_status_fields(
                        s.skip(kused + sk),
                        has_error || (field == 2 && wt == 2),
                    ),
                }
            },
        }
    }
}

#[via_fn]
proof fn login_status_fields_dec(s: Seq<u8>, has_error: bool) {
    lemma_parse_varint_bounds(s);
    if s.len() > 0 {
        match parse_varint(s) {
            None => {},
            Some((key, kused)) => {
                lemma_skip_len_bounds(key % 8, s.skip(kused));
            },
        }
    }
}

/// Whether a login-response body reports an error: `Some(true)` means the
/// login was rejected.
pub open spec fn login_response_rejected(s: Seq<u8>) -> Option<bool> {
    login_status_fields(s, false)
}

fn parse_login_at(buf: &[u8], pos: usize, has_error: bool) -> (r: Result<bool, Error>)
    requires
        pos <= buf@.len(),
    ensures
        (match r {
            Ok(b) => login_status_fields(buf@.skip(pos as int), has_error) == Some(b),
            Err(e) => e == Error::Protocol && login_status_fields(buf@.skip(pos as int), has_error)
                is None,
        }),
    decreases buf@.len() - pos,
{
    let ghost s = buf@.skip(pos as int);
    if pos == buf.len() {
        return Ok(has_error);
    }
    let (key, kused) = match decode_varint(buf, pos) {
        VarintStep::Got(k, u) => (k, u),
        _ => {
            return Err(Error::Protocol);
        },
    };
    let field = key / 8;
    let wt = key % 8;
    proof {
        assert(s.skip(kused as int) =~= buf@.skip(pos + kused));
    }
    let sk = match skip_value(buf, pos + kused, wt) {
        Some(sk) => sk,
        None => {
            return Err(Error::Protocol);
        },
    };
    proof {
        assert(s.skip(kused + sk) =~= buf@.skip(pos + kused + sk));
    }
    parse_login_at(buf, pos + kused + sk, has_error || (field == 2 && wt == 2))
}

/// Parses a login-response body: `Ok(true)` when the server reported an
/// error (the login was rejected), `Ok(false)` on success, and a
/// `Protocol` error on malformed bytes.
pub fn parse_login_response(payload: &[u8]) -> (r: Result<bool, Error>)
    ensures
        (match r {
            Ok(b) => login_response_rejected(payload@) == Some(b),
            Err(e) => e == Error::Protocol && login_response_rejected(payload@) is None,
        }),
{
    proof {
        assert(payload@.skip(0) =~= payload@);
    }
    parse_login_at(payload, 0, false)
}

/// One key/value pair of a data stanza's application data.
#[derive(Clone, Debug)]
pub struct AppDataEntry {
    pub key: Vec<u8>,
    pub value: Vec<u8>,
}

/// The abstract value of an entry.
pub open spec fn entry_model(e: AppDataEntry) -> (Seq<u8>, Seq<u8>) {
    (e.key@, e.value@)
}

/// The abstract value of an entry list.
pub open spec fn entries_model(app: Seq<AppDataEntry>) -> Seq<(Seq<u8>, Seq<u8>)> {
    app.map_values(|e: AppDataEntry| entry_model(e))
}

/// The fields of a data-message stanza that the engine uses: the
/// persistent id for deduplication, the application data carrying the
/// encryption headers, and the encrypted body.
#[derive(Clone, Debug)]
pub struct DataStanza {
    pub persistent_id: Option<Vec<u8>>,
    pub app_data: Vec<AppDataEntry>,
    pub raw_data: Vec<u8>,
}

/// The abstract value of a stanza.
pub open spec fn stanza_model(st: DataStanza) -> (
    Option<Seq<u8>>,
    Seq<(Seq<u8>, Seq<u8>)>,
    Seq<u8>,
) {
    (
        (match st.persistent_id {
            Some(v) => Some(v@),
            None => None,
        }),
        entries_model(st.app_data@),
        st.raw_data@,
    )
}

/// Walks the fields of one application-data entry (key = field 1,
/// value = field 2), last occurrence winning, unknown fields skipped.
pub open spec fn parse_entry_fields(s: Seq<u8>, acc: (Seq<u8>, Seq<u8>)) -> Option<
    (Seq<u8>, Seq<u8>),
>
    decreases s.len(),
    via parse_entry_fields_dec
{
    if s.len() == 0 {
        Some(acc)
    } else {
        match parse_varint(s) {
            None => None,
            Some((key, kused)) => {
                let field = key / 8;
                let wt = key % 8;
                if field == 1 && wt == 2 {
                    match read_len(s.skip(kused)) {
                        None => None,
                        Some((b, used)) => parse_entry_fields(s.skip(kused + used), (b, acc.1)),
                    }
                } else if field == 2 && wt == 2 {
                    match read_len(s.skip(kused)) {
                        None => None,
                        Some((b, used)) => parse_entry_fields(s.skip(kused + used), (acc.0, b)),
                    }
                } else {
                    match skip_len(wt, s.skip(kused)) {
                        None => None,
                        Some(sk) => parse_entry_fields(s.skip(kused + sk), acc),
                    }
                }
            },
        }
    }
}

#[via_fn]
proof fn parse_entry_fields_dec(s: Seq<u8>, acc: (Seq<u8>, Seq<u8>)) {
    lemma_parse_varint_bounds(s);
    if s.len() > 0 {
        match parse_varint(s) {
            None => {},
            Some((key, kused)) => {
                lemma_skip_len_bounds(key % 8, s.skip(kused));
                lemma_read_len_bounds(s.skip(kused));
            },
        }
    }
}

/// The abstract value of an encoded application-data entry.
pub open spec fn parse_app_entry(s: Seq<u8>) -> Option<(Seq<u8>, Seq<u8>)> {
    parse_entry_fields(s, (Seq::empty(), Seq::empty()))
}

/// Walks the fields of a data-message stanza: persistent id (field 9),
/// application data (field 7, one entry per occurrence, in order), raw
/// data (field 13); every other field is skipped.
pub open spec fn parse_stanza_fields(
    s: Seq<u8>,
    acc: (Option<Seq<u8>>, Seq<(Seq<u8>, Seq<u8>)>, Seq<u8>),
) -> Option<(Option<Seq<u8>>, Seq<(Seq<u8>, Seq<u8>)>, Seq<u8>)>
    decreases s.len(),
    via parse_stanza_fields_dec
{
    if s.len() == 0 {
        Some(acc)
    } else {
        match parse_varint(s) {
            None => None,
            Some((key, kused)) => {
                let field = key / 8;
                let wt = key % 8;
                if field == 9 && wt == 2 {
                    match read_len(s.skip(kused)) {
                        None => None,
                        Some((b, used)) => parse_stanza_fields(
                            s.skip(kused + used),
                            (Some(b), acc.1, acc.2),
                        ),
                    }
                } else if field == 7 && wt == 2 {
                    match read_len(s.skip(kused)) {
                        None => None,
                        Some((b, used)) => match parse_app_entry(b) {
                            None => None,
                            Some(e) => parse_stanza_fields(
                                s.skip(kused + used),
                                (acc.0, acc.1.push(e), acc.2),
                            ),
                        },
                    }
                } else if field == 13 && wt == 2 {
                    match read_len(s.skip(kused)) {
                        None => None,
                        Some((b, used)) => parse_stanza_fields(
                            s.skip(kused + used),
                            (acc.0, acc.1, b),
                        ),
                    }
                } else {
                    match skip_len(wt, s.skip(kused)) {
                        None => None,
                        Some(sk) => parse_stanza_fields(s.skip(kused + sk), acc),
                    }
                }
            },
        }
    }
}

#[via_fn]
proof fn parse_stanza_fields_dec(s: Seq<u8>, acc: (Option<Seq<u8>>, Seq<(Seq<u8>, Seq<u8>)>, Seq<u8>)) {
    lemma_parse_varint_bounds(s);
    if s.len() > 0 {
        match parse_varint(s) {
            None => {},
            Some((key, kused)) => {
                lemma_skip_len_bounds(key % 8, s.skip(kused));
                lemma_read_len_bounds(s.skip(kused));
            },
        }
    }
}

/// The abstract value of an encoded data-message stanza.
pub open spec fn parse_data_stanza_seq(s: Seq<u8>) -> Option<
    (Option<Seq<u8>>, Seq<(Seq<u8>, Seq<u8>)>, Seq<u8>),
> {
    parse_stanza_fields(s, (None, Seq::empty(), Seq::empty()))
}

fn parse_entry_at(buf: &[u8], pos: usize, key: Vec<u8>, value: Vec<u8>) -> (r: Result<
    AppDataEntry,
    Error,
>)
    requires
        pos <= buf@.len(),
    ensures
        (match r {
            Ok(e) => parse_entry_fields(buf@.skip(pos as int), (key@, value@)) == Some(
                entry_model(e),
            ),
            Err(err) => err == Error::Protocol && parse_entry_fields(
                buf@.skip(pos as int),
                (key@, value@),
            ) is None,
        }),
    decreases buf@.len() - pos,
{
    let ghost s = buf@.skip(pos as int);
    if pos == buf.len() {
        return Ok(AppDataEntry { key, value });
    }
    let (k, kused) = match decode_varint(buf, pos) {
        VarintStep::Got(k, u) => (k, u),
        _ => {
            return Err(Error::Protocol);
        },
    };
    let field = k / 8;
    let wt = k % 8;
    proof {
        assert(s.skip(kused as int) =~= buf@.skip(pos + kused));
    }
    if field == 1 && wt == 2 {
        match read_len_value(buf, pos + kused) {
            Some((b, used)) => {
                proof {
                    assert(s.skip(kused + used) =~= buf@.skip(pos + kused + used));
                }
                parse_entry_at(buf, pos + kused + used, b, value)
            },
            None => Err(Error::Protocol),
        }
    } else if field == 2 && wt == 2 {
        match read_len_value(buf, pos + kused) {
            Some((b, used)) => {
                proof {
                    assert(s.skip(kused + used) =~= buf@.skip(pos + kused + used));
                }
                parse_entry_at(buf, pos + kused + used, key, b)
            },
            None => Err(Error::Protocol),
        }
    } else {
        match skip_value(buf, pos + kused, wt) {
            Some(sk) => {
                proof {
                    assert(s.skip(kused + sk) =~= buf@.skip(pos + kused + sk));
                }
                parse_entry_at(buf, pos + kused + sk, key, value)
            },
            None => Err(Error::Protocol),
        }
    }
}

fn parse_stanza_at(buf: &[u8], pos: usize, st: DataStanza) -> (r: Result<DataStanza, Error>)
    requires
        pos <= buf@.len(),
    ensures
        (match r {
            Ok(out) => parse_stanza_fields(buf@.skip(pos as int), stanza_model(st)) == Some(
                stanza_model(out),
            ),
            Err(err) => err == Error::Protocol && parse_stanza_fields(
                buf@.skip(pos as int),
                stanza_model(st),
            ) is None,
        }),
    decreases buf@.len() - pos,
{
    let ghost s = buf@.skip(pos as int);
    if pos == buf.len() {
        return Ok(st);
    }
    let (k, kused) = match decode_varint(buf, pos) {
        VarintStep::Got(k, u) => (k, u),
        _ => {
            return Err(Error::Protocol);
        },
    };
    let field = k / 8;
    let wt = k % 8;
    proof {
        assert(s.skip(kused as int) =~= buf@.skip(pos + kused));
    }
    if field == 9 && wt == 2 {
        match read_len_value(buf, pos + kused) {
            Some((b, used)) => {
                proof {
                    assert(s.skip(kused + used) =~= buf@.skip(pos + kused + used));
                }
                parse_stanza_at(
                    buf,
                    pos + kused + used,
                    DataStanza { persistent_id: Some(b), ..st },
                )
            },
            None => Err(Error::Protocol),
        }
    } else if field == 7 && wt == 2 {
        match read_len_value(buf, pos + kused) {
            Some((b, used)) => {
                proof {
                    assert(s.skip(kused + used) =~= buf@.skip(pos + kused + used));
                    assert(b@.skip(0) =~= b@);
                }
                let entry = match parse_entry_at(b.as_slice(), 0, Vec::new(), Vec::new()) {
                    Ok(e) => e,
                    Err(err) => {
                        return Err(Error::Protocol);
                    },
                };
                let mut st2 = st;
                let ghost old_app = st2.app_data@;
                st2.app_data.push(entry);
                proof {
                    assert(entries_model(st2.app_data@) =~~= entries_model(old_app).push(
                        entry_model(entry),
                    ));
                }
                parse_stanza_at(buf, pos + kused + used, st2)
            },
            None => Err(Error::Protocol),
        }
    } else if field == 13 && wt == 2 {
        match read_len_value(buf, pos + kused) {
            Some((b, used)) => {
                proof {
                    assert(s.skip(kused + used) =~= buf@.skip(pos + kused + used));
                }
                parse_stanza_at(buf, pos + kused + used, DataStanza { raw_data: b, ..st })
            },
            None => Err(Error::Protocol),
        }
    } else {
        match skip_value(buf, pos + kused, wt) {
            Some(sk) => {
                proof {
                    assert(s.skip(kused + sk) =~= buf@.skip(pos + kused + sk));
                }
                parse_stanza_at(buf, pos + kused + sk, st)
            },
            None => Err(Error::Protocol),
        }
    }
}

/// Parses a data-message stanza body. A `Protocol` error on malformed
/// bytes; unknown fields never fail.
pub fn parse_data_stanza(payload: &[u8]) -> (r: Result<DataStanza, Error>)
    ensures
        (match r {
            Ok(st) => parse_data_stanza_seq(payload@) == Some(stanza_model(st)),
            Err(err) => err == Error::Protocol && parse_data_stanza_seq(payload@) is None,
        }),
{
    let st = DataStanza { persistent_id: None, app_data: Vec::new(), raw_data: Vec::new() };
    proof {
        assert(payload@.skip(0) =~= payload@);
        assert(stanza_model(st) =~~= (
            None::<Seq<u8>>,
            Seq::<(Seq<u8>, Seq<u8>)>::empty(),
            Seq::<u8>::empty(),
        ));
    }
    parse_stanza_at(payload, 0, st)
}

/// The encoding of one application-data entry.
pub open spec fn entry_seq(e: (Seq<u8>, Seq<u8>)) -> Seq<u8> {
    pb_len_field(1, e.0) + pb_len_field(2, e.1)
}

/// The repeated application-data fields of a stanza, in order.
pub open spec fn app_fields(entries: Seq<(Seq<u8>, Seq<u8>)>) -> Seq<u8>
    decreases entries.len(),
{
    if entries.len() == 0 {
        Seq::empty()
    } else {
        pb_len_field(7, entry_seq(entries[0])) + app_fields(entries.skip(1))
    }
}

/// The encoding of a data-message stanza with the fields the engine
/// models.
pub open spec fn data_stanza_seq(m: (Option<Seq<u8>>, Seq<(Seq<u8>, Seq<u8>)>, Seq<u8>)) -> Seq<
    u8,
> {
    app_fields(m.1) + (match m.0 {
        Some(id) => pb_len_field(9, id),
        None => Seq::empty(),
    }) + pb_len_field(13, m.2)
}

/// Encodes a data-message stanza.
pub fn encode_data_stanza(st: &DataStanza) -> (r: Vec<u8>)
    ensures
        r@ == data_stanza_seq(stanza_model(*st)),
{
    let ghost m = stanza_model(*st);
    let mut out: Vec<u8> = Vec::new();
    let mut i: usize = 0;
    proof {
        assert(m.1.skip(0) =~= m.1);
        assert(out@ + app_fields(m.1) =~= app_fields(m.1));
    }
    while i < st.app_data.len()
        invariant
            i <= st.app_data@.len(),
            m == stanza_model(*st),
            m.1 == entries_model(st.app_data@),
            out@ + app_fields(m.1.skip(i as int)) == app_fields(m.1),
        decreases st.app_data@.len() - i,
    {
        let ghost before = out@;
        let mut entry_buf: Vec<u8> = Vec::new();
        encode_len_field(1, st.app_data[i].key.as_slice(), &mut entry_buf);
        encode_len_field(2, st.app_data[i].value.as_slice(), &mut entry_buf);
        proof {
            assert(entry_buf@ =~= entry_seq(m.1[i as int]));
        }
        encode_len_field(7, entry_buf.as_slice(), &mut out);
        i = i + 1;
        proof {
            assert(m.1.skip(i - 1).skip(1) =~= m.1.skip(i as int));
            assert(m.1.skip(i - 1)[0] == m.1[i - 1]);
            assert(out@ + app_fields(m.1.skip(i as int)) =~= before + app_fields(m.1.skip(i - 1)));
        }
    }
    proof {
        assert(m.1.skip(st.app_data@.len() as int) =~= Seq::<(Seq<u8>, Seq<u8>)>::empty());
        assert(out@ =~= app_fields(m.1));
    }
    match &st.persistent_id {
        Some(id) => {
            encode_len_field(9, id.as_slice(), &mut out);
        },
        None => {},
    }
    encode_len_field(13, st.raw_data.as_slice(), &mut out);
    proof {
        assert(out@ =~= data_stanza_seq(m));
    }
    out
}

} // verus!
