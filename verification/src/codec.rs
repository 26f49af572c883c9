//! The wire codec: binary framing of relay messages.
//!
//! A frame is a tag byte followed by the variant's fields. Text fields and
//! binary fields carry a four-byte little-endian length prefix; header lists
//! carry a four-byte pair count; optional text carries a one-byte presence
//! flag; a status is two little-endian bytes. Decoding checks every length
//! and rejects a frame with trailing bytes, so all four variants round-trip.
use vstd::prelude::*;
use vstd::bytes::*;
use vstd::string::{StrSliceExecFns, StringExecFnsIsAscii};
use crate::messages::{RelayMessage, RelayMessageView, wf_text, wf_bytes, wf_headers, wf_opt_text,
    wf_msg, headers_view, opt_view};
use crate::text::{ascii_bytes, push_char};

verus! {

pub open spec fn enc_text(s: Seq<char>) -> Seq<u8> {
    spec_u32_to_le_bytes(s.len() as u32) + ascii_bytes(s)
}

pub open spec fn enc_blob(b: Seq<u8>) -> Seq<u8> {
    spec_u32_to_le_bytes(b.len() as u32) + b
}

pub open spec fn enc_pairs(h: Seq<(Seq<char>, Seq<char>)>) -> Seq<u8>
    decreases h.len(),
{
    if h.len() == 0 {
        Seq::empty()
    } else {
        enc_text(h[0].0) + enc_text(h[0].1) + enc_pairs(h.drop_first())
    }
}

pub open spec fn enc_headers(h: Seq<(Seq<char>, Seq<char>)>) -> Seq<u8> {
    spec_u32_to_le_bytes(h.len() as u32) + enc_pairs(h)
}

pub open spec fn enc_opt_text(o: Option<Seq<char>>) -> Seq<u8> {
    match o {
        None => seq![0u8],
        Some(s) => seq![1u8] + enc_text(s),
    }
}

/// The encoding of a whole frame.
pub open spec fn enc_msg(v: RelayMessageView) -> Seq<u8> {
    match v {
        RelayMessageView::Webhook { method, headers, body } => seq![1u8] + enc_text(method)
            + enc_headers(headers) + enc_blob(body),
        RelayMessageView::ClientId(id) => seq![2u8] + enc_text(id),
        RelayMessageView::ProxyRequest { request_id, method, headers, body, path, query } => seq![
            3u8,
        ] + enc_text(request_id) + enc_text(method) + enc_headers(headers) + enc_blob(body)
            + enc_opt_text(path) + enc_opt_text(query),
        RelayMessageView::ProxyResponse { request_id, headers, body, status } => seq![4u8]
            + enc_text(request_id) + spec_u16_to_le_bytes(status) + enc_headers(headers) + enc_blob(
            body,
        ),
    }
}

pub open spec fn dec_u32(s: Seq<u8>, i: int) -> Option<(u32, int)> {
    if 0 <= i && i + 4 <= s.len() {
        Some((spec_u32_from_le_bytes(s.subrange(i, i + 4)), i + 4))
    } else {
        None
    }
}

pub open spec fn dec_u16(s: Seq<u8>, i: int) -> Option<(u16, int)> {
    if 0 <= i && i + 2 <= s.len() {
        Some((spec_u16_from_le_bytes(s.subrange(i, i + 2)), i + 2))
    } else {
        None
    }
}

/// Every byte of the block is an ASCII code.
pub open spec fn ascii_block_ok(s: Seq<u8>, i: int, n: int) -> bool {
    forall|k: int| 0 <= k < n ==> #[trigger] s[i + k] < 128
}

/// The characters spelled by a block of ASCII bytes.
pub open spec fn chars_at(s: Seq<u8>, i: int, n: int) -> Seq<char> {
    Seq::new(n as nat, |k: int| s[i + k] as char)
}

pub open spec fn dec_text(s: Seq<u8>, i: int) -> Option<(Seq<char>, int)> {
    match dec_u32(s, i) {
        None => None,
        Some((n, j)) => {
            if j + n <= s.len() && ascii_block_ok(s, j, n as int) {
                Some((chars_at(s, j, n as int), j + n))
            } else {
                None
            }
        },
    }
}

pub open spec fn dec_blob(s: Seq<u8>, i: int) -> Option<(Seq<u8>, int)> {
    match dec_u32(s, i) {
        None => None,
        Some((n, j)) => {
            if j + n <= s.len() {
                Some((s.subrange(j, j + n), j + n))
            } else {
                None
            }
        },
    }
}

pub open spec fn dec_pairs(s: Seq<u8>, i: int, n: nat) -> Option<
    (Seq<(Seq<char>, Seq<char>)>, int),
>
    decreases n,
{
    if n == 0 {
        Some((Seq::empty(), i))
    } else {
        match dec_text(s, i) {
            None => None,
            Some((k, j)) => match dec_text(s, j) {
                None => None,
                Some((v, j2)) => match dec_pairs(s, j2, (n - 1) as nat) {
                    None => None,
                    Some((rest, j3)) => Some((seq![(k, v)] + rest, j3)),
                },
            },
        }
    }
}

pub open spec fn dec_headers(s: Seq<u8>, i: int) -> Option<(Seq<(Seq<char>, Seq<char>)>, int)> {
    match dec_u32(s, i) {
        None => None,
        Some((n, j)) => dec_pairs(s, j, n as nat),
    }
}

pub open spec fn dec_opt_text(s: Seq<u8>, i: int) -> Option<(Option<Seq<char>>, int)> {
    if 0 <= i && i < s.len() {
        if s[i] == 0 {
            Some((None, i + 1))
        } else if s[i] == 1 {
            match dec_text(s, i + 1) {
                None => None,
                Some((t, j)) => Some((Some(t), j)),
            }
        } else {
            None
        }
    } else {
        None
    }
}

/// The decoding of a whole frame; `None` on an unknown tag, a bad length,
/// a non-ASCII text field or trailing bytes.
pub open spec fn dec_msg(s: Seq<u8>) -> Option<RelayMessageView> {
    if s.len() < 1 {
        None
    } else if s[0] == 1 {
        match dec_text(s, 1) {
            None => None,
            Some((method, i)) => match dec_headers(s, i) {
                None => None,
                Some((headers, j)) => match dec_blob(s, j) {
                    None => None,
                    Some((body, k)) => {
                        if k == s.len() {
                            Some(RelayMessageView::Webhook { method, headers, body })
                        } else {
                            None
                        }
                    },
                },
            },
        }
    } else if s[0] == 2 {
        match dec_text(s, 1) {
            None => None,
            Some((id, i)) => {
                if i == s.len() {
                    Some(RelayMessageView::ClientId(id))
                } else {
                    None
                }
            },
        }
    } else if s[0] == 3 {
        match dec_text(s, 1) {
            None => None,
            Some((request_id, i)) => match dec_text(s, i) {
                None => None,
                Some((method, j)) => match dec_headers(s, j) {
                    None => None,
                    Some((headers, k)) => match dec_blob(s, k) {
                        None => None,
                        Some((body, l)) => match dec_opt_text(s, l) {
                            None => None,
                            Some((path, m)) => match dec_opt_text(s, m) {
                                None => None,
                                Some((query, e)) => {
                                    if e == s.len() {
                                        Some(
                                            RelayMessageView::ProxyRequest {
                                                request_id,
                                                method,
                                                headers,
                                                body,
                                                path,
                                                query,
                                            },
                                        )
                                    } else {
                                        None
                                    }
                                },
                            },
                        },
                    },
                },
            },
        }
    } else if s[0] == 4 {
        match dec_text(s, 1) {
            None => None,
            Some((request_id, i)) => match dec_u16(s, i) {
                None => None,
                Some((status, j)) => match dec_headers(s, j) {
                    None => None,
                    Some((headers, k)) => match dec_blob(s, k) {
                        None => None,
                        Some((body, l)) => {
                            if l == s.len() {
                                Some(
                                    RelayMessageView::ProxyResponse {
                                        request_id,
                                        headers,
                                        body,
                                        status,
                                    },
                                )
                            } else {
                                None
                            }
                        },
                    },
                },
            },
        }
    } else {
        None
    }
}

proof fn lemma_dec_u32_at(s: Seq<u8>, pre: Seq<u8>, n: u32, rest: Seq<u8>)
    requires
        s == pre + spec_u32_to_le_bytes(n) + rest,
    ensures
        dec_u32(s, pre.len() as int) == Some((n, pre.len() as int + 4)),
{
    lemma_auto_spec_u32_to_from_le_bytes();
    let p = pre.len() as int;
    assert(s.subrange(p, p + 4) =~= spec_u32_to_le_bytes(n));
}

proof fn lemma_dec_u16_at(s: Seq<u8>, pre: Seq<u8>, n: u16, rest: Seq<u8>)
    requires
        s == pre + spec_u16_to_le_bytes(n) + rest,
    ensures
        dec_u16(s, pre.len() as int) == Some((n, pre.len() as int + 2)),
{
    lemma_auto_spec_u16_to_from_le_bytes();
    let p = pre.len() as int;
    assert(s.subrange(p, p + 2) =~= spec_u16_to_le_bytes(n));
}

proof fn lemma_dec_text_at(s: Seq<u8>, pre: Seq<u8>, t: Seq<char>, rest: Seq<u8>)
    requires
        wf_text(t),
        s == pre + enc_text(t) + rest,
    ensures
        dec_text(s, pre.len() as int) == Some((t, pre.len() as int + enc_text(t).len() as int)),
{
    lemma_auto_spec_u32_to_from_le_bytes();
    let p = pre.len() as int;
    let n = t.len() as u32;
    assert(s =~= pre + spec_u32_to_le_bytes(n) + (ascii_bytes(t) + rest));
    lemma_dec_u32_at(s, pre, n, ascii_bytes(t) + rest);
    let j = p + 4;
    assert forall|k: int| 0 <= k < n as int implies #[trigger] s[j + k] < 128 by {
        assert(s[j + k] == ascii_bytes(t)[k]);
        assert(t[k] <= '\u{7f}');
    }
    assert(chars_at(s, j, n as int) =~= t) by {
        assert forall|k: int| 0 <= k < n as int implies #[trigger] chars_at(s, j, n as int)[k]
            == t[k] by {
            assert(s[j + k] == ascii_bytes(t)[k]);
            assert(t[k] <= '\u{7f}');
        }
    }
}

proof fn lemma_dec_blob_at(s: Seq<u8>, pre: Seq<u8>, b: Seq<u8>, rest: Seq<u8>)
    requires
        wf_bytes(b),
        s == pre + enc_blob(b) + rest,
    ensures
        dec_blob(s, pre.len() as int) == Some((b, pre.len() as int + enc_blob(b).len() as int)),
{
    lemma_auto_spec_u32_to_from_le_bytes();
    let p = pre.len() as int;
    let n = b.len() as u32;
    assert(s =~= pre + spec_u32_to_le_bytes(n) + (b + rest));
    lemma_dec_u32_at(s, pre, n, b + rest);
    let j = p + 4;
    assert(s.subrange(j, j + n as int) =~= b);
}

proof fn lemma_dec_pairs_at(s: Seq<u8>, pre: Seq<u8>, h: Seq<(Seq<char>, Seq<char>)>, rest: Seq<u8>)
    requires
        forall|i: int| 0 <= i < h.len() ==> wf_text(#[trigger] h[i].0) && wf_text(h[i].1),
        s == pre + enc_pairs(h) + rest,
    ensures
        dec_pairs(s, pre.len() as int, h.len()) == Some(
            (h, pre.len() as int + enc_pairs(h).len() as int),
        ),
    decreases h.len(),
{
    let p = pre.len() as int;
    if h.len() == 0 {
        assert(enc_pairs(h) =~= Seq::<u8>::empty());
        assert(dec_pairs(s, p, 0) == Some((Seq::<(Seq<char>, Seq<char>)>::empty(), p)));
        assert(h =~= Seq::<(Seq<char>, Seq<char>)>::empty());
    } else {
        let k0 = h[0].0;
        let v0 = h[0].1;
        let tail = h.drop_first();
        assert(enc_pairs(h) == enc_text(k0) + enc_text(v0) + enc_pairs(tail));
        assert(s =~= pre + enc_text(k0) + (enc_text(v0) + enc_pairs(tail) + rest));
        lemma_dec_text_at(s, pre, k0, enc_text(v0) + enc_pairs(tail) + rest);
        let pre2 = pre + enc_text(k0);
        assert(s =~= pre2 + enc_text(v0) + (enc_pairs(tail) + rest));
        lemma_dec_text_at(s, pre2, v0, enc_pairs(tail) + rest);
        let pre3 = pre2 + enc_text(v0);
        assert(s =~= pre3 + enc_pairs(tail) + rest);
        lemma_dec_pairs_at(s, pre3, tail, rest);
        assert(seq![(k0, v0)] + tail =~= h);
    }
}

proof fn lemma_dec_headers_at(
    s: Seq<u8>,
    pre: Seq<u8>,
    h: Seq<(Seq<char>, Seq<char>)>,
    rest: Seq<u8>,
)
    requires
        wf_headers(h),
        s == pre + enc_headers(h) + rest,
    ensures
        dec_headers(s, pre.len() as int) == Some(
            (h, pre.len() as int + enc_headers(h).len() as int),
        ),
{
    let n = h.len() as u32;
    assert(s =~= pre + spec_u32_to_le_bytes(n) + (enc_pairs(h) + rest));
    lemma_dec_u32_at(s, pre, n, enc_pairs(h) + rest);
    let pre2 = pre + spec_u32_to_le_bytes(n);
    assert(pre2.len() == pre.len() + 4) by {
        lemma_auto_spec_u32_to_from_le_bytes();
    }
    assert(s =~= pre2 + enc_pairs(h) + rest);
    lemma_dec_pairs_at(s, pre2, h, rest);
}

proof fn lemma_dec_opt_text_at(s: Seq<u8>, pre: Seq<u8>, o: Option<Seq<char>>, rest: Seq<u8>)
    requires
        wf_opt_text(o),
        s == pre + enc_opt_text(o) + rest,
    ensures
        dec_opt_text(s, pre.len() as int) == Some(
            (o, pre.len() as int + enc_opt_text(o).len() as int),
        ),
{
    let p = pre.len() as int;
    match o {
        None => {
            assert(s[p] == 0);
        },
        Some(t) => {
            assert(s[p] == 1);
            let pre2 = pre + seq![1u8];
            assert(s =~= pre2 + enc_text(t) + rest);
            lemma_dec_text_at(s, pre2, t, rest);
        },
    }
}

/// Every well-formed frame round-trips through the wire format: decoding
/// its encoding yields the frame itself.
pub proof fn lemma_msg_round_trip(v: RelayMessageView)
    requires
        wf_msg(v),
    ensures
        dec_msg(enc_msg(v)) == Some(v),
{
    let s = enc_msg(v);
    match v {
        RelayMessageView::Webhook { method, headers, body } => {
            let pre1 = seq![1u8];
            assert(s[0] == 1);
            assert(s =~= pre1 + enc_text(method) + (enc_headers(headers) + enc_blob(body)));
            lemma_dec_text_at(s, pre1, method, enc_headers(headers) + enc_blob(body));
            let pre2 = pre1 + enc_text(method);
            assert(s =~= pre2 + enc_headers(headers) + enc_blob(body));
            lemma_dec_headers_at(s, pre2, headers, enc_blob(body));
            let pre3 = pre2 + enc_headers(headers);
            assert(s =~= pre3 + enc_blob(body) + Seq::<u8>::empty());
            lemma_dec_blob_at(s, pre3, body, Seq::<u8>::empty());
            assert(pre3.len() + enc_blob(body).len() == s.len());
        },
        RelayMessageView::ClientId(id) => {
            let pre1 = seq![2u8];
            assert(s[0] == 2);
            assert(s =~= pre1 + enc_text(id) + Seq::<u8>::empty());
            lemma_dec_text_at(s, pre1, id, Seq::<u8>::empty());
            assert(pre1.len() + enc_text(id).len() == s.len());
        },
        RelayMessageView::ProxyRequest { request_id, method, headers, body, path, query } => {
            let pre1 = seq![3u8];
            assert(s[0] == 3);
            assert(s =~= pre1 + enc_text(request_id) + (enc_text(method) + enc_headers(headers)
                + enc_blob(body) + enc_opt_text(path) + enc_opt_text(query)));
            lemma_dec_text_at(
                s,
                pre1,
                request_id,
                enc_text(method) + enc_headers(headers) + enc_blob(body) + enc_opt_text(path)
                    + enc_opt_text(query),
            );
            let pre2 = pre1 + enc_text(request_id);
            assert(s =~= pre2 + enc_text(method) + (enc_headers(headers) + enc_blob(body)
                + enc_opt_text(path) + enc_opt_text(query)));
            lemma_dec_text_at(
                s,
                pre2,
                method,
                enc_headers(headers) + enc_blob(body) + enc_opt_text(path) + enc_opt_text(query),
            );
            let pre3 = pre2 + enc_text(method);
            assert(s =~= pre3 + enc_headers(headers) + (enc_blob(body) + enc_opt_text(path)
                + enc_opt_text(query)));
            lemma_dec_headers_at(
                s,
                pre3,
                headers,
                enc_blob(body) + enc_opt_text(path) + enc_opt_text(query),
            );
            let pre4 = pre3 + enc_headers(headers);
            assert(s =~= pre4 + enc_blob(body) + (enc_opt_text(path) + enc_opt_text(query)));
            lemma_dec_blob_at(s, pre4, body, enc_opt_text(path) + enc_opt_text(query));
            let pre5 = pre4 + enc_blob(body);
            assert(s =~= pre5 + enc_opt_text(path) + enc_opt_text(query));
            lemma_dec_opt_text_at(s, pre5, path, enc_opt_text(query));
            let pre6 = pre5 + enc_opt_text(path);
            assert(s =~= pre6 + enc_opt_text(query) + Seq::<u8>::empty());
            lemma_dec_opt_text_at(s, pre6, query, Seq::<u8>::empty());
            assert(pre6.len() + enc_opt_text(query).len() == s.len());
        },
        RelayMessageView::ProxyResponse { request_id, headers, body, status } => {
            let pre1 = seq![4u8];
            assert(s[0] == 4);
            assert(s =~= pre1 + enc_text(request_id) + (spec_u16_to_le_bytes(status)
                + enc_headers(headers) + enc_blob(body)));
            lemma_dec_text_at(
                s,
                pre1,
                request_id,
                spec_u16_to_le_bytes(status) + enc_headers(headers) + enc_blob(body),
            );
            let pre2 = pre1 + enc_text(request_id);
            assert(s =~= pre2 + spec_u16_to_le_bytes(status) + (enc_headers(headers) + enc_blob(
                body,
            )));
            lemma_dec_u16_at(s, pre2, status, enc_headers(headers) + enc_blob(body));
            let pre3 = pre2 + spec_u16_to_le_bytes(status);
            assert(pre3.len() == pre2.len() + 2) by {
                lemma_auto_spec_u16_to_from_le_bytes();
            }
            assert(s =~= pre3 + enc_headers(headers) + enc_blob(body));
            lemma_dec_headers_at(s, pre3, headers, enc_blob(body));
            let pre4 = pre3 + enc_headers(headers);
            assert(s =~= pre4 + enc_blob(body) + Seq::<u8>::empty());
            lemma_dec_blob_at(s, pre4, body, Seq::<u8>::empty());
            assert(pre4.len() + enc_blob(body).len() == s.len());
        },
    }
}

proof fn lemma_enc_pairs_push(h: Seq<(Seq<char>, Seq<char>)>, p: (Seq<char>, Seq<char>))
    ensures
        enc_pairs(h.push(p)) == enc_pairs(h) + enc_text(p.0) + enc_text(p.1),
    decreases h.len(),
{
    reveal_with_fuel(enc_pairs, 3);
    if h.len() == 0 {
        assert(h.push(p)[0] == p);
        assert(h.push(p).drop_first() =~= Seq::<(Seq<char>, Seq<char>)>::empty());
        assert(enc_pairs(h.push(p)) =~= enc_pairs(h) + enc_text(p.0) + enc_text(p.1));
    } else {
        assert(h.push(p)[0] == h[0]);
        assert(h.push(p).drop_first() =~= h.drop_first().push(p));
        lemma_enc_pairs_push(h.drop_first(), p);
        assert(enc_pairs(h.push(p)) == enc_text(h[0].0) + enc_text(h[0].1) + (enc_pairs(
            h.drop_first(),
        ) + enc_text(p.0) + enc_text(p.1)));
        assert(enc_pairs(h.push(p)) =~= enc_pairs(h) + enc_text(p.0) + enc_text(p.1));
    }
}

fn emit_u32(buf: &mut Vec<u8>, n: u32)
    ensures
        final(buf)@ == old(buf)@ + spec_u32_to_le_bytes(n),
{
    let mut b = u32_to_le_bytes(n);
    buf.append(&mut b);
}

fn emit_u16(buf: &mut Vec<u8>, n: u16)
    ensures
        final(buf)@ == old(buf)@ + spec_u16_to_le_bytes(n),
{
    let mut b = u16_to_le_bytes(n);
    buf.append(&mut b);
}

fn emit_text(buf: &mut Vec<u8>, s: &String)
    requires
        wf_text(s@),
    ensures
        final(buf)@ == old(buf)@ + enc_text(s@),
{
    let mut bytes = s.as_str().as_bytes_vec();
    proof {
        vstd::utf8::is_ascii_chars_encode_utf8(s@);
        assert(bytes@ =~= ascii_bytes(s@));
    }
    let n = bytes.len() as u32;
    emit_u32(buf, n);
    buf.append(&mut bytes);
}

fn emit_blob(buf: &mut Vec<u8>, b: &Vec<u8>)
    requires
        wf_bytes(b@),
    ensures
        final(buf)@ == old(buf)@ + enc_blob(b@),
{
    let n = b.len() as u32;
    emit_u32(buf, n);
    let mut copy = vstd::slice::slice_to_vec(b.as_slice());
    buf.append(&mut copy);
}

fn emit_headers(buf: &mut Vec<u8>, h: &Vec<(String, String)>)
    requires
        wf_headers(headers_view(h@)),
    ensures
        final(buf)@ == old(buf)@ + enc_headers(headers_view(h@)),
{
    let ghost hv = headers_view(h@);
    let n = h.len() as u32;
    emit_u32(buf, n);
    let ghost base = buf@;
    let mut i: usize = 0;
    while i < h.len()
        invariant
            i <= h.len(),
            hv == headers_view(h@),
            hv.len() == h@.len(),
            wf_headers(hv),
            buf@ == base + enc_pairs(hv.take(i as int)),
        decreases h.len() - i,
    {
        proof {
            assert(hv[i as int] == (h@[i as int].0@, h@[i as int].1@));
            assert(wf_text(hv[i as int].0) && wf_text(hv[i as int].1));
        }
        emit_text(buf, &h[i].0);
        emit_text(buf, &h[i].1);
        proof {
            lemma_enc_pairs_push(hv.take(i as int), hv[i as int]);
            assert(hv.take(i as int).push(hv[i as int]) =~= hv.take(i as int + 1));
        }
        i = i + 1;
    }
    assert(hv.take(h@.len() as int) =~= hv);
}

fn emit_opt_text(buf: &mut Vec<u8>, o: &Option<String>)
    requires
        wf_opt_text(opt_view(*o)),
    ensures
        final(buf)@ == old(buf)@ + enc_opt_text(opt_view(*o)),
{
    match o {
        None => {
            buf.push(0u8);
            assert(buf@ =~= old(buf)@ + enc_opt_text(opt_view(*o)));
        },
        Some(s) => {
            buf.push(1u8);
            let ghost mid = buf@;
            assert(mid =~= old(buf)@ + seq![1u8]);
            emit_text(buf, s);
            assert(buf@ =~= old(buf)@ + enc_opt_text(opt_view(*o)));
        },
    }
}

/// Frames a relay message for the wire.
pub fn encode_message(m: &RelayMessage) -> (r: Vec<u8>)
    requires
        wf_msg(m@),
    ensures
        r@ == enc_msg(m@),
{
    let mut buf: Vec<u8> = Vec::new();
    match m {
        RelayMessage::Webhook { method, headers, body } => {
            buf.push(1u8);
            assert(buf@ =~= seq![1u8]);
            emit_text(&mut buf, method);
            emit_headers(&mut buf, headers);
            emit_blob(&mut buf, body);
            assert(buf@ =~= enc_msg(m@));
        },
        RelayMessage::ClientId(id) => {
            buf.push(2u8);
            assert(buf@ =~= seq![2u8]);
            emit_text(&mut buf, id);
            assert(buf@ =~= enc_msg(m@));
        },
        RelayMessage::ProxyRequest { request_id, method, headers, body, path, query } => {
            buf.push(3u8);
            assert(buf@ =~= seq![3u8]);
            emit_text(&mut buf, request_id);
            emit_text(&mut buf, method);
            emit_headers(&mut buf, headers);
            emit_blob(&mut buf, body);
            emit_opt_text(&mut buf, path);
            emit_opt_text(&mut buf, query);
            assert(buf@ =~= enc_msg(m@));
        },
        RelayMessage::ProxyResponse { request_id, headers, body, status } => {
            buf.push(4u8);
            assert(buf@ =~= seq![4u8]);
            emit_text(&mut buf, request_id);
            emit_u16(&mut buf, *status);
            emit_headers(&mut buf, headers);
            emit_blob(&mut buf, body);
            assert(buf@ =~= enc_msg(m@));
        },
    }
    buf
}

fn read_u32(buf: &Vec<u8>, pos: usize) -> (r: Option<(u32, usize)>)
    requires
        pos <= buf.len(),
    ensures
        match r {
            Some((n, p2)) => dec_u32(buf@, pos as int) == Some((n, p2 as int)) && p2 <= buf.len(),
            None => dec_u32(buf@, pos as int) is None,
        },
{
    if buf.len() - pos >= 4 {
        let s = vstd::slice::slice_subrange(buf.as_slice(), pos, pos + 4);
        let n = u32_from_le_bytes(s);
        Some((n, pos + 4))
    } else {
        None
    }
}

fn read_u16(buf: &Vec<u8>, pos: usize) -> (r: Option<(u16, usize)>)
    requires
        pos <= buf.len(),
    ensures
        match r {
            Some((n, p2)) => dec_u16(buf@, pos as int) == Some((n, p2 as int)) && p2 <= buf.len(),
            None => dec_u16(buf@, pos as int) is None,
        },
{
    if buf.len() - pos >= 2 {
        let s = vstd::slice::slice_subrange(buf.as_slice(), pos, pos + 2);
        let n = u16_from_le_bytes(s);
        Some((n, pos + 2))
    } else {
        None
    }
}

fn read_text(buf: &Vec<u8>, pos: usize) -> (r: Option<(String, usize)>)
    requires
        pos <= buf.len(),
    ensures
        match r {
            Some((t, p2)) => dec_text(buf@, pos as int) == Some((t@, p2 as int)) && p2 <= buf.len(),
            None => dec_text(buf@, pos as int) is None,
        },
{
    match read_u32(buf, pos) {
        None => None,
        Some((n, j)) => {
            let n_us = n as usize;
            if buf.len() - j >= n_us {
                let mut s = String::new();
                let mut k: usize = 0;
                while k < n_us
                    invariant
                        k <= n_us,
                        n_us == n as int,
                        j + n_us <= buf.len(),
                        dec_u32(buf@, pos as int) == Some((n, j as int)),
                        s@ == chars_at(buf@, j as int, k as int),
                        forall|q: int| 0 <= q < k ==> #[trigger] buf@[j + q] < 128,
                    decreases n_us - k,
                {
                    let b = buf[j + k];
                    if b >= 128 {
                        proof {
                            assert(buf@[j as int + k as int] >= 128);
                            assert(!ascii_block_ok(buf@, j as int, n as int)) by {
                                if ascii_block_ok(buf@, j as int, n as int) {
                                    assert(0 <= (k as int) && (k as int) < (n as int));
                                    assert(buf@[j as int + k as int] < 128);
                                }
                            }
                        }
                        return None;
                    }
                    push_char(&mut s, b as char);
                    assert(s@ =~= chars_at(buf@, j as int, k as int + 1));
                    k = k + 1;
                }
                assert(ascii_block_ok(buf@, j as int, n as int));
                Some((s, j + n_us))
            } else {
                None
            }
        },
    }
}

fn read_blob(buf: &Vec<u8>, pos: usize) -> (r: Option<(Vec<u8>, usize)>)
    requires
        pos <= buf.len(),
    ensures
        match r {
            Some((b, p2)) => dec_blob(buf@, pos as int) == Some((b@, p2 as int)) && p2 <= buf.len(),
            None => dec_blob(buf@, pos as int) is None,
        },
{
    match read_u32(buf, pos) {
        None => None,
        Some((n, j)) => {
            let n_us = n as usize;
            if buf.len() - j >= n_us {
                let s = vstd::slice::slice_subrange(buf.as_slice(), j, j + n_us);
                let b = vstd::slice::slice_to_vec(s);
                Some((b, j + n_us))
            } else {
                None
            }
        },
    }
}

fn read_pairs(buf: &Vec<u8>, pos: usize, n: u32) -> (r: Option<(Vec<(String, String)>, usize)>)
    requires
        pos <= buf.len(),
    ensures
        match r {
            Some((h, p2)) => dec_pairs(buf@, pos as int, n as nat) == Some(
                (headers_view(h@), p2 as int),
            ) && p2 <= buf.len(),
            None => dec_pairs(buf@, pos as int, n as nat) is None,
        },
    decreases n,
{
    if n == 0 {
        let empty: Vec<(String, String)> = Vec::new();
        assert(headers_view(empty@) =~= Seq::<(Seq<char>, Seq<char>)>::empty());
        Some((empty, pos))
    } else {
        match read_text(buf, pos) {
            None => None,
            Some((key, j)) => match read_text(buf, j) {
                None => None,
                Some((value, j2)) => match read_pairs(buf, j2, n - 1) {
                    None => None,
                    Some((mut rest, j3)) => {
                        let ghost tail = headers_view(rest@);
                        rest.insert(0, (key, value));
                        assert(headers_view(rest@) =~= seq![(key@, value@)] + tail);
                        Some((rest, j3))
                    },
                },
            },
        }
    }
}

fn read_headers(buf: &Vec<u8>, pos: usize) -> (r: Option<(Vec<(String, String)>, usize)>)
    requires
        pos <= buf.len(),
    ensures
        match r {
            Some((h, p2)) => dec_headers(buf@, pos as int) == Some(
                (headers_view(h@), p2 as int),
            ) && p2 <= buf.len(),
            None => dec_headers(buf@, pos as int) is None,
        },
{
    match read_u32(buf, pos) {
        None => None,
        Some((n, j)) => read_pairs(buf, j, n),
    }
}

fn read_opt_text(buf: &Vec<u8>, pos: usize) -> (r: Option<(Option<String>, usize)>)
    requires
        pos <= buf.len(),
    ensures
        match r {
            Some((o, p2)) => dec_opt_text(buf@, pos as int) == Some(
                (opt_view(o), p2 as int),
            ) && p2 <= buf.len(),
            None => dec_opt_text(buf@, pos as int) is None,
        },
{
    if pos < buf.len() {
        let flag = buf[pos];
        if flag == 0 {
            Some((None, pos + 1))
        } else if flag == 1 {
            match read_text(buf, pos + 1) {
                None => None,
                Some((t, j)) => Some((Some(t), j)),
            }
        } else {
            None
        }
    } else {
        None
    }
}

fn check_text(s: &String) -> (r: bool)
    ensures
        r == wf_text(s@),
{
    if !s.is_ascii() {
        return false;
    }
    let l = s.as_str().unicode_len();
    (l as u64) < 0x100000000u64
}

fn check_bytes(b: &Vec<u8>) -> (r: bool)
    ensures
        r == wf_bytes(b@),
{
    (b.len() as u64) < 0x100000000u64
}

fn check_headers(h: &Vec<(String, String)>) -> (r: bool)
    ensures
        r == wf_headers(headers_view(h@)),
{
    let ghost hv = headers_view(h@);
    if !((h.len() as u64) < 0x100000000u64) {
        return false;
    }
    let mut i: usize = 0;
    while i < h.len()
        invariant
            i <= h@.len(),
            hv == headers_view(h@),
            hv.len() == h@.len(),
            forall|j: int| 0 <= j < i ==> wf_text((#[trigger] hv[j]).0) && wf_text(hv[j].1),
        decreases h@.len() - i,
    {
        proof {
            assert(hv[i as int] == (h@[i as int].0@, h@[i as int].1@));
        }
        if !check_text(&h[i].0) || !check_text(&h[i].1) {
            return false;
        }
        i = i + 1;
    }
    true
}

fn check_opt_text(o: &Option<String>) -> (r: bool)
    ensures
        r == wf_opt_text(opt_view(*o)),
{
    match o {
        None => true,
        Some(s) => check_text(s),
    }
}

/// Frames a relay message for the wire, after checking that the wire
/// format can carry it: the fields the external contract fixes as text
/// must be ASCII, and every length must fit its four-byte prefix.
pub fn encode_message_checked(m: &RelayMessage) -> (r: Option<Vec<u8>>)
    ensures
        match r {
            Some(b) => wf_msg(m@) && b@ == enc_msg(m@),
            None => !wf_msg(m@),
        },
{
    let ok = match m {
        RelayMessage::Webhook { method, headers, body } => check_text(method) && check_headers(
            headers,
        ) && check_bytes(body),
        RelayMessage::ClientId(id) => check_text(id),
        RelayMessage::ProxyRequest { request_id, method, headers, body, path, query } => {
            check_text(request_id) && check_text(method) && check_headers(headers) && check_bytes(
                body,
            ) && check_opt_text(path) && check_opt_text(query)
        },
        RelayMessage::ProxyResponse { request_id, headers, body, status: _ } => {
            check_text(request_id) && check_headers(headers) && check_bytes(body)
        },
    };
    if ok {
        Some(encode_message(m))
    } else {
        None
    }
}

/// Parses one frame from the wire; `None` exactly where the format rejects
/// the bytes.
pub fn decode_message(buf: &Vec<u8>) -> (r: Option<RelayMessage>)
    ensures
        match r {
            Some(m) => dec_msg(buf@) == Some(m@),
            None => dec_msg(buf@) is None,
        },
{
    if buf.len() < 1 {
        return None;
    }
    let tag = buf[0];
    if tag == 1 {
        match read_text(buf, 1) {
            None => None,
            Some((method, i)) => match read_headers(buf, i) {
                None => None,
                Some((headers, j)) => match read_blob(buf, j) {
                    None => None,
                    Some((body, k)) => {
                        if k == buf.len() {
                            Some(RelayMessage::Webhook { method, headers, body })
                        } else {
                            None
                        }
                    },
                },
            },
        }
    } else if tag == 2 {
        match read_text(buf, 1) {
            None => None,
            Some((id, i)) => {
                if i == buf.len() {
                    Some(RelayMessage::ClientId(id))
                } else {
                    None
                }
            },
        }
    } else if tag == 3 {
        match read_text(buf, 1) {
            None => None,
            Some((request_id, i)) => match read_text(buf, i) {
                None => None,
                Some((method, j)) => match read_headers(buf, j) {
                    None => None,
                    Some((headers, k)) => match read_blob(buf, k) {
                        None => None,
                        Some((body, l)) => match read_opt_text(buf, l) {
                            None => None,
                            Some((path, m)) => match read_opt_text(buf, m) {
                                None => None,
                                Some((query, e)) => {
                                    if e == buf.len() {
                                        Some(
                                            RelayMessage::ProxyRequest {
                                                request_id,
                                                method,
                                                headers,
                                                body,
                                                path,
                                                query,
                                            },
                                        )
                                    } else {
                                        None
                                    }
                                },
                            },
                        },
                    },
                },
            },
        }
    } else if tag == 4 {
        match read_text(buf, 1) {
            None => None,
            Some((request_id, i)) => match read_u16(buf, i) {
                None => None,
                Some((status, j)) => match read_headers(buf, j) {
                    None => None,
                    Some((headers, k)) => match read_blob(buf, k) {
                        None => None,
                        Some((body, l)) => {
                            if l == buf.len() {
                                Some(
                                    RelayMessage::ProxyResponse {
                                        request_id,
                                        headers,
                                        body,
                                        status,
                                    },
                                )
                            } else {
                                None
                            }
                        },
                    },
                },
            },
        }
    } else {
        None
    }
}

} // verus!
