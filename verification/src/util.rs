//! Query-string assembly, header conversion, and id minting.
use vstd::prelude::*;
use vstd::string::StringExecFns;
use vstd::utf8::is_ascii_chars;
use crate::messages::headers_view;

verus! {

/// The query string the proxy forwards: `?k1=v1&k2=v2...` in order of
/// receipt, empty for an empty parameter list.
pub open spec fn query_string(params: Seq<(Seq<char>, Seq<char>)>) -> Seq<char>
    decreases params.len(),
{
    if params.len() == 0 {
        Seq::empty()
    } else {
        query_string(params.drop_last()) + (if params.len() == 1 {
            "?"@
        } else {
            "&"@
        }) + params.last().0 + "="@ + params.last().1
    }
}

/// Renders received query parameters back into a query string, preserving
/// their order and repeated keys.
pub fn get_query(params: Vec<(String, String)>) -> (r: String)
    ensures
        r@ == query_string(headers_view(params@)),
{
    let ghost hv = headers_view(params@);
    let mut qs = String::new();
    let mut i: usize = 0;
    while i < params.len()
        invariant
            i <= params@.len(),
            hv == headers_view(params@),
            hv.len() == params@.len(),
            qs@ == query_string(hv.take(i as int)),
        decreases params@.len() - i,
    {
        proof {
            assert(hv[i as int] == (params@[i as int].0@, params@[i as int].1@));
            assert(hv.take(i as int + 1).drop_last() =~= hv.take(i as int));
            assert(hv.take(i as int + 1).last() == hv[i as int]);
        }
        if i == 0 {
            qs.append("?");
        } else {
            qs.append("&");
        }
        qs.append(params[i].0.as_str());
        qs.append("=");
        qs.append(params[i].1.as_str());
        i = i + 1;
    }
    proof {
        assert(hv.take(params@.len() as int) =~= hv);
    }
    qs
}

/// The query field a relayed request carries: the rendered query string,
/// or absent — not empty — for an empty parameter list.
pub fn query_field(params: Vec<(String, String)>) -> (r: Option<String>)
    ensures
        match r {
            Some(q) => params@.len() > 0 && q@ == query_string(headers_view(params@)),
            None => params@.len() == 0,
        },
{
    if params.len() == 0 {
        None
    } else {
        Some(get_query(params))
    }
}

/// Header names key at most one entry.
pub open spec fn unique_names(s: Seq<(Seq<char>, Seq<char>)>) -> bool {
    forall|i: int, j: int| 0 <= i < j < s.len() ==> (#[trigger] s[i]).0 != (#[trigger] s[j]).0
}

/// Files one pair into a header mapping: a name already held keeps its
/// place and takes the new value, a fresh name is appended.
pub open spec fn upsert(s: Seq<(Seq<char>, Seq<char>)>, p: (Seq<char>, Seq<char>)) -> Seq<
    (Seq<char>, Seq<char>),
> {
    if exists|i: int| 0 <= i < s.len() && (#[trigger] s[i]).0 == p.0 {
        s.update(choose|i: int| 0 <= i < s.len() && (#[trigger] s[i]).0 == p.0, p)
    } else {
        s.push(p)
    }
}

/// The mapping a received header list denotes: one entry per name in the
/// case it arrived with, a repeated name collapsing to its last value;
/// a header whose value was not representable as text is dropped.
pub open spec fn textual_pairs(h: Seq<(String, Option<String>)>) -> Seq<(Seq<char>, Seq<char>)>
    decreases h.len(),
{
    if h.len() == 0 {
        Seq::empty()
    } else {
        match h.last().1 {
            Some(v) => upsert(textual_pairs(h.drop_last()), (h.last().0@, v@)),
            None => textual_pairs(h.drop_last()),
        }
    }
}

fn find_name(out: &Vec<(String, String)>, name: &String) -> (r: Option<usize>)
    ensures
        match r {
            Some(j) => j < out@.len() && out@[j as int].0@ == name@,
            None => forall|q: int| 0 <= q < out@.len() ==> (#[trigger] out@[q]).0@ != name@,
        },
{
    let mut j: usize = 0;
    while j < out.len()
        invariant
            j <= out@.len(),
            forall|q: int| 0 <= q < j ==> (#[trigger] out@[q]).0@ != name@,
        decreases out@.len() - j,
    {
        if out[j].0.eq(name) {
            return Some(j);
        }
        j = j + 1;
    }
    None
}

/// Turns received headers into the wire's mapping: one entry per name, a
/// repeated name collapsing to its last value, and every header whose
/// value was not representable as text dropped.
pub fn into_hashmap(headers: Vec<(String, Option<String>)>) -> (r: Vec<(String, String)>)
    ensures
        headers_view(r@) == textual_pairs(headers@),
        unique_names(headers_view(r@)),
{
    let mut out: Vec<(String, String)> = Vec::new();
    let mut i: usize = 0;
    proof {
        assert(headers_view(out@) =~= textual_pairs(headers@.take(0)));
    }
    while i < headers.len()
        invariant
            i <= headers@.len(),
            headers_view(out@) == textual_pairs(headers@.take(i as int)),
            unique_names(headers_view(out@)),
        decreases headers@.len() - i,
    {
        proof {
            assert(headers@.take(i as int + 1).drop_last() =~= headers@.take(i as int));
            assert(headers@.take(i as int + 1).last() == headers@[i as int]);
        }
        let p = &headers[i];
        match &p.1 {
            Some(v) => {
                let ghost before = headers_view(out@);
                let ghost newp = (p.0@, v@);
                match find_name(&out, &p.0) {
                    Some(j) => {
                        proof {
                            assert(before[j as int] == (out@[j as int].0@, out@[j as int].1@));
                            assert(before[j as int].0 == newp.0);
                            let ci = choose|ii: int|
                                0 <= ii < before.len() && (#[trigger] before[ii]).0 == newp.0;
                            assert(ci == j as int) by {
                                if ci < j as int {
                                    assert(before[ci].0 != before[j as int].0);
                                } else if ci > j as int {
                                    assert(before[j as int].0 != before[ci].0);
                                }
                            }
                        }
                        let key = p.0.clone();
                        let val = v.clone();
                        let ghost held = out@;
                        let ghost newpair = (key, val);
                        let _ = out.remove(j);
                        out.insert(j, (key, val));
                        proof {
                            assert(out@ =~= held.update(j as int, newpair));
                            assert(headers_view(out@) =~= before.update(j as int, newp));
                            assert(headers_view(out@) =~= upsert(before, newp));
                            assert(unique_names(headers_view(out@))) by {
                                assert(forall|a: int, b: int|
                                    0 <= a < b < headers_view(out@).len() ==> (
                                    #[trigger] headers_view(out@)[a]).0 != (#[trigger] headers_view(
                                        out@,
                                    )[b]).0);
                            }
                        }
                    },
                    None => {
                        let ghost raw_before = out@;
                        out.push((p.0.clone(), v.clone()));
                        proof {
                            assert(headers_view(out@) =~= before.push(newp));
                            assert(!(exists|ii: int|
                                0 <= ii < before.len() && (#[trigger] before[ii]).0 == newp.0))
                                by {
                                if exists|ii: int|
                                    0 <= ii < before.len() && (#[trigger] before[ii]).0 == newp.0 {
                                    let w = choose|ii: int|
                                        0 <= ii < before.len() && (#[trigger] before[ii]).0
                                            == newp.0;
                                    assert(raw_before[w].0@ != p.0@);
                                    assert(before[w] == (raw_before[w].0@, raw_before[w].1@));
                                }
                            }
                            assert(headers_view(out@) =~= upsert(before, newp));
                            assert(unique_names(headers_view(out@))) by {
                                assert(forall|a: int, b: int|
                                    0 <= a < b < headers_view(out@).len() ==> (
                                    #[trigger] headers_view(out@)[a]).0 != (#[trigger] headers_view(
                                        out@,
                                    )[b]).0);
                            }
                        }
                    },
                }
            },
            None => {
                proof {
                    assert(textual_pairs(headers@.take(i as int + 1)) =~= textual_pairs(
                        headers@.take(i as int),
                    ));
                }
            },
        }
        i = i + 1;
    }
    proof {
        assert(headers@.take(headers@.len() as int) =~= headers@);
    }
    out
}

/// A character the id mint can produce.
pub open spec fn id_char(c: char) -> bool {
    ('0' <= c && c <= '9') || ('a' <= c && c <= 'z') || ('A' <= c && c <= 'Z')
}

/// An id drawn from the mint's alphabet is plain ASCII text.
pub proof fn lemma_id_chars_ascii(s: Seq<char>)
    requires
        forall|i: int| 0 <= i < s.len() ==> id_char(#[trigger] s[i]),
    ensures
        is_ascii_chars(s),
{
}

/// Relies on `nanoid::format` over nanoid's URL-safe alphabet without its
/// two leading symbol characters: the result has exactly `length`
/// characters, each drawn from that alphanumeric alphabet. On a
/// zero-length request `format`'s generic path never returns, so that
/// input is left out.
#[verifier::external_body]
pub fn generate_id(length: usize) -> (r: String)
    requires
        1 <= length,
    ensures
        r@.len() == length,
        forall|i: int| 0 <= i < r@.len() ==> id_char(#[trigger] r@[i]),
{
    nanoid::format(nanoid::rngs::default, &nanoid::alphabet::SAFE[2..], length)
}

} // verus!
