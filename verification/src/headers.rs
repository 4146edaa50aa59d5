//! Header lists and the forwarding policy.
//!
//! Headers are ordered name/value pairs, matched case-insensitively by
//! name. An outbound request carries, in this order: the inbound values of
//! the route's forward list (a missing inbound header is simply omitted),
//! then every custom header, each overwriting any same-named entry, and for
//! the relay route a forced `authorization` bearer credential on top.

use vstd::prelude::*;

use crate::ServiceCredential;
use crate::config::EndpointConfig;
use crate::text::{contains_sub_spec, eq_ignore_case, str_contains, str_eq_ignore_case};

verus! {

/// Index of the first header named `name` (ASCII case-insensitive), or -1.
pub open spec fn header_idx(hs: Seq<(Seq<char>, Seq<char>)>, name: Seq<char>) -> int
    decreases hs.len(),
{
    if hs.len() == 0 {
        -1
    } else if eq_ignore_case(hs[0].0, name) {
        0
    } else if header_idx(hs.skip(1), name) == -1 {
        -1
    } else {
        1 + header_idx(hs.skip(1), name)
    }
}

/// The value of the first header named `name`, if any.
pub open spec fn header_lookup(hs: Seq<(Seq<char>, Seq<char>)>, name: Seq<char>) -> Option<
    Seq<char>,
> {
    let x = header_idx(hs, name);
    if x == -1 {
        None
    } else {
        Some(hs[x].1)
    }
}

proof fn lemma_header_idx_at(hs: Seq<(Seq<char>, Seq<char>)>, name: Seq<char>, i: int)
    requires
        0 <= i < hs.len(),
        eq_ignore_case(hs[i].0, name),
        forall|j: int| 0 <= j < i ==> !eq_ignore_case((#[trigger] hs[j]).0, name),
    ensures
        header_idx(hs, name) == i,
    decreases hs.len(),
{
    if i > 0 {
        assert(forall|j: int| 1 <= j < hs.len() ==> hs[j] == hs.skip(1)[j - 1]);
        lemma_header_idx_at(hs.skip(1), name, i - 1);
    }
}

proof fn lemma_header_idx_none(hs: Seq<(Seq<char>, Seq<char>)>, name: Seq<char>)
    requires
        forall|j: int| 0 <= j < hs.len() ==> !eq_ignore_case((#[trigger] hs[j]).0, name),
    ensures
        header_idx(hs, name) == -1,
    decreases hs.len(),
{
    if hs.len() > 0 {
        assert(forall|j: int| 1 <= j < hs.len() ==> hs[j] == hs.skip(1)[j - 1]);
        lemma_header_idx_none(hs.skip(1), name);
    }
}

/// The value of the first header named `name`, by case-insensitive scan.
pub fn find_header<'a>(hs: &'a Vec<(String, String)>, name: &str) -> (r: Option<&'a String>)
    ensures
        match r {
            Some(v) => header_lookup(hs.deep_view(), name@) == Some(v@),
            None => header_lookup(hs.deep_view(), name@) is None,
        },
{
    let mut i: usize = 0;
    while i < hs.len()
        invariant
            i <= hs@.len(),
            forall|j: int| 0 <= j < i ==> !eq_ignore_case((#[trigger] hs.deep_view()[j]).0, name@),
        decreases hs@.len() - i,
    {
        if str_eq_ignore_case(hs[i].0.as_str(), name) {
            proof {
                lemma_header_idx_at(hs.deep_view(), name@, i as int);
            }
            return Some(&hs[i].1);
        }
        i += 1;
    }
    proof {
        lemma_header_idx_none(hs.deep_view(), name@);
    }
    None
}

/// `hs` with every header named `name` removed.
pub open spec fn remove_header_spec(hs: Seq<(Seq<char>, Seq<char>)>, name: Seq<char>) -> Seq<
    (Seq<char>, Seq<char>),
>
    decreases hs.len(),
{
    if hs.len() == 0 {
        Seq::empty()
    } else if eq_ignore_case(hs[0].0, name) {
        remove_header_spec(hs.skip(1), name)
    } else {
        seq![hs[0]] + remove_header_spec(hs.skip(1), name)
    }
}

/// `hs` with `name` set to `value`: all same-named entries removed, the new
/// pair appended at the end.
pub open spec fn set_header_spec(
    hs: Seq<(Seq<char>, Seq<char>)>,
    name: Seq<char>,
    value: Seq<char>,
) -> Seq<(Seq<char>, Seq<char>)> {
    remove_header_spec(hs, name).push((name, value))
}

/// Set `name` to `value`, overwriting any same-named headers.
pub fn set_header(hs: &mut Vec<(String, String)>, name: String, value: String)
    ensures
        final(hs).deep_view() == set_header_spec(old(hs).deep_view(), name@, value@),
{
    let ghost orig = hs.deep_view();
    let mut out: Vec<(String, String)> = Vec::new();
    let mut i: usize = 0;
    proof {
        assert(orig.skip(0) =~= orig);
        assert(out.deep_view() + remove_header_spec(orig.skip(0), name@) =~= remove_header_spec(
            orig,
            name@,
        ));
    }
    while i < hs.len()
        invariant
            i <= hs@.len(),
            hs.deep_view() == orig,
            orig.len() == hs@.len(),
            forall|j: int| 0 <= j < hs@.len() ==> orig[j] == (#[trigger] hs@[j].0@, hs@[j].1@),
            out.deep_view() + remove_header_spec(orig.skip(i as int), name@) == remove_header_spec(
                orig,
                name@,
            ),
        decreases hs@.len() - i,
    {
        proof {
            assert(orig.skip(i as int)[0] == orig[i as int]);
            assert(orig.skip(i as int).skip(1) =~= orig.skip(i + 1));
        }
        if !str_eq_ignore_case(hs[i].0.as_str(), name.as_str()) {
            let ghost out0 = out.deep_view();
            out.push((hs[i].0.clone(), hs[i].1.clone()));
            proof {
                assert(out.deep_view() =~= out0.push(orig[i as int]));
                assert(out0.push(orig[i as int]) + remove_header_spec(orig.skip(i + 1), name@)
                    =~= out0 + remove_header_spec(orig.skip(i as int), name@));
            }
        }
        i += 1;
    }
    proof {
        assert(orig.skip(orig.len() as int) =~= Seq::empty());
        assert(remove_header_spec(Seq::empty(), name@) =~= Seq::<(Seq<char>, Seq<char>)>::empty());
        assert(out.deep_view() + Seq::<(Seq<char>, Seq<char>)>::empty() =~= out.deep_view());
    }
    let ghost removed = out.deep_view();
    out.push((name, value));
    proof {
        assert(out.deep_view() =~= removed.push((name@, value@)));
    }
    *hs = out;
}

/// The forwarded subset: for each name of `names`, in order, the inbound
/// value when the inbound request has the header; a missing header
/// contributes nothing.
pub open spec fn forwarded_spec(names: Seq<Seq<char>>, inbound: Seq<(Seq<char>, Seq<char>)>) -> Seq<
    (Seq<char>, Seq<char>),
>
    decreases names.len(),
{
    if names.len() == 0 {
        Seq::empty()
    } else {
        let rest = forwarded_spec(names.skip(1), inbound);
        let x = header_idx(inbound, names[0]);
        if x == -1 {
            rest
        } else {
            seq![(names[0], inbound[x].1)] + rest
        }
    }
}

/// Copy the inbound values of every name in `names`, in order; absent
/// headers are omitted.
pub fn forward_headers(names: &Vec<String>, inbound: &Vec<(String, String)>) -> (r: Vec<
    (String, String),
>)
    ensures
        r.deep_view() == forwarded_spec(names.deep_view(), inbound.deep_view()),
{
    let ghost nsv = names.deep_view();
    let ghost inv = inbound.deep_view();
    let mut out: Vec<(String, String)> = Vec::new();
    let mut i: usize = 0;
    proof {
        assert(nsv.skip(0) =~= nsv);
        assert(out.deep_view() + forwarded_spec(nsv.skip(0), inv) =~= forwarded_spec(nsv, inv));
    }
    while i < names.len()
        invariant
            i <= names@.len(),
            names.deep_view() == nsv,
            inbound.deep_view() == inv,
            nsv.len() == names@.len(),
            forall|j: int| 0 <= j < names@.len() ==> nsv[j] == (#[trigger] names@[j])@,
            out.deep_view() + forwarded_spec(nsv.skip(i as int), inv) == forwarded_spec(nsv, inv),
        decreases names@.len() - i,
    {
        proof {
            assert(nsv.skip(i as int)[0] == nsv[i as int]);
            assert(nsv.skip(i as int).skip(1) =~= nsv.skip(i + 1));
        }
        let ghost out0 = out.deep_view();
        match find_header(inbound, names[i].as_str()) {
            Some(v) => {
                out.push((names[i].clone(), v.clone()));
                proof {
                    let x = header_idx(inv, nsv[i as int]);
                    assert(out.deep_view() =~= out0.push((nsv[i as int], inv[x].1)));
                    assert(out0.push((nsv[i as int], inv[x].1)) + forwarded_spec(
                        nsv.skip(i + 1),
                        inv,
                    ) =~= out0 + forwarded_spec(nsv.skip(i as int), inv));
                }
            },
            None => {},
        }
        i += 1;
    }
    proof {
        assert(nsv.skip(nsv.len() as int) =~= Seq::<Seq<char>>::empty());
        assert(out.deep_view() + forwarded_spec(Seq::empty(), inv) =~= out.deep_view());
    }
    out
}

/// The customs of a route applied in order, each overwriting.
pub open spec fn apply_customs_spec(
    hs: Seq<(Seq<char>, Seq<char>)>,
    customs: Seq<(Seq<char>, Seq<char>)>,
) -> Seq<(Seq<char>, Seq<char>)>
    decreases customs.len(),
{
    if customs.len() == 0 {
        hs
    } else {
        apply_customs_spec(set_header_spec(hs, customs[0].0, customs[0].1), customs.skip(1))
    }
}

/// Apply `entries` to `hs` in order, each overwriting same-named headers.
pub fn apply_overwrites(hs: &mut Vec<(String, String)>, entries: &Vec<(String, String)>)
    ensures
        final(hs).deep_view() == apply_customs_spec(old(hs).deep_view(), entries.deep_view()),
{
    let ghost base = hs.deep_view();
    let ghost es = entries.deep_view();
    let mut i: usize = 0;
    proof {
        assert(es.skip(0) =~= es);
    }
    while i < entries.len()
        invariant
            i <= entries@.len(),
            entries.deep_view() == es,
            es.len() == entries@.len(),
            forall|j: int|
                0 <= j < entries@.len() ==> es[j] == (
                    (#[trigger] entries@[j]).0@,
                    entries@[j].1@,
                ),
            apply_customs_spec(hs.deep_view(), es.skip(i as int)) == apply_customs_spec(base, es),
        decreases entries@.len() - i,
    {
        proof {
            assert(es.skip(i as int)[0] == es[i as int]);
            assert(es.skip(i as int).skip(1) =~= es.skip(i + 1));
        }
        set_header(hs, entries[i].0.clone(), entries[i].1.clone());
        i += 1;
    }
    proof {
        assert(es.skip(es.len() as int) =~= Seq::<(Seq<char>, Seq<char>)>::empty());
    }
}

/// The full outbound header list of a route: forwarded inbound headers,
/// then custom headers overwriting, then — for a path containing
/// `llm-proxy` — the forced bearer credential.
pub open spec fn outbound_headers_spec(
    route: EndpointConfig,
    inbound: Seq<(Seq<char>, Seq<char>)>,
    bearer: Seq<char>,
) -> Seq<(Seq<char>, Seq<char>)> {
    let fwd = forwarded_spec(route.forward_request_headers.deep_view(), inbound);
    let with_customs = apply_customs_spec(fwd, route.custom_headers.deep_view());
    if contains_sub_spec(route.path@, "llm-proxy"@) {
        set_header_spec(with_customs, "authorization"@, bearer)
    } else {
        with_customs
    }
}

/// The text `Bearer <key>`.
pub fn bearer_value(cred: &ServiceCredential) -> (r: String)
    ensures
        r@ == "Bearer "@ + cred.key@,
{
    let mut s = "Bearer ".to_owned();
    s.append(cred.key.as_str());
    s
}

/// Build the outbound header list for a route: the forwarding policy, the
/// custom headers, and the relay-route credential pin.
pub fn build_outbound_headers(
    route: &EndpointConfig,
    inbound: &Vec<(String, String)>,
    cred: &ServiceCredential,
) -> (r: Vec<(String, String)>)
    ensures
        r.deep_view() == outbound_headers_spec(*route, inbound.deep_view(), "Bearer "@ + cred.key@),
{
    let mut out = forward_headers(&route.forward_request_headers, inbound);
    let ghost fwd = out.deep_view();
    let ghost customs = route.custom_headers.deep_view();
    let mut i: usize = 0;
    proof {
        assert(customs.skip(0) =~= customs);
    }
    while i < route.custom_headers.len()
        invariant
            i <= route.custom_headers@.len(),
            route.custom_headers.deep_view() == customs,
            customs.len() == route.custom_headers@.len(),
            forall|j: int|
                0 <= j < route.custom_headers@.len() ==> customs[j] == (
                    (#[trigger] route.custom_headers@[j]).0@,
                    route.custom_headers@[j].1@,
                ),
            apply_customs_spec(out.deep_view(), customs.skip(i as int)) == apply_customs_spec(
                fwd,
                customs,
            ),
        decreases route.custom_headers@.len() - i,
    {
        proof {
            assert(customs.skip(i as int)[0] == customs[i as int]);
            assert(customs.skip(i as int).skip(1) =~= customs.skip(i + 1));
        }
        set_header(&mut out, route.custom_headers[i].0.clone(), route.custom_headers[i].1.clone());
        i += 1;
    }
    proof {
        assert(customs.skip(customs.len() as int) =~= Seq::<(Seq<char>, Seq<char>)>::empty());
    }
    if str_contains(route.path.as_str(), "llm-proxy") {
        let name = "authorization".to_owned();
        let value = bearer_value(cred);
        set_header(&mut out, name, value);
    }
    out
}

/// A found header's stored name matches the queried name up to case.
proof fn lemma_header_idx_found(hs: Seq<(Seq<char>, Seq<char>)>, name: Seq<char>)
    ensures
        header_idx(hs, name) != -1 ==> {
            let x = header_idx(hs, name);
            0 <= x < hs.len() && eq_ignore_case(hs[x].0, name)
        },
    decreases hs.len(),
{
    if hs.len() > 0 {
        lemma_header_idx_found(hs.skip(1), name);
        assert(forall|j: int| 1 <= j < hs.len() ==> hs[j] == hs.skip(1)[j - 1]);
    }
}

/// Case-insensitive equality carries across a matching pair of names.
proof fn lemma_eq_ignore_case_trans(a: Seq<char>, b: Seq<char>, c: Seq<char>)
    requires
        eq_ignore_case(b, a),
    ensures
        eq_ignore_case(a, c) == eq_ignore_case(b, c),
{
    if eq_ignore_case(a, c) {
        assert(forall|i: int|
            0 <= i < b.len() ==> crate::text::lower_code(#[trigger] b[i]) == crate::text::lower_code(
                c[i],
            ));
    }
    if eq_ignore_case(b, c) {
        assert(forall|i: int|
            0 <= i < a.len() ==> crate::text::lower_code(#[trigger] a[i]) == crate::text::lower_code(
                c[i],
            ));
    }
}

/// A name absent from the inbound headers never appears among the
/// forwarded ones: the policy omits it rather than forwarding an empty
/// value.
pub proof fn lemma_absent_header_omitted(
    names: Seq<Seq<char>>,
    inbound: Seq<(Seq<char>, Seq<char>)>,
    name: Seq<char>,
)
    requires
        header_idx(inbound, name) == -1,
    ensures
        forall|k: int|
            0 <= k < forwarded_spec(names, inbound).len() ==> !eq_ignore_case(
                (#[trigger] forwarded_spec(names, inbound)[k]).0,
                name,
            ),
    decreases names.len(),
{
    if names.len() > 0 {
        lemma_absent_header_omitted(names.skip(1), inbound, name);
        let x = header_idx(inbound, names[0]);
        if x != -1 {
            lemma_header_idx_found(inbound, names[0]);
            lemma_header_idx_none_all_differ(inbound, name);
            assert forall|k: int|
                0 <= k < forwarded_spec(names, inbound).len() implies !eq_ignore_case(
                (#[trigger] forwarded_spec(names, inbound)[k]).0,
                name,
            ) by {
                if k == 0 {
                    assert(forwarded_spec(names, inbound)[0].0 == names[0]);
                    lemma_eq_ignore_case_trans(names[0], inbound[x].0, name);
                } else {
                    assert(forwarded_spec(names, inbound)[k] == forwarded_spec(
                        names.skip(1),
                        inbound,
                    )[k - 1]);
                }
            }
        } else {
            assert forall|k: int|
                0 <= k < forwarded_spec(names, inbound).len() implies !eq_ignore_case(
                (#[trigger] forwarded_spec(names, inbound)[k]).0,
                name,
            ) by {
                assert(forwarded_spec(names, inbound)[k] == forwarded_spec(
                    names.skip(1),
                    inbound,
                )[k]);
            }
        }
    }
}

/// When no header matches, every stored name differs from the query.
proof fn lemma_header_idx_none_all_differ(hs: Seq<(Seq<char>, Seq<char>)>, name: Seq<char>)
    requires
        header_idx(hs, name) == -1,
    ensures
        forall|j: int| 0 <= j < hs.len() ==> !eq_ignore_case((#[trigger] hs[j]).0, name),
    decreases hs.len(),
{
    if hs.len() > 0 {
        assert(!eq_ignore_case(hs[0].0, name));
        lemma_header_idx_range(hs.skip(1), name);
        assert(header_idx(hs.skip(1), name) == -1);
        lemma_header_idx_none_all_differ(hs.skip(1), name);
        assert(forall|j: int| 1 <= j < hs.len() ==> hs[j] == hs.skip(1)[j - 1]);
    }
}

/// The index is -1 or a position inside the list.
proof fn lemma_header_idx_range(hs: Seq<(Seq<char>, Seq<char>)>, name: Seq<char>)
    ensures
        header_idx(hs, name) == -1 || 0 <= header_idx(hs, name) < hs.len(),
    decreases hs.len(),
{
    if hs.len() > 0 && !eq_ignore_case(hs[0].0, name) {
        lemma_header_idx_range(hs.skip(1), name);
    }
}

} // verus!
