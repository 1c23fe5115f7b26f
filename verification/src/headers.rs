//! The header policy of the reverse proxy.
//!
//! A header list models an HTTP header map as an ordered sequence of
//! name/value pairs; names match case-insensitively. The policy strips every
//! header named in the `Connection` value together with the fixed hop-by-hop
//! set, reinstates the `Connection`/`Upgrade` pair for protocol-upgrade
//! requests, and appends forwarding metadata (`X-Forwarded-For`,
//! `X-Forwarded-Proto`).

use vstd::prelude::*;
use vstd::string::StrSliceExecFns;
use vstd::string::StringExecFns;

use crate::text::eq_ci;
use crate::text::has_token_ci;
use crate::text::has_token_ci_str;
use crate::text::str_eq_ci;

verus! {

/// One HTTP header: a name and a value.
#[derive(Debug)]
pub struct Header {
    pub name: String,
    pub value: String,
}

impl View for Header {
    type V = (Seq<char>, Seq<char>);

    open spec fn view(&self) -> (Seq<char>, Seq<char>) {
        (self.name@, self.value@)
    }
}

/// The character-level view of a header sequence.
pub open spec fn hs_view(hs: Seq<Header>) -> Seq<(Seq<char>, Seq<char>)> {
    hs.map_values(|h: Header| h@)
}

/// Index of the first header whose name matches `name` case-insensitively,
/// or -1 when there is none.
pub open spec fn find_ci(hs: Seq<(Seq<char>, Seq<char>)>, name: Seq<char>) -> int
    decreases hs.len(),
{
    if hs.len() == 0 {
        -1
    } else if eq_ci(hs[0].0, name) {
        0
    } else {
        let r = find_ci(hs.skip(1), name);
        if r == -1 {
            -1
        } else {
            r + 1
        }
    }
}

pub proof fn lemma_find_ci(hs: Seq<(Seq<char>, Seq<char>)>, name: Seq<char>)
    ensures
        find_ci(hs, name) == -1 ==> forall|k: int| 0 <= k < hs.len() ==> !eq_ci(hs[k].0, name),
        find_ci(hs, name) != -1 ==> 0 <= find_ci(hs, name) < hs.len() && eq_ci(
            hs[find_ci(hs, name)].0,
            name,
        ) && forall|k: int| 0 <= k < find_ci(hs, name) ==> !eq_ci(hs[k].0, name),
    decreases hs.len(),
{
    if hs.len() > 0 && !eq_ci(hs[0].0, name) {
        lemma_find_ci(hs.skip(1), name);
        let r = find_ci(hs.skip(1), name);
        if r == -1 {
            assert forall|k: int| 0 <= k < hs.len() implies !eq_ci(hs[k].0, name) by {
                if k > 0 {
                    assert(hs.skip(1)[k - 1] == hs[k]);
                }
            }
        } else {
            assert(hs.skip(1)[r] == hs[r + 1]);
            assert forall|k: int| 0 <= k < find_ci(hs, name) implies !eq_ci(hs[k].0, name) by {
                if k > 0 {
                    assert(hs.skip(1)[k - 1] == hs[k]);
                }
            }
        }
    }
}

pub proof fn lemma_find_ci_at(hs: Seq<(Seq<char>, Seq<char>)>, name: Seq<char>, i: int)
    requires
        0 <= i < hs.len(),
        eq_ci(hs[i].0, name),
        forall|k: int| 0 <= k < i ==> !eq_ci(hs[k].0, name),
    ensures
        find_ci(hs, name) == i,
    decreases hs.len(),
{
    if i > 0 {
        assert(hs.skip(1)[i - 1] == hs[i]);
        assert forall|k: int| 0 <= k < i - 1 implies !eq_ci(hs.skip(1)[k].0, name) by {
            assert(hs.skip(1)[k] == hs[k + 1]);
        }
        lemma_find_ci_at(hs.skip(1), name, i - 1);
    }
}

/// The value of the first `Connection` header, if any.
pub open spec fn conn_value(hs: Seq<(Seq<char>, Seq<char>)>) -> Option<Seq<char>> {
    let i = find_ci(hs, "connection"@);
    if i == -1 {
        None
    } else {
        Some(hs[i].1)
    }
}

/// Membership in the fixed hop-by-hop header name set.
pub open spec fn is_hop_name(name: Seq<char>) -> bool {
    ||| eq_ci(name, "connection"@)
    ||| eq_ci(name, "keep-alive"@)
    ||| eq_ci(name, "proxy-authenticate"@)
    ||| eq_ci(name, "proxy-authorization"@)
    ||| eq_ci(name, "te"@)
    ||| eq_ci(name, "trailer"@)
    ||| eq_ci(name, "transfer-encoding"@)
    ||| eq_ci(name, "upgrade"@)
}

/// A header of this name is removed by stripping: it is hop-by-hop, or the
/// `Connection` value of the list names it.
pub open spec fn stripped_name(hs: Seq<(Seq<char>, Seq<char>)>, name: Seq<char>) -> bool {
    is_hop_name(name) || (match conn_value(hs) {
        Some(cv) => has_token_ci(cv, name),
        None => false,
    })
}

/// `prefix` filtered by the stripping policy that the full list `full` fixes.
pub open spec fn strip_filtered(
    full: Seq<(Seq<char>, Seq<char>)>,
    prefix: Seq<(Seq<char>, Seq<char>)>,
) -> Seq<(Seq<char>, Seq<char>)> {
    prefix.filter(|p: (Seq<char>, Seq<char>)| !stripped_name(full, p.0))
}

/// The list with every `Connection`-named and hop-by-hop header removed.
pub open spec fn strip_spec(hs: Seq<(Seq<char>, Seq<char>)>) -> Seq<(Seq<char>, Seq<char>)> {
    strip_filtered(hs, hs)
}

proof fn lemma_strip_filtered_push(
    full: Seq<(Seq<char>, Seq<char>)>,
    prefix: Seq<(Seq<char>, Seq<char>)>,
    x: (Seq<char>, Seq<char>),
)
    ensures
        strip_filtered(full, prefix.push(x)) == if !stripped_name(full, x.0) {
            strip_filtered(full, prefix).push(x)
        } else {
            strip_filtered(full, prefix)
        },
{
    reveal(Seq::filter);
    assert(prefix.push(x).drop_last() =~= prefix);
}

/// All headers whose name matches `name` case-insensitively, removed.
pub open spec fn remove_ci(hs: Seq<(Seq<char>, Seq<char>)>, name: Seq<char>) -> Seq<
    (Seq<char>, Seq<char>),
> {
    hs.filter(|p: (Seq<char>, Seq<char>)| !eq_ci(p.0, name))
}

proof fn lemma_remove_ci_push(
    prefix: Seq<(Seq<char>, Seq<char>)>,
    x: (Seq<char>, Seq<char>),
    name: Seq<char>,
)
    ensures
        remove_ci(prefix.push(x), name) == if !eq_ci(x.0, name) {
            remove_ci(prefix, name).push(x)
        } else {
            remove_ci(prefix, name)
        },
{
    reveal(Seq::filter);
    assert(prefix.push(x).drop_last() =~= prefix);
}

/// Replacement of every header of this name by one with the given value.
pub open spec fn insert_spec(
    hs: Seq<(Seq<char>, Seq<char>)>,
    name: Seq<char>,
    value: Seq<char>,
) -> Seq<(Seq<char>, Seq<char>)> {
    remove_ci(hs, name).push((name, value))
}

/// The request asks for a protocol upgrade: its `Connection` value lists
/// `upgrade`.
pub open spec fn upgrade_requested(hs: Seq<(Seq<char>, Seq<char>)>) -> bool {
    match conn_value(hs) {
        Some(cv) => has_token_ci(cv, "upgrade"@),
        None => false,
    }
}

/// The value of the `Upgrade` header of an upgrade request, if both the
/// `Connection` marker and the `Upgrade` header are present.
pub open spec fn upgrade_value(hs: Seq<(Seq<char>, Seq<char>)>) -> Option<Seq<char>> {
    if upgrade_requested(hs) {
        let i = find_ci(hs, "upgrade"@);
        if i == -1 {
            None
        } else {
            Some(hs[i].1)
        }
    } else {
        None
    }
}

/// The client address appended to the first `X-Forwarded-For` value
/// (comma-separated), or a new such header when none exists.
pub open spec fn xff_spec(hs: Seq<(Seq<char>, Seq<char>)>, addr: Seq<char>) -> Seq<
    (Seq<char>, Seq<char>),
> {
    let i = find_ci(hs, "x-forwarded-for"@);
    if i == -1 {
        hs.push(("x-forwarded-for"@, addr))
    } else {
        hs.update(i, (hs[i].0, hs[i].1 + ", "@ + addr))
    }
}

/// `X-Forwarded-Proto: https` added when the header is absent.
pub open spec fn xfp_spec(hs: Seq<(Seq<char>, Seq<char>)>) -> Seq<(Seq<char>, Seq<char>)> {
    if find_ci(hs, "x-forwarded-proto"@) == -1 {
        hs.push(("x-forwarded-proto"@, "https"@))
    } else {
        hs
    }
}

/// The whole outbound header pipeline: strip `Connection`-named and
/// hop-by-hop headers, reinstate the upgrade pair for an upgrade request,
/// then add the forwarding metadata.
pub open spec fn forward_headers_spec(hs: Seq<(Seq<char>, Seq<char>)>, addr: Seq<char>) -> Seq<
    (Seq<char>, Seq<char>),
> {
    let stripped = strip_spec(hs);
    let upgraded = match upgrade_value(hs) {
        Some(up) => insert_spec(insert_spec(stripped, "connection"@, "upgrade"@), "upgrade"@, up),
        None => stripped,
    };
    xfp_spec(xff_spec(upgraded, addr))
}

proof fn lemma_filter_subset<A>(s: Seq<A>, pred: spec_fn(A) -> bool, j: int)
    requires
        0 <= j < s.filter(pred).len(),
    ensures
        s.contains(s.filter(pred)[j]),
    decreases s.len(),
{
    reveal(Seq::filter);
    if s.len() > 0 {
        let rest = s.drop_last();
        let x = s.filter(pred)[j];
        if !(pred(s.last()) && j == s.filter(pred).len() - 1) {
            lemma_filter_subset(rest, pred, j);
            let k = choose|k: int| 0 <= k < rest.len() && rest[k] == x;
            assert(s[k] == x);
        } else {
            assert(s[s.len() - 1] == x);
        }
    }
}

/// The forwarding-metadata header names are neither hop-by-hop names nor the
/// `connection`/`upgrade` pair.
proof fn lemma_forward_meta_names_not_hop()
    ensures
        !is_hop_name("x-forwarded-for"@),
        !is_hop_name("x-forwarded-proto"@),
{
    reveal_strlit("x-forwarded-for");
    reveal_strlit("x-forwarded-proto");
    reveal_strlit("connection");
    reveal_strlit("keep-alive");
    reveal_strlit("proxy-authenticate");
    reveal_strlit("proxy-authorization");
    reveal_strlit("te");
    reveal_strlit("trailer");
    reveal_strlit("transfer-encoding");
    reveal_strlit("upgrade");
    crate::text::lemma_eq_ci_pointwise("x-forwarded-for"@, "connection"@);
    crate::text::lemma_eq_ci_pointwise("x-forwarded-for"@, "keep-alive"@);
    crate::text::lemma_eq_ci_pointwise("x-forwarded-for"@, "proxy-authenticate"@);
    crate::text::lemma_eq_ci_pointwise("x-forwarded-for"@, "proxy-authorization"@);
    crate::text::lemma_eq_ci_pointwise("x-forwarded-for"@, "te"@);
    crate::text::lemma_eq_ci_pointwise("x-forwarded-for"@, "trailer"@);
    crate::text::lemma_eq_ci_pointwise("x-forwarded-for"@, "transfer-encoding"@);
    crate::text::lemma_eq_ci_pointwise("x-forwarded-for"@, "upgrade"@);
    crate::text::lemma_eq_ci_pointwise("x-forwarded-proto"@, "connection"@);
    crate::text::lemma_eq_ci_pointwise("x-forwarded-proto"@, "keep-alive"@);
    crate::text::lemma_eq_ci_pointwise("x-forwarded-proto"@, "proxy-authenticate"@);
    crate::text::lemma_eq_ci_pointwise("x-forwarded-proto"@, "proxy-authorization"@);
    crate::text::lemma_eq_ci_pointwise("x-forwarded-proto"@, "te"@);
    crate::text::lemma_eq_ci_pointwise("x-forwarded-proto"@, "trailer"@);
    crate::text::lemma_eq_ci_pointwise("x-forwarded-proto"@, "transfer-encoding"@);
    crate::text::lemma_eq_ci_pointwise("x-forwarded-proto"@, "upgrade"@);
    assert(crate::text::lower_char("x-forwarded-proto"@[0]) != crate::text::lower_char(
        "transfer-encoding"@[0],
    ));
}

/// Every header name listed in the `Connection` value, and every name of the
/// fixed hop-by-hop set, is absent from the forwarded headers — except that
/// an upgrade request's reinstated `Connection`/`Upgrade` pair remains. The
/// law holds when the `Connection` value does not name the forwarding
/// metadata (`X-Forwarded-For`/`X-Forwarded-Proto`), which forwarding
/// re-adds after stripping.
pub proof fn lemma_forward_headers_strip(
    hs: Seq<(Seq<char>, Seq<char>)>,
    addr: Seq<char>,
    j: int,
)
    requires
        match conn_value(hs) {
            Some(cv) => !has_token_ci(cv, "x-forwarded-for"@) && !has_token_ci(
                cv,
                "x-forwarded-proto"@,
            ),
            None => true,
        },
        0 <= j < forward_headers_spec(hs, addr).len(),
        stripped_name(hs, forward_headers_spec(hs, addr)[j].0),
    ensures
        upgrade_value(hs) is Some,
        eq_ci(forward_headers_spec(hs, addr)[j].0, "connection"@) || eq_ci(
            forward_headers_spec(hs, addr)[j].0,
            "upgrade"@,
        ),
{
    lemma_forward_meta_names_not_hop();
    let stripped = strip_spec(hs);
    let upgraded = match upgrade_value(hs) {
        Some(up) => insert_spec(insert_spec(stripped, "connection"@, "upgrade"@), "upgrade"@, up),
        None => stripped,
    };
    let once = xff_spec(upgraded, addr);
    let fwd = forward_headers_spec(hs, addr);
    let name = fwd[j].0;
    lemma_find_ci(once, "x-forwarded-proto"@);
    lemma_find_ci(upgraded, "x-forwarded-for"@);
    // Peel the X-Forwarded-Proto stage.
    if find_ci(once, "x-forwarded-proto"@) == -1 && j == once.len() {
        assert(name == "x-forwarded-proto"@);
        assert(!stripped_name(hs, name));
    } else {
        assert(0 <= j < once.len());
        assert(fwd[j] == once[j]);
        // Peel the X-Forwarded-For stage.
        let i = find_ci(upgraded, "x-forwarded-for"@);
        if i == -1 && j == upgraded.len() {
            assert(name == "x-forwarded-for"@);
            assert(!stripped_name(hs, name));
        } else {
            assert(0 <= j < upgraded.len());
            assert(name == upgraded[j].0);
            // Peel the upgrade reinstatement.
            match upgrade_value(hs) {
                Some(up) => {
                    let inner = insert_spec(stripped, "connection"@, "upgrade"@);
                    if j == upgraded.len() - 1 {
                        assert(name == "upgrade"@);
                    } else {
                        let removed_up = remove_ci(inner, "upgrade"@);
                        assert(removed_up == inner.filter(
                            |p: (Seq<char>, Seq<char>)| !eq_ci(p.0, "upgrade"@),
                        ));
                        assert(upgraded[j] == removed_up[j]);
                        lemma_filter_subset(
                            inner,
                            |p: (Seq<char>, Seq<char>)| !eq_ci(p.0, "upgrade"@),
                            j,
                        );
                        assert(inner.contains(upgraded[j]));
                        let k = choose|k: int| 0 <= k < inner.len() && inner[k] == upgraded[j];
                        if k == inner.len() - 1 {
                            assert(name == "connection"@);
                        } else {
                            let removed_conn = remove_ci(stripped, "connection"@);
                            assert(removed_conn == stripped.filter(
                                |p: (Seq<char>, Seq<char>)| !eq_ci(p.0, "connection"@),
                            ));
                            assert(inner[k] == removed_conn[k]);
                            lemma_filter_subset(
                                stripped,
                                |p: (Seq<char>, Seq<char>)| !eq_ci(p.0, "connection"@),
                                k,
                            );
                            assert(stripped.contains(inner[k]));
                            let m = choose|m: int|
                                0 <= m < stripped.len() && stripped[m] == inner[k];
                            assert(stripped == hs.filter(
                                |p: (Seq<char>, Seq<char>)| !stripped_name(hs, p.0),
                            ));
                            hs.lemma_filter_pred(
                                |p: (Seq<char>, Seq<char>)| !stripped_name(hs, p.0),
                                m,
                            );
                            assert(!stripped_name(hs, stripped[m].0));
                            assert(false);
                        }
                    }
                },
                None => {
                    assert(stripped == hs.filter(
                        |p: (Seq<char>, Seq<char>)| !stripped_name(hs, p.0),
                    ));
                    hs.lemma_filter_pred(|p: (Seq<char>, Seq<char>)| !stripped_name(hs, p.0), j);
                    assert(!stripped_name(hs, stripped[j].0));
                    assert(false);
                },
            }
        }
    }
}

proof fn lemma_find_ci_same_names(
    a: Seq<(Seq<char>, Seq<char>)>,
    b: Seq<(Seq<char>, Seq<char>)>,
    name: Seq<char>,
)
    requires
        a.len() == b.len(),
        forall|k: int| 0 <= k < a.len() ==> a[k].0 == b[k].0,
    ensures
        find_ci(a, name) == find_ci(b, name),
    decreases a.len(),
{
    if a.len() > 0 {
        assert(a[0].0 == b[0].0);
        assert forall|k: int| 0 <= k < a.skip(1).len() implies a.skip(1)[k].0 == b.skip(
            1,
        )[k].0 by {
            assert(a.skip(1)[k] == a[k + 1]);
            assert(b.skip(1)[k] == b[k + 1]);
        }
        lemma_find_ci_same_names(a.skip(1), b.skip(1), name);
    }
}

/// `X-Forwarded-For` accumulates client addresses across chained proxies:
/// appending address `a2` after address `a1` extends the prior value with
/// both, comma-separated and in order, rather than overwriting it. A list
/// with no such header gains one holding both addresses.
pub proof fn lemma_xff_accumulates(hs: Seq<(Seq<char>, Seq<char>)>, a1: Seq<char>, a2: Seq<char>)
    ensures
        ({
            let twice = xff_spec(xff_spec(hs, a1), a2);
            let i = find_ci(hs, "x-forwarded-for"@);
            &&& (i != -1 ==> twice[i].1 == hs[i].1 + ", "@ + a1 + ", "@ + a2)
            &&& (i == -1 ==> twice[hs.len() as int].1 == a1 + ", "@ + a2)
        }),
{
    let xffl = "x-forwarded-for"@;
    let once = xff_spec(hs, a1);
    let i = find_ci(hs, xffl);
    lemma_find_ci(hs, xffl);
    if i == -1 {
        assert(once == hs.push((xffl, a1)));
        assert(once[hs.len() as int].0 == xffl);
        assert forall|k: int| 0 <= k < hs.len() implies !eq_ci(once[k].0, xffl) by {
            assert(once[k] == hs[k]);
        }
        lemma_find_ci_at(once, xffl, hs.len() as int);
        assert(xff_spec(once, a2)[hs.len() as int].1 == a1 + ", "@ + a2);
    } else {
        assert forall|k: int| 0 <= k < once.len() implies once[k].0 == hs[k].0 by {}
        lemma_find_ci_same_names(once, hs, xffl);
        assert(once[i].1 == hs[i].1 + ", "@ + a1);
        assert(xff_spec(once, a2)[i].1 == once[i].1 + ", "@ + a2);
    }
}

/// A copy of one header.
pub fn clone_header(h: &Header) -> (r: Header)
    ensures
        r@ == h@,
{
    Header { name: h.name.clone(), value: h.value.clone() }
}

/// A copy of a header list.
pub fn clone_headers(hs: &Vec<Header>) -> (r: Vec<Header>)
    ensures
        hs_view(r@) == hs_view(hs@),
{
    let mut out: Vec<Header> = Vec::new();
    let mut i: usize = 0;
    while i < hs.len()
        invariant
            0 <= i <= hs@.len(),
            out@.len() == i,
            forall|k: int| 0 <= k < i ==> out@[k]@ == hs@[k]@,
        decreases hs@.len() - i,
    {
        out.push(clone_header(&hs[i]));
        i += 1;
    }
    assert(hs_view(out@) =~= hs_view(hs@));
    out
}

/// Index of the first header named `name` (case-insensitive), if any.
pub fn find_header(headers: &Vec<Header>, name: &str) -> (r: Option<usize>)
    ensures
        match r {
            Some(i) => i < headers@.len() && find_ci(hs_view(headers@), name@) == i as int,
            None => find_ci(hs_view(headers@), name@) == -1,
        },
{
    let ghost hsv = hs_view(headers@);
    let mut i: usize = 0;
    while i < headers.len()
        invariant
            hsv == hs_view(headers@),
            hsv.len() == headers@.len(),
            0 <= i <= headers@.len(),
            forall|k: int| 0 <= k < i ==> !eq_ci(hsv[k].0, name@),
        decreases headers@.len() - i,
    {
        assert(hsv[i as int].0 == headers@[i as int].name@);
        if str_eq_ci(headers[i].name.as_str(), name) {
            proof {
                lemma_find_ci_at(hsv, name@, i as int);
            }
            return Some(i);
        }
        i += 1;
    }
    proof {
        lemma_find_ci(hsv, name@);
    }
    None
}

/// Whether `name` is in the fixed hop-by-hop set.
pub fn is_hop_name_exec(name: &str) -> (r: bool)
    ensures
        r == is_hop_name(name@),
{
    ||| str_eq_ci(name, "connection")
    ||| str_eq_ci(name, "keep-alive")
    ||| str_eq_ci(name, "proxy-authenticate")
    ||| str_eq_ci(name, "proxy-authorization")
    ||| str_eq_ci(name, "te")
    ||| str_eq_ci(name, "trailer")
    ||| str_eq_ci(name, "transfer-encoding")
    ||| str_eq_ci(name, "upgrade")
}

/// Removes every header named in the `Connection` value, then the fixed
/// hop-by-hop set.
pub fn strip_connection_and_hop_headers(headers: &mut Vec<Header>)
    ensures
        hs_view(final(headers)@) == strip_spec(hs_view(old(headers)@)),
{
    let ghost hsv = hs_view(headers@);
    let conn: Option<String> = match find_header(headers, "connection") {
        Some(i) => Some(headers[i].value.clone()),
        None => None,
    };
    proof {
        assert(match conn {
            Some(c) => conn_value(hsv) == Some(c@),
            None => conn_value(hsv) is None,
        });
    }
    let mut out: Vec<Header> = Vec::new();
    let mut i: usize = 0;
    while i < headers.len()
        invariant
            hsv == hs_view(headers@),
            hsv.len() == headers@.len(),
            0 <= i <= headers@.len(),
            match conn {
                Some(c) => conn_value(hsv) == Some(c@),
                None => conn_value(hsv) is None,
            },
            hs_view(out@) == strip_filtered(hsv, hsv.take(i as int)),
        decreases headers@.len() - i,
    {
        let name_matches_conn: bool = match &conn {
            Some(c) => has_token_ci_str(c.as_str(), headers[i].name.as_str()),
            None => false,
        };
        let strip = name_matches_conn || is_hop_name_exec(headers[i].name.as_str());
        assert(hsv[i as int] == headers@[i as int]@);
        assert(strip == stripped_name(hsv, hsv[i as int].0));
        proof {
            lemma_strip_filtered_push(hsv, hsv.take(i as int), hsv[i as int]);
            assert(hsv.take(i as int).push(hsv[i as int]) =~= hsv.take(i + 1));
        }
        if !strip {
            out.push(clone_header(&headers[i]));
            assert(hs_view(out@) =~= strip_filtered(hsv, hsv.take(i as int)).push(
                hsv[i as int],
            ));
        }
        i += 1;
    }
    proof {
        assert(hsv.take(hsv.len() as int) =~= hsv);
    }
    *headers = out;
}

/// The `Upgrade` header value of an upgrade request: present when the
/// `Connection` value lists `upgrade` and an `Upgrade` header exists.
pub fn find_upgrade_type(headers: &Vec<Header>) -> (r: Option<String>)
    ensures
        match (r, upgrade_value(hs_view(headers@))) {
            (Some(s), Some(v)) => s@ == v,
            (None, None) => true,
            _ => false,
        },
{
    let ghost hsv = hs_view(headers@);
    let is_upgrade: bool = match find_header(headers, "connection") {
        Some(i) => has_token_ci_str(headers[i].value.as_str(), "upgrade"),
        None => false,
    };
    assert(is_upgrade == upgrade_requested(hsv));
    if is_upgrade {
        match find_header(headers, "upgrade") {
            Some(i) => Some(headers[i].value.clone()),
            None => None,
        }
    } else {
        None
    }
}

/// Replaces every header of this name by one carrying the given value.
pub fn insert_header(headers: &mut Vec<Header>, name: &str, value: String)
    ensures
        hs_view(final(headers)@) == insert_spec(hs_view(old(headers)@), name@, value@),
{
    let ghost hsv = hs_view(headers@);
    let mut out: Vec<Header> = Vec::new();
    let mut i: usize = 0;
    while i < headers.len()
        invariant
            hsv == hs_view(headers@),
            hsv.len() == headers@.len(),
            0 <= i <= headers@.len(),
            hs_view(out@) == remove_ci(hsv.take(i as int), name@),
        decreases headers@.len() - i,
    {
        assert(hsv[i as int] == headers@[i as int]@);
        proof {
            lemma_remove_ci_push(hsv.take(i as int), hsv[i as int], name@);
            assert(hsv.take(i as int).push(hsv[i as int]) =~= hsv.take(i + 1));
        }
        if !str_eq_ci(headers[i].name.as_str(), name) {
            out.push(clone_header(&headers[i]));
            assert(hs_view(out@) =~= remove_ci(hsv.take(i as int), name@).push(hsv[i as int]));
        }
        i += 1;
    }
    proof {
        assert(hsv.take(hsv.len() as int) =~= hsv);
    }
    out.push(Header { name: name.to_owned(), value });
    assert(hs_view(out@) =~= insert_spec(hsv, name@, value@));
    *headers = out;
}

/// Appends the client address to `X-Forwarded-For` (comma-separated with any
/// prior value) and sets `X-Forwarded-Proto` when absent.
pub fn insert_forwarded_headers(headers: &mut Vec<Header>, addr: &str)
    ensures
        hs_view(final(headers)@) == xfp_spec(xff_spec(hs_view(old(headers)@), addr@)),
{
    let ghost hsv = hs_view(headers@);
    match find_header(headers, "x-forwarded-for") {
        Some(i) => {
            let mut nv = headers[i].value.clone();
            nv.append(", ");
            nv.append(addr);
            let nh = Header { name: headers[i].name.clone(), value: nv };
            assert(nh@ == (hsv[i as int].0, hsv[i as int].1 + ", "@ + addr@));
            headers.remove(i);
            headers.insert(i, nh);
            assert(hs_view(headers@) =~= xff_spec(hsv, addr@));
        },
        None => {
            headers.push(Header { name: "x-forwarded-for".to_owned(), value: addr.to_owned() });
            assert(hs_view(headers@) =~= xff_spec(hsv, addr@));
        },
    }
    let ghost hsv2 = hs_view(headers@);
    if find_header(headers, "x-forwarded-proto").is_none() {
        headers.push(Header { name: "x-forwarded-proto".to_owned(), value: "https".to_owned() });
        assert(hs_view(headers@) =~= xfp_spec(hsv2));
    }
}

/// The outbound header list for a request carrying these headers, arriving
/// from this client address.
pub fn forward_headers(headers: &Vec<Header>, addr: &str) -> (r: Vec<Header>)
    ensures
        hs_view(r@) == forward_headers_spec(hs_view(headers@), addr@),
{
    let upgrade = find_upgrade_type(headers);
    let mut out = clone_headers(headers);
    strip_connection_and_hop_headers(&mut out);
    if let Some(up) = upgrade {
        insert_header(&mut out, "connection", "upgrade".to_owned());
        insert_header(&mut out, "upgrade", up);
    }
    insert_forwarded_headers(&mut out, addr);
    out
}

} // verus!
