//! Which headers cross the proxy boundary.
//!
//! Both directions drop the hop-by-hop headers: the fixed set of RFC 7230
//! and every header that a `Connection` field names. Requests additionally
//! lose the headers that the gateway or its HTTP client sets itself, those
//! that describe the path the request took to reach the gateway, and the two
//! that carry the conversation id, which the gateway consumes. What is kept
//! stays in order, repeated names included.
//!
//! The policy decides on the fields that a header map yields.
//! [`forward_request_headers`] and [`forward_response_headers`] hand out
//! what is kept; [`forward_headers`] puts it into a new map.

use axum::http::HeaderMap;
use crate::headers::are_header_values;
use crate::headers::field_views;
use crate::headers::fields_of;
use crate::headers::header_map_fields;
use crate::headers::header_map_of;
use crate::headers::header_map_takes;
use crate::headers::header_name_spec;
use crate::headers::header_text_spec;
use crate::headers::HeaderField;
use crate::headers::is_header_value;
use crate::headers::names_of;
use crate::headers::new_map_takes;
use crate::headers::normalize_header_name;
use crate::headers::rebuilt_spec;
use crate::kv::string_views;
use crate::text::chars_of;
use crate::text::occurs_at;
use crate::text::starts_with_spec;
use crate::text::substring;
use crate::text::trim_bounds;
use crate::text::trim_spec;
use vstd::prelude::*;

verus! {

/// The field names that are hop-by-hop whatever `Connection` says.
pub open spec fn is_standard_hop_by_hop(name: Seq<char>) -> bool {
    name == "connection"@ || name == "keep-alive"@ || name == "proxy-authenticate"@ || name
        == "proxy-authorization"@ || name == "te"@ || name == "trailer"@ || name
        == "transfer-encoding"@ || name == "upgrade"@
}

/// Whether `name` is hop-by-hop, given the names listed by `Connection`.
pub open spec fn is_hop_by_hop_spec(name: Seq<char>, connection_hops: Seq<Seq<char>>) -> bool {
    connection_hops.contains(name) || is_standard_hop_by_hop(name)
}

/// The request headers that the gateway reads for itself: they carry the
/// conversation id, which is not sent upstream.
pub open spec fn is_consumed_header(name: Seq<char>) -> bool {
    name == "conversation_id"@ || name == "session_id"@
}

/// Whether a request header is withheld from the upstream: the hop-by-hop
/// headers, the headers that the gateway or its HTTP client sets itself,
/// those that describe the way the request came, and those that the gateway
/// consumes.
pub open spec fn should_drop_request_header_spec(
    name: Seq<char>,
    connection_hops: Seq<Seq<char>>,
) -> bool {
    is_hop_by_hop_spec(name, connection_hops) || name == "authorization"@ || name == "host"@
        || name == "content-length"@ || starts_with_spec(name, "cf-"@) || name == "cdn-loop"@
        || starts_with_spec(name, "x-forwarded-"@) || name == "x-real-ip"@
        || is_consumed_header(name)
}

/// Whether a response header is withheld from the client.
pub open spec fn should_drop_response_header_spec(
    name: Seq<char>,
    connection_hops: Seq<Seq<char>>,
) -> bool {
    is_hop_by_hop_spec(name, connection_hops)
}

/// The header name that the comma-separated item `text[start..end]` stands
/// for, as a list of none or one: the item is trimmed and normalized, and
/// dropped if it is blank or not a header name.
pub open spec fn hop_token(text: Seq<char>, start: int, end: int) -> Seq<Seq<char>> {
    match header_name_spec(trim_spec(text.subrange(start, end))) {
        Some(name) => seq![name],
        None => Seq::empty(),
    }
}

/// The names listed in `text` from the item that starts at `start`, where
/// `i` is how far that item has been read.
pub open spec fn hops_scan(text: Seq<char>, start: int, i: int) -> Seq<Seq<char>>
    decreases text.len() - i,
{
    if i < 0 || i >= text.len() {
        hop_token(text, start, text.len() as int)
    } else if text[i] == ',' {
        hop_token(text, start, i) + hops_scan(text, i + 1, i + 1)
    } else {
        hops_scan(text, start, i + 1)
    }
}

/// The header names that one `Connection` value lists.
pub open spec fn hops_of_text(text: Seq<char>) -> Seq<Seq<char>> {
    hops_scan(text, 0, 0)
}

/// The header names that one `Connection` value lists; none if the value is
/// not text.
pub open spec fn hops_of_value(value: Seq<u8>) -> Seq<Seq<char>> {
    match header_text_spec(value) {
        Some(text) => hops_of_text(text),
        None => Seq::empty(),
    }
}

/// The header names that the `Connection` fields of a message list, in order.
pub open spec fn connection_hops_spec(fields: Seq<(Seq<char>, Seq<u8>)>) -> Seq<Seq<char>>
    decreases fields.len(),
{
    if fields.len() == 0 {
        Seq::empty()
    } else {
        let rest = connection_hops_spec(fields.drop_last());
        if fields.last().0 == "connection"@ {
            rest + hops_of_value(fields.last().1)
        } else {
            rest
        }
    }
}

/// The two ways across the proxy.
#[derive(Debug, Clone, Copy, PartialEq, Eq, Structural)]
pub enum Direction {
    /// From the client to the upstream.
    Request,
    /// From the upstream to the client.
    Response,
}

/// Whether the policy of `direction` drops the header `name`.
pub open spec fn should_drop_header_spec(
    direction: Direction,
    name: Seq<char>,
    connection_hops: Seq<Seq<char>>,
) -> bool {
    match direction {
        Direction::Request => should_drop_request_header_spec(name, connection_hops),
        Direction::Response => should_drop_response_header_spec(name, connection_hops),
    }
}

/// The test that the policy of `direction` keeps a field by.
pub open spec fn keeper(direction: Direction, connection_hops: Seq<Seq<char>>) -> spec_fn(
    (Seq<char>, Seq<u8>),
) -> bool {
    |f: (Seq<char>, Seq<u8>)| !should_drop_header_spec(direction, f.0, connection_hops)
}

/// The headers that cross in `direction`: the fields that its policy does
/// not drop, in their order.
pub open spec fn forward_headers_spec(
    direction: Direction,
    fields: Seq<(Seq<char>, Seq<u8>)>,
) -> Seq<(Seq<char>, Seq<u8>)> {
    fields.filter(keeper(direction, connection_hops_spec(fields)))
}

/// The request headers that are forwarded: the fields that the request
/// policy does not drop, in their order.
pub open spec fn forward_request_headers_spec(fields: Seq<(Seq<char>, Seq<u8>)>) -> Seq<
    (Seq<char>, Seq<u8>),
> {
    forward_headers_spec(Direction::Request, fields)
}

/// The response headers that are forwarded: the fields that the response
/// policy does not drop, in their order.
pub open spec fn forward_response_headers_spec(fields: Seq<(Seq<char>, Seq<u8>)>) -> Seq<
    (Seq<char>, Seq<u8>),
> {
    forward_headers_spec(Direction::Response, fields)
}

/// Whether `name` is the literal `literal`.
fn is_literal(name: &[char], literal: &str) -> (r: bool)
    ensures
        r == (name@ == literal@),
{
    let chars = chars_of(literal);
    crate::text::chars_eq(name, chars.as_slice())
}

/// Whether `name` begins with the literal `literal`.
fn has_prefix(name: &[char], literal: &str) -> (r: bool)
    ensures
        r == starts_with_spec(name@, literal@),
{
    let chars = chars_of(literal);
    occurs_at(name, chars.as_slice(), 0)
}

/// Whether `name` is one of `names`.
fn is_listed(name: &[char], names: &[String]) -> (r: bool)
    ensures
        r == string_views(names@).contains(name@),
{
    let mut i: usize = 0;
    while i < names.len()
        invariant
            i <= names.len(),
            forall|j: int| 0 <= j < i ==> string_views(names@)[j] != name@,
        decreases names.len() - i,
    {
        if is_literal(name, names[i].as_str()) {
            assert(string_views(names@)[i as int] == name@);
            return true;
        }
        i += 1;
    }
    false
}

/// Whether `name` is hop-by-hop: listed by `Connection`, or in the fixed set.
pub fn is_hop_by_hop(name: &str, connection_hops: &[String]) -> (r: bool)
    ensures
        r == is_hop_by_hop_spec(name@, string_views(connection_hops@)),
{
    let chars = chars_of(name);
    let n = chars.as_slice();
    is_listed(n, connection_hops) || is_literal(n, "keep-alive") || is_literal(n, "connection")
        || is_literal(n, "proxy-authenticate") || is_literal(n, "proxy-authorization")
        || is_literal(n, "te") || is_literal(n, "trailer") || is_literal(n, "transfer-encoding")
        || is_literal(n, "upgrade")
}

/// Whether the request policy drops the header `name`.
pub fn should_drop_request_header(name: &str, connection_hops: &[String]) -> (r: bool)
    ensures
        r == should_drop_request_header_spec(name@, string_views(connection_hops@)),
{
    if is_hop_by_hop(name, connection_hops) {
        return true;
    }
    let chars = chars_of(name);
    let n = chars.as_slice();
    is_literal(n, "authorization") || is_literal(n, "host") || is_literal(n, "content-length")
        || has_prefix(n, "cf-") || is_literal(n, "cdn-loop") || has_prefix(n, "x-forwarded-")
        || is_literal(n, "x-real-ip") || is_literal(n, "conversation_id") || is_literal(
        n,
        "session_id",
    )
}

/// Whether the response policy drops the header `name`.
pub fn should_drop_response_header(name: &str, connection_hops: &[String]) -> (r: bool)
    ensures
        r == should_drop_response_header_spec(name@, string_views(connection_hops@)),
{
    is_hop_by_hop(name, connection_hops)
}

/// Adds to `out` the name that the item `text[start..end]` stands for, if any.
fn push_hop_token(text: &str, chars: &[char], start: usize, end: usize, out: &mut Vec<String>)
    requires
        chars@ == text@,
        start <= end <= chars@.len(),
    ensures
        string_views(final(out)@) == string_views(old(out)@) + hop_token(
            text@,
            start as int,
            end as int,
        ),
{
    let item = vstd::slice::slice_subrange(chars, start, end);
    let (a, b) = trim_bounds(item);
    assert(text@.subrange(start + a, start + b) =~= trim_spec(
        text@.subrange(start as int, end as int),
    ));
    if a < b {
        let token = substring(text, start + a, start + b);
        match normalize_header_name(token.as_str()) {
            Some(name) => {
                out.push(name);
                assert(string_views(out@) =~= string_views(old(out)@) + seq![name@]);
            },
            None => {
                assert(string_views(out@) =~= string_views(old(out)@) + Seq::empty());
            },
        }
    } else {
        assert(string_views(out@) =~= string_views(old(out)@) + Seq::empty());
    }
}

/// Adds to `out` the header names that the `Connection` value `text` lists.
fn push_hops_of_text(text: &str, out: &mut Vec<String>)
    ensures
        string_views(final(out)@) == string_views(old(out)@) + hops_of_text(text@),
{
    let chars = chars_of(text);
    let mut start: usize = 0;
    let mut i: usize = 0;
    while i < chars.len()
        invariant
            chars@ == text@,
            start <= i <= chars.len(),
            string_views(old(out)@) + hops_of_text(text@) == string_views(out@) + hops_scan(
                text@,
                start as int,
                i as int,
            ),
        decreases chars.len() - i,
    {
        if chars[i] == ',' {
            let ghost before = string_views(out@);
            push_hop_token(text, chars.as_slice(), start, i, out);
            assert(before + (hop_token(text@, start as int, i as int) + hops_scan(
                text@,
                i + 1,
                i + 1,
            )) =~= (before + hop_token(text@, start as int, i as int)) + hops_scan(
                text@,
                i + 1,
                i + 1,
            ));
            start = i + 1;
        }
        i += 1;
    }
    push_hop_token(text, chars.as_slice(), start, chars.len(), out);
}

/// The header names that the `Connection` fields of `headers` list.
///
/// A `Connection` value that is not text is skipped, and so is an item that
/// is blank or not a header name.
pub fn connection_hop_headers(headers: &[HeaderField]) -> (out: Vec<String>)
    ensures
        string_views(out@) == connection_hops_spec(field_views(headers@)),
{
    let mut out: Vec<String> = Vec::new();
    let connection = chars_of("connection");
    let mut i: usize = 0;
    assert(field_views(headers@).take(0) =~= Seq::empty());
    assert(string_views(out@) =~= Seq::empty());
    while i < headers.len()
        invariant
            i <= headers.len(),
            connection@ == "connection"@,
            string_views(out@) == connection_hops_spec(field_views(headers@).take(i as int)),
        decreases headers.len() - i,
    {
        let field = &headers[i];
        let ghost fields = field_views(headers@);
        assert(fields.take(i + 1).drop_last() =~= fields.take(i as int));
        assert(fields.take(i + 1).last() == field@);
        let name = chars_of(field.name());
        if crate::text::chars_eq(name.as_slice(), connection.as_slice()) {
            match field.text() {
                Some(text) => {
                    push_hops_of_text(text.as_str(), &mut out);
                },
                None => {
                    assert(string_views(out@) + Seq::<Seq<char>>::empty() =~= string_views(out@));
                },
            }
        }
        i += 1;
    }
    assert(field_views(headers@).take(i as int) =~= field_views(headers@));
    out
}

/// Whether the policy of `direction` drops the header `name`.
pub fn should_drop_header(direction: Direction, name: &str, connection_hops: &[String]) -> (r:
    bool)
    ensures
        r == should_drop_header_spec(direction, name@, string_views(connection_hops@)),
{
    match direction {
        Direction::Request => should_drop_request_header(name, connection_hops),
        Direction::Response => should_drop_response_header(name, connection_hops),
    }
}

/// The fields that cross in `direction`: every field of `headers` that
/// the policy keeps, in order and with repeated names preserved.
pub fn forward_fields(direction: Direction, headers: &[HeaderField]) -> (out: Vec<HeaderField>)
    ensures
        field_views(out@) == forward_headers_spec(direction, field_views(headers@)),
{
    let hops = connection_hop_headers(headers);
    let ghost fields = field_views(headers@);
    let ghost keep = keeper(direction, connection_hops_spec(fields));
    let mut out: Vec<HeaderField> = Vec::new();
    let mut i: usize = 0;
    proof {
        reveal(Seq::filter);
        assert(fields.take(0) =~= Seq::empty());
        assert(field_views(out@) =~= fields.take(0).filter(keep));
    }
    while i < headers.len()
        invariant
            i <= headers.len(),
            fields == field_views(headers@),
            keep == keeper(direction, connection_hops_spec(fields)),
            string_views(hops@) == connection_hops_spec(fields),
            field_views(out@) == fields.take(i as int).filter(keep),
        decreases headers.len() - i,
    {
        let field = &headers[i];
        proof {
            reveal(Seq::filter);
            assert(fields.take(i + 1).drop_last() =~= fields.take(i as int));
            assert(fields.take(i + 1).last() == field@);
        }
        if !should_drop_header(direction, field.name(), hops.as_slice()) {
            let ghost before = field_views(out@);
            out.push(field.clone());
            assert(field_views(out@) =~= before.push(field@));
        }
        i += 1;
    }
    assert(fields.take(i as int) =~= fields);
    out
}

/// The fields that the policy keeps were received, so they hold header
/// values if the received fields do.
pub proof fn lemma_forwarded_values(direction: Direction, fields: Seq<(Seq<char>, Seq<u8>)>)
    requires
        are_header_values(fields),
    ensures
        are_header_values(forward_headers_spec(direction, fields)),
{
    let keep = keeper(direction, connection_hops_spec(fields));
    let kept = fields.filter(keep);
    assert forall|i: int| 0 <= i < kept.len() implies is_header_value((#[trigger] kept[i]).1) by {
        assert(kept.contains(kept[i]));
        fields.lemma_filter_contains_rev(keep, kept[i]);
    }
}

/// The header map that crosses in `direction`: a new map with the fields
/// of `map` that the policy keeps, appended in the order in which `map`
/// yields them.
///
/// The map is built if and only if a new map takes the names of the kept
/// fields. It then takes further names if and only if a new map takes them
/// after those.
pub fn forward_headers(direction: Direction, map: &HeaderMap) -> (r: Option<HeaderMap>)
    ensures
        r is Some <==> new_map_takes(
            names_of(forward_headers_spec(direction, header_map_fields(*map))),
        ),
        r matches Some(out) ==> header_map_fields(out) == rebuilt_spec(
            forward_headers_spec(direction, header_map_fields(*map)),
        ),
        forall|rest: Seq<Seq<char>>| #[trigger]
            new_map_takes(
                names_of(forward_headers_spec(direction, header_map_fields(*map))) + rest,
            ) == (match r {
                Some(out) => header_map_takes(out, rest),
                None => false,
            }),
{
    let fields = fields_of(map);
    let kept = forward_fields(direction, fields.as_slice());
    proof {
        lemma_forwarded_values(direction, header_map_fields(*map));
    }
    header_map_of(kept.as_slice())
}

/// The request headers to send upstream: every field of `headers` that the
/// request policy keeps, in order and with repeated names preserved.
pub fn forward_request_headers(headers: &HeaderMap) -> (out: Vec<HeaderField>)
    ensures
        field_views(out@) == forward_request_headers_spec(header_map_fields(*headers)),
{
    let fields = fields_of(headers);
    forward_fields(Direction::Request, fields.as_slice())
}

/// The response headers to hand to the client: every field of `headers`
/// that is not hop-by-hop, in order and with repeated names preserved.
pub fn forward_response_headers(headers: &HeaderMap) -> (out: Vec<HeaderField>)
    ensures
        field_views(out@) == forward_response_headers_spec(header_map_fields(*headers)),
{
    let fields = fields_of(headers);
    forward_fields(Direction::Response, fields.as_slice())
}

/// No forwarded request header has a name that the request policy drops,
/// the conversation headers among them, and every forwarded header was
/// received.
pub proof fn lemma_forwarded_request_headers_are_kept(
    fields: Seq<(Seq<char>, Seq<u8>)>,
    i: int,
)
    requires
        0 <= i < forward_request_headers_spec(fields).len(),
    ensures
        !should_drop_request_header_spec(
            forward_request_headers_spec(fields)[i].0,
            connection_hops_spec(fields),
        ),
        forward_request_headers_spec(fields)[i].0 != "conversation_id"@,
        forward_request_headers_spec(fields)[i].0 != "session_id"@,
        fields.contains(forward_request_headers_spec(fields)[i]),
{
    let keep = keeper(Direction::Request, connection_hops_spec(fields));
    let out = fields.filter(keep);
    fields.lemma_filter_pred(keep, i);
    assert(out.contains(out[i]));
    fields.lemma_filter_contains_rev(keep, out[i]);
}

/// No forwarded response header is hop-by-hop, and every forwarded header
/// was received.
pub proof fn lemma_forwarded_response_headers_are_kept(
    fields: Seq<(Seq<char>, Seq<u8>)>,
    i: int,
)
    requires
        0 <= i < forward_response_headers_spec(fields).len(),
    ensures
        !is_hop_by_hop_spec(
            forward_response_headers_spec(fields)[i].0,
            connection_hops_spec(fields),
        ),
        fields.contains(forward_response_headers_spec(fields)[i]),
{
    let keep = keeper(Direction::Response, connection_hops_spec(fields));
    let out = fields.filter(keep);
    fields.lemma_filter_pred(keep, i);
    assert(out.contains(out[i]));
    fields.lemma_filter_contains_rev(keep, out[i]);
}

/// Every received header that the request policy does not drop is forwarded.
pub proof fn lemma_kept_request_headers_are_forwarded(fields: Seq<(Seq<char>, Seq<u8>)>, i: int)
    requires
        0 <= i < fields.len(),
        !should_drop_request_header_spec(fields[i].0, connection_hops_spec(fields)),
    ensures
        forward_request_headers_spec(fields).contains(fields[i]),
{
    fields.lemma_filter_contains(keeper(Direction::Request, connection_hops_spec(fields)), i);
}

/// No field of a header map that crossed has a name that the policy of
/// its direction drops, and every such field was received.
pub proof fn lemma_forwarded_map_is_clean(
    direction: Direction,
    fields: Seq<(Seq<char>, Seq<u8>)>,
    i: int,
)
    requires
        0 <= i < rebuilt_spec(forward_headers_spec(direction, fields)).len(),
    ensures
        !should_drop_header_spec(
            direction,
            rebuilt_spec(forward_headers_spec(direction, fields))[i].0,
            connection_hops_spec(fields),
        ),
        fields.contains(rebuilt_spec(forward_headers_spec(direction, fields))[i]),
{
    let keep = keeper(direction, connection_hops_spec(fields));
    let kept = fields.filter(keep);
    let built = rebuilt_spec(kept);
    let x = built[i];
    assert(built.contains(x));
    crate::headers::lemma_rebuilt_fields(kept, x);
    let j = choose|j: int| 0 <= j < kept.len() && kept[j] == x;
    fields.lemma_filter_pred(keep, j);
    fields.lemma_filter_contains_rev(keep, x);
}

} // verus!
