//! HTTP headers: the header map of the `http` crate (through `axum`), and
//! its fields as plain values.
//!
//! A message's headers are an `http::HeaderMap`. The library reads a map
//! through the fields that it yields, each a normalized name and the raw
//! bytes of its value, and writes a map by the map's own `append` and
//! `insert`, which fail where the map has no room. Names are validated and
//! lower-cased by `http`, so that a field of this module always carries a
//! name that `http` would accept unchanged.

use axum::http::HeaderMap;
use crate::kv::option_view;
use crate::text::ascii_lowercase;
use crate::text::trim_spec;
use vstd::prelude::*;
use vstd::string::StringExecFns;

verus! {

/// The characters of an HTTP token (`tchar`).
pub open spec fn is_token_char(c: char) -> bool {
    ('0' <= c && c <= '9') || ('a' <= c && c <= 'z') || ('A' <= c && c <= 'Z') || c == '!' || c
        == '#' || c == '$' || c == '%' || c == '&' || c == '\'' || c == '*' || c == '+' || c == '-'
        || c == '.' || c == '^' || c == '_' || c == '`' || c == '|' || c == '~'
}

/// Longest header name.
pub open spec fn max_header_name_len() -> int {
    65535
}

/// What a raw header name normalizes to: a non-empty token of at most
/// 65535 characters becomes its lower-case form; anything else is not a
/// header name.
pub open spec fn header_name_spec(raw: Seq<char>) -> Option<Seq<char>> {
    if 0 < raw.len() <= max_header_name_len() && (forall|i: int|
        0 <= i < raw.len() ==> is_token_char(#[trigger] raw[i])) {
        Some(ascii_lowercase(raw))
    } else {
        None
    }
}

/// Whether `name` is a header name in normal form.
pub open spec fn is_header_name(name: Seq<char>) -> bool {
    header_name_spec(name) == Some(name)
}

/// The bytes that may appear in a header value: everything from 32 on but
/// DEL, and the tab.
pub open spec fn is_header_value_byte(b: u8) -> bool {
    (b >= 32 && b != 127) || b == 9
}

/// The bytes that a header value may hold if it is to be read as text:
/// visible ASCII, the space and the tab.
pub open spec fn is_visible_ascii(b: u8) -> bool {
    (32 <= b && b < 127) || b == 9
}

/// Whether `bytes` can be sent as a header value.
pub open spec fn is_header_value(bytes: Seq<u8>) -> bool {
    forall|i: int| 0 <= i < bytes.len() ==> is_header_value_byte(#[trigger] bytes[i])
}

/// The text of a header value: its bytes as characters if all of them are
/// visible ASCII, nothing otherwise.
pub open spec fn header_text_spec(value: Seq<u8>) -> Option<Seq<char>> {
    if forall|i: int| 0 <= i < value.len() ==> is_visible_ascii(#[trigger] value[i]) {
        Some(Seq::new(value.len(), |i: int| value[i] as char))
    } else {
        None
    }
}

/// A normalized name stays a header name, and normalizing it again changes
/// nothing.
pub proof fn lemma_normalized_is_header_name(raw: Seq<char>)
    requires
        header_name_spec(raw) is Some,
    ensures
        is_header_name(header_name_spec(raw)->Some_0),
{
    let name = ascii_lowercase(raw);
    assert forall|i: int| 0 <= i < name.len() implies is_token_char(#[trigger] name[i]) by {
        assert(is_token_char(raw[i]));
    }
    assert(ascii_lowercase(name) =~= name);
}

/// `http::HeaderName::from_bytes`, then `HeaderName::as_str`: the
/// normalized name of `raw`. The parser accepts 1 to 65535 bytes that are all
/// token characters and maps upper-case letters to lower case; it rejects
/// every other input.
#[verifier::external_body]
pub(crate) fn normalize_header_name(raw: &str) -> (r: Option<String>)
    ensures
        match r {
            Some(name) => header_name_spec(raw@) == Some(name@),
            None => header_name_spec(raw@) is None,
        },
{
    match axum::http::HeaderName::from_bytes(raw.as_bytes()) {
        Ok(name) => Some(name.as_str().to_string()),
        Err(_) => None,
    }
}

/// `http::HeaderValue::from_bytes`, then `HeaderValue::to_str`: the
/// value as text. `to_str` succeeds exactly when every byte is visible ASCII,
/// a space or a tab, all of which `from_bytes` accepts; the text then holds
/// those bytes as characters.
#[verifier::external_body]
pub(crate) fn header_value_text(value: &[u8]) -> (r: Option<String>)
    ensures
        match r {
            Some(text) => header_text_spec(value@) == Some(text@),
            None => header_text_spec(value@) is None,
        },
{
    match axum::http::HeaderValue::from_bytes(value) {
        Ok(v) => match v.to_str() {
            Ok(text) => Some(text.to_string()),
            Err(_) => None,
        },
        Err(_) => None,
    }
}

/// `http::HeaderValue::from_str`: whether `text` is accepted as a header
/// value, which is the case when each of its UTF-8 bytes is 32 or more and
/// not 127, or is a tab.
#[verifier::external_body]
pub(crate) fn accepts_header_value(text: &str) -> (r: bool)
    ensures
        r == is_header_value(crate::codec::utf8(text@)),
{
    axum::http::HeaderValue::from_str(text).is_ok()
}

/// One header field.
#[derive(Debug, PartialEq, Eq)]
pub struct HeaderField {
    pub(crate) name: String,
    pub(crate) value: Vec<u8>,
}

impl View for HeaderField {
    type V = (Seq<char>, Seq<u8>);

    closed spec fn view(&self) -> (Seq<char>, Seq<u8>) {
        (self.name@, self.value@)
    }
}

impl HeaderField {
    /// Every field carries a name in normal form.
    #[verifier::type_invariant]
    pub closed spec fn well_formed(self) -> bool {
        is_header_name(self.name@)
    }

    /// Makes a field from a raw name and a value. The name is normalized;
    /// `None` if it is not a header name.
    pub fn new(name: &str, value: &[u8]) -> (r: Option<HeaderField>)
        ensures
            match r {
                Some(field) => header_name_spec(name@) == Some(field@.0) && field@.1 == value@
                    && field.well_formed(),
                None => header_name_spec(name@) is None,
            },
    {
        match normalize_header_name(name) {
            Some(normal) => {
                proof {
                    lemma_normalized_is_header_name(name@);
                }
                Some(HeaderField { name: normal, value: vstd::slice::slice_to_vec(value) })
            },
            None => None,
        }
    }

    /// The normalized name.
    pub fn name(&self) -> (r: &str)
        ensures
            r@ == self@.0,
            is_header_name(r@),
    {
        proof {
            use_type_invariant(self);
        }
        self.name.as_str()
    }

    /// The raw value.
    pub fn value(&self) -> (r: &[u8])
        ensures
            r@ == self@.1,
    {
        self.value.as_slice()
    }

    /// The value as text, if it is visible ASCII.
    pub fn text(&self) -> (r: Option<String>)
        ensures
            option_view(r) == header_text_spec(self@.1),
    {
        header_value_text(self.value.as_slice())
    }

}

impl Clone for HeaderField {
    fn clone(&self) -> (r: HeaderField)
        ensures
            r@ == self@,
    {
        proof {
            use_type_invariant(self);
        }
        HeaderField { name: self.name.clone(), value: self.value.clone() }
    }
}

/// The views of the fields of a header list.
pub open spec fn field_views(fields: Seq<HeaderField>) -> Seq<(Seq<char>, Seq<u8>)> {
    Seq::new(fields.len(), |i: int| fields[i]@)
}

/// Index of the first field named `name` at or after `from`
/// (`fields.len()` when there is none).
pub open spec fn first_named_from(
    fields: Seq<(Seq<char>, Seq<u8>)>,
    name: Seq<char>,
    from: int,
) -> int
    decreases fields.len() - from,
{
    if 0 <= from < fields.len() && fields[from].0 != name {
        first_named_from(fields, name, from + 1)
    } else {
        from
    }
}

/// The value of the first field named `name`, if there is one.
pub open spec fn first_value_spec(fields: Seq<(Seq<char>, Seq<u8>)>, name: Seq<char>) -> Option<
    Seq<u8>,
> {
    let i = first_named_from(fields, name, 0);
    if 0 <= i < fields.len() {
        Some(fields[i].1)
    } else {
        None
    }
}

/// The first field named `name`.
pub fn first_field<'a>(headers: &'a [HeaderField], name: &str) -> (r: Option<&'a HeaderField>)
    ensures
        match r {
            Some(field) => field@.0 == name@ && first_value_spec(field_views(headers@), name@)
                == Some(field@.1),
            None => first_value_spec(field_views(headers@), name@) is None,
        },
{
    let wanted = String::from_str(name);
    let mut i: usize = 0;
    while i < headers.len()
        invariant
            i <= headers.len(),
            wanted@ == name@,
            first_named_from(field_views(headers@), name@, 0) == first_named_from(
                field_views(headers@),
                name@,
                i as int,
            ),
        decreases headers.len() - i,
    {
        let field = &headers[i];
        let same = crate::text::str_eq(field.name(), name);
        assert(field_views(headers@)[i as int] == field@);
        if same {
            return Some(field);
        }
        i += 1;
    }
    None
}

/// The text of the first field named `name`, without surrounding
/// whitespace, if the field exists, is visible ASCII, and is not blank.
pub open spec fn read_header_spec(fields: Seq<(Seq<char>, Seq<u8>)>, name: Seq<char>) -> Option<
    Seq<char>,
> {
    match first_value_spec(fields, name) {
        Some(value) => match header_text_spec(value) {
            Some(text) => if trim_spec(text).len() > 0 {
                Some(trim_spec(text))
            } else {
                None
            },
            None => None,
        },
        None => None,
    }
}

/// Reads one header as trimmed, non-empty text.
pub fn read_header(headers: &[HeaderField], name: &str) -> (r: Option<String>)
    ensures
        option_view(r) == read_header_spec(field_views(headers@), name@),
{
    match first_field(headers, name) {
        Some(field) => match field.text() {
            Some(text) => {
                let chars = crate::text::chars_of(text.as_str());
                let (a, b) = crate::text::trim_bounds(chars.as_slice());
                if a < b {
                    Some(crate::text::substring(text.as_str(), a, b))
                } else {
                    None
                }
            },
            None => None,
        },
        None => None,
    }
}

/// `http::HeaderMap`, as an opaque value. What it holds is named by
/// [`header_map_fields`].
#[verifier::external_type_specification]
#[verifier::external_body]
#[verifier::reject_recursive_types(T)]
pub struct ExHeaderMap<T>(axum::http::HeaderMap<T>);

/// `http::HeaderValue`, as an opaque value.
#[verifier::external_type_specification]
#[verifier::external_body]
pub struct ExHeaderValue(axum::http::HeaderValue);

/// The fields that a header map holds, in the order in which it yields
/// them: names in normal form, values as their bytes.
pub uninterp spec fn header_map_fields(map: HeaderMap) -> Seq<(Seq<char>, Seq<u8>)>;

/// Whether `map` takes fields of the names `names`, given to it one after
/// another by `append` or `insert`: whether each of them finds room.
///
/// A header map refuses a field only for want of room, when its table
/// would have to grow beyond its largest size. That is decided by the table
/// and the names that the map is given, not by the values, and in the same
/// way for `append` and `insert`.
pub uninterp spec fn header_map_takes(map: HeaderMap, names: Seq<Seq<char>>) -> bool;

/// Whether a new header map takes fields of the names `names`, given to it
/// one after another.
pub uninterp spec fn new_map_takes(names: Seq<Seq<char>>) -> bool;

/// The names of `fields`, in order.
pub open spec fn names_of(fields: Seq<(Seq<char>, Seq<u8>)>) -> Seq<Seq<char>> {
    Seq::new(fields.len(), |i: int| fields[i].0)
}

/// Whether every field of `fields` holds a header value.
pub open spec fn are_header_values(fields: Seq<(Seq<char>, Seq<u8>)>) -> bool {
    forall|i: int| 0 <= i < fields.len() ==> is_header_value((#[trigger] fields[i]).1)
}

/// The test that keeps the fields not named `name`.
pub open spec fn not_named(name: Seq<char>) -> spec_fn((Seq<char>, Seq<u8>)) -> bool {
    |f: (Seq<char>, Seq<u8>)| f.0 != name
}

/// Index of the last field named `name` before `j`; `-1` when there is
/// none.
pub open spec fn last_named_before(
    fields: Seq<(Seq<char>, Seq<u8>)>,
    name: Seq<char>,
    j: int,
) -> int
    decreases j,
{
    if j <= 0 || j > fields.len() {
        -1
    } else if fields[j - 1].0 == name {
        j - 1
    } else {
        last_named_before(fields, name, j - 1)
    }
}

/// The fields of a map after `field` was appended to it: the field stands
/// after the last field of its name, or at the end if it is the first of
/// its name.
pub open spec fn appended_spec(
    fields: Seq<(Seq<char>, Seq<u8>)>,
    field: (Seq<char>, Seq<u8>),
) -> Seq<(Seq<char>, Seq<u8>)> {
    let last = last_named_before(fields, field.0, fields.len() as int);
    if last < 0 {
        fields.push(field)
    } else {
        fields.insert(last + 1, field)
    }
}

/// The fields of a map after `field` was inserted into it: the field
/// stands in the place of the first field of its name and the other fields
/// of that name are gone, or it stands at the end if it is the first of its
/// name.
pub open spec fn inserted_spec(
    fields: Seq<(Seq<char>, Seq<u8>)>,
    field: (Seq<char>, Seq<u8>),
) -> Seq<(Seq<char>, Seq<u8>)> {
    let first = first_named_from(fields, field.0, 0);
    if 0 <= first < fields.len() {
        fields.take(first).push(field) + fields.skip(first + 1).filter(not_named(field.0))
    } else {
        fields.push(field)
    }
}

/// The fields of the map that is built by appending `fields` one by one to
/// an empty map.
pub open spec fn rebuilt_spec(fields: Seq<(Seq<char>, Seq<u8>)>) -> Seq<(Seq<char>, Seq<u8>)>
    decreases fields.len(),
{
    if fields.len() == 0 {
        Seq::empty()
    } else {
        appended_spec(rebuilt_spec(fields.drop_last()), fields.last())
    }
}

/// `http::HeaderMap::new`: a map without fields. Every new map takes the
/// same names, and any map takes no fields at all.
#[verifier::external_body]
pub(crate) fn header_map_new() -> (r: HeaderMap)
    ensures
        header_map_fields(r) == Seq::<(Seq<char>, Seq<u8>)>::empty(),
        header_map_takes(r, Seq::empty()),
        forall|names: Seq<Seq<char>>| #[trigger] header_map_takes(r, names) == new_map_takes(names),
{
    HeaderMap::new()
}

/// `http::HeaderMap::iter`: the fields of the map in the order in which the
/// map yields them, each as a plain value. What a map holds are header
/// values.
#[verifier::external_body]
pub(crate) fn header_map_to_fields(map: &HeaderMap) -> (r: Vec<HeaderField>)
    ensures
        field_views(r@) == header_map_fields(*map),
        are_header_values(field_views(r@)),
{
    map.iter().map(|(name, value)| HeaderField {
        name: name.as_str().to_string(),
        value: value.as_bytes().to_vec(),
    }).collect()
}

/// `http::HeaderMap::try_append`, with `HeaderName::from_bytes` and
/// `HeaderValue::from_bytes` for its arguments.
///
/// The field is taken if its value is a header value and the map has room
/// for its name. It is then yielded after the last field of its name, or
/// last if the map had none of its name; otherwise the map holds what it
/// held. For a header value, the map takes the name and further names if
/// and only if it took the field and then takes those names.
#[verifier::external_body]
pub(crate) fn header_map_append(map: &mut HeaderMap, field: &HeaderField) -> (r: bool)
    ensures
        r == (is_header_value(field@.1) && header_map_takes(*old(map), seq![field@.0])),
        r ==> header_map_fields(*final(map)) == appended_spec(header_map_fields(*old(map)), field@),
        !r ==> header_map_fields(*final(map)) == header_map_fields(*old(map)),
        is_header_value(field@.1) ==> forall|rest: Seq<Seq<char>>|
            #[trigger] header_map_takes(*old(map), seq![field@.0] + rest) == (r
                && header_map_takes(*final(map), rest)),
{
    let name = axum::http::HeaderName::from_bytes(field.name.as_bytes());
    let value = axum::http::HeaderValue::from_bytes(field.value.as_slice());
    match (name, value) {
        (Ok(name), Ok(value)) => map.try_append(name, value).is_ok(),
        _ => false,
    }
}

/// `http::HeaderMap::try_insert`, with `HeaderName::from_bytes` and
/// `HeaderValue::from_bytes` for its arguments.
///
/// The field is taken if its value is a header value and the map has room
/// for its name. It is then yielded in the place of the first field of its
/// name and the map holds no other field of that name; it is yielded last
/// if the map had none of its name. Otherwise the map holds what it held.
/// For a header value, the map takes the name and further names if and only
/// if it took the field and then takes those names.
#[verifier::external_body]
pub(crate) fn header_map_insert(map: &mut HeaderMap, field: &HeaderField) -> (r: bool)
    ensures
        r == (is_header_value(field@.1) && header_map_takes(*old(map), seq![field@.0])),
        r ==> header_map_fields(*final(map)) == inserted_spec(header_map_fields(*old(map)), field@),
        !r ==> header_map_fields(*final(map)) == header_map_fields(*old(map)),
        is_header_value(field@.1) ==> forall|rest: Seq<Seq<char>>|
            #[trigger] header_map_takes(*old(map), seq![field@.0] + rest) == (r
                && header_map_takes(*final(map), rest)),
{
    let name = axum::http::HeaderName::from_bytes(field.name.as_bytes());
    let value = axum::http::HeaderValue::from_bytes(field.value.as_slice());
    match (name, value) {
        (Ok(name), Ok(value)) => map.try_insert(name, value).is_ok(),
        _ => false,
    }
}

/// The fields of a header map as plain values, in the map's order. Each
/// holds a header value.
pub fn fields_of(map: &HeaderMap) -> (r: Vec<HeaderField>)
    ensures
        field_views(r@) == header_map_fields(*map),
        are_header_values(field_views(r@)),
{
    header_map_to_fields(map)
}

/// Builds a header map by appending `fields` one by one.
///
/// The map is built if and only if every value is a header value and a new
/// map takes the names of the fields. The map then takes further names if
/// and only if a new map takes them after those of the fields.
pub fn header_map_of(fields: &[HeaderField]) -> (r: Option<HeaderMap>)
    ensures
        r is Some <==> are_header_values(field_views(fields@)) && new_map_takes(
            names_of(field_views(fields@)),
        ),
        r matches Some(map) ==> header_map_fields(map) == rebuilt_spec(field_views(fields@)),
        are_header_values(field_views(fields@)) ==> forall|rest: Seq<Seq<char>>|
            #[trigger] new_map_takes(names_of(field_views(fields@)) + rest) == (match r {
                Some(map) => header_map_takes(map, rest),
                None => false,
            }),
{
    let ghost views = field_views(fields@);
    let ghost names = names_of(views);
    let mut map = header_map_new();
    let mut i: usize = 0;
    proof {
        assert(views.take(0) =~= Seq::empty());
        assert forall|rest: Seq<Seq<char>>| #[trigger]
            header_map_takes(map, rest) == new_map_takes(names.take(0) + rest) by {
            assert(names.take(0) + rest =~= rest);
        }
    }
    while i < fields.len()
        invariant
            i <= fields.len(),
            views == field_views(fields@),
            names == names_of(views),
            header_map_fields(map) == rebuilt_spec(views.take(i as int)),
            forall|j: int| 0 <= j < i ==> is_header_value((#[trigger] views[j]).1),
            header_map_takes(map, Seq::empty()),
            forall|rest: Seq<Seq<char>>| #[trigger]
                header_map_takes(map, rest) == new_map_takes(names.take(i as int) + rest),
        decreases fields.len() - i,
    {
        let ghost before = map;
        let ghost name = views[i as int].0;
        let ghost suffix = names.skip(i + 1);
        proof {
            assert(views.take(i + 1).drop_last() =~= views.take(i as int));
            assert(views.take(i + 1).last() == fields@[i as int]@);
            assert(names[i as int] == name);
            assert forall|rest: Seq<Seq<char>>|
                names.take(i as int) + (seq![name] + rest) == #[trigger] (names.take(i + 1)
                    + rest) by {
                assert(names.take(i as int) + (seq![name] + rest) =~= names.take(i + 1) + rest);
            }
            assert forall|rest: Seq<Seq<char>>|
                names.take(i as int) + (seq![name] + (suffix + rest)) == #[trigger] (names
                    + rest) by {
                assert(names.take(i as int) + (seq![name] + (suffix + rest)) =~= names + rest);
            }
        }
        if !header_map_append(&mut map, &fields[i]) {
            proof {
                if is_header_value(views[i as int].1) {
                    assert forall|rest: Seq<Seq<char>>| !#[trigger] new_map_takes(
                        names + rest,
                    ) by {
                        assert(!header_map_takes(before, seq![name] + (suffix + rest)));
                        assert(names.take(i as int) + (seq![name] + (suffix + rest)) == names
                            + rest);
                    }
                    assert(names + Seq::<Seq<char>>::empty() =~= names);
                }
            }
            return None;
        }
        proof {
            assert(header_map_takes(before, seq![name] + Seq::<Seq<char>>::empty()) == (
            header_map_takes(map, Seq::empty())));
            assert(seq![name] + Seq::<Seq<char>>::empty() =~= seq![name]);
            assert forall|rest: Seq<Seq<char>>| #[trigger]
                header_map_takes(map, rest) == new_map_takes(names.take(i + 1) + rest) by {
                assert(header_map_takes(before, seq![name] + rest) == header_map_takes(
                    map,
                    rest,
                ));
                assert(names.take(i as int) + (seq![name] + rest) == names.take(i + 1) + rest);
            }
        }
        i += 1;
    }
    proof {
        assert(views.take(i as int) =~= views);
        assert(names.take(i as int) =~= names);
        assert(names + Seq::<Seq<char>>::empty() =~= names);
    }
    Some(map)
}

/// What `last_named_before` finds.
pub proof fn lemma_last_named_before(fields: Seq<(Seq<char>, Seq<u8>)>, name: Seq<char>, j: int)
    requires
        0 <= j <= fields.len(),
    ensures
        -1 <= last_named_before(fields, name, j) < j,
        last_named_before(fields, name, j) >= 0 ==> fields[last_named_before(fields, name, j)].0
            == name,
        forall|k: int|
            last_named_before(fields, name, j) < k < j ==> (#[trigger] fields[k]).0 != name,
    decreases j,
{
    if j > 0 && fields[j - 1].0 != name {
        lemma_last_named_before(fields, name, j - 1);
    }
}

/// Appending adds the field and keeps the others: a field is in the
/// result if and only if it was there or is the one appended.
pub proof fn lemma_appended_fields(
    fields: Seq<(Seq<char>, Seq<u8>)>,
    field: (Seq<char>, Seq<u8>),
    x: (Seq<char>, Seq<u8>),
)
    ensures
        appended_spec(fields, field).contains(x) <==> fields.contains(x) || x == field,
{
    let last = last_named_before(fields, field.0, fields.len() as int);
    lemma_last_named_before(fields, field.0, fields.len() as int);
    let out = appended_spec(fields, field);
    if last < 0 {
        if out.contains(x) {
            let i = choose|i: int| 0 <= i < out.len() && out[i] == x;
            if i < fields.len() {
                assert(fields[i] == x);
            }
        }
        if fields.contains(x) {
            let i = choose|i: int| 0 <= i < fields.len() && fields[i] == x;
            assert(out[i] == x);
        }
        assert(out[fields.len() as int] == field);
    } else {
        let at = last + 1;
        if out.contains(x) {
            let i = choose|i: int| 0 <= i < out.len() && out[i] == x;
            if i < at {
                assert(fields[i] == x);
            } else if i > at {
                assert(fields[i - 1] == x);
            }
        }
        if fields.contains(x) {
            let i = choose|i: int| 0 <= i < fields.len() && fields[i] == x;
            if i < at {
                assert(out[i] == x);
            } else {
                assert(out[i + 1] == x);
            }
        }
        assert(out[at] == field);
    }
}

/// A map that is built from a list holds the fields of the list and no
/// others.
pub proof fn lemma_rebuilt_fields(fields: Seq<(Seq<char>, Seq<u8>)>, x: (Seq<char>, Seq<u8>))
    ensures
        rebuilt_spec(fields).contains(x) <==> fields.contains(x),
    decreases fields.len(),
{
    if fields.len() > 0 {
        let rest = fields.drop_last();
        lemma_rebuilt_fields(rest, x);
        lemma_appended_fields(rebuilt_spec(rest), fields.last(), x);
        if fields.contains(x) {
            let i = choose|i: int| 0 <= i < fields.len() && fields[i] == x;
            if i < rest.len() {
                assert(rest[i] == x);
            }
        }
        if rest.contains(x) {
            let i = choose|i: int| 0 <= i < rest.len() && rest[i] == x;
            assert(fields[i] == x);
        }
        assert(fields[fields.len() - 1] == fields.last());
    }
}

/// After a field was inserted, it is the first and only field of its name.
pub proof fn lemma_inserted_is_first(
    fields: Seq<(Seq<char>, Seq<u8>)>,
    field: (Seq<char>, Seq<u8>),
)
    ensures
        first_value_spec(inserted_spec(fields, field), field.0) == Some(field.1),
        forall|i: int|
            0 <= i < inserted_spec(fields, field).len() && (#[trigger] inserted_spec(
                fields,
                field,
            )[i]).0 == field.0 ==> inserted_spec(fields, field)[i] == field,
{
    let out = inserted_spec(fields, field);
    let first = first_named_from(fields, field.0, 0);
    lemma_first_named(fields, field.0, 0);
    let place = if first < fields.len() {
        first
    } else {
        fields.len() as int
    };
    assert(out[place] == field);
    assert forall|i: int| 0 <= i < place implies (#[trigger] out[i]).0 != field.0 by {
        assert(out[i] == fields[i]);
    }
    assert forall|i: int| place < i < out.len() implies (#[trigger] out[i]).0 != field.0 by {
        let tail = fields.skip(first + 1).filter(not_named(field.0));
        assert(out[i] == tail[i - place - 1]);
        fields.skip(first + 1).lemma_filter_pred(not_named(field.0), i - place - 1);
    }
    lemma_first_named(out, field.0, 0);
}

/// Inserting sets the field and keeps the fields of other names: a field is
/// in the result if and only if it is the one inserted, or was there under
/// another name.
pub proof fn lemma_inserted_fields(
    fields: Seq<(Seq<char>, Seq<u8>)>,
    field: (Seq<char>, Seq<u8>),
    x: (Seq<char>, Seq<u8>),
)
    ensures
        inserted_spec(fields, field).contains(x) <==> x == field || (fields.contains(x) && x.0
            != field.0),
{
    let out = inserted_spec(fields, field);
    let first = first_named_from(fields, field.0, 0);
    let keep = not_named(field.0);
    lemma_first_named(fields, field.0, 0);
    if first < fields.len() {
        let tail = fields.skip(first + 1);
        let kept = tail.filter(keep);
        assert(out[first] == field);
        if out.contains(x) && x != field {
            let i = choose|i: int| 0 <= i < out.len() && out[i] == x;
            if i < first {
                assert(fields[i] == x);
            } else {
                assert(kept[i - first - 1] == x);
                tail.lemma_filter_pred(keep, i - first - 1);
                assert(kept.contains(x));
                tail.lemma_filter_contains_rev(keep, x);
                let k = choose|k: int| 0 <= k < tail.len() && tail[k] == x;
                assert(fields[first + 1 + k] == x);
            }
        }
        if fields.contains(x) && x.0 != field.0 {
            let j = choose|j: int| 0 <= j < fields.len() && fields[j] == x;
            if j < first {
                assert(out[j] == x);
            } else {
                assert(tail[j - first - 1] == x);
                tail.lemma_filter_contains(keep, j - first - 1);
                let k = choose|k: int| 0 <= k < kept.len() && kept[k] == x;
                assert(out[first + 1 + k] == x);
            }
        }
    } else {
        assert(out[fields.len() as int] == field);
        if out.contains(x) && x != field {
            let i = choose|i: int| 0 <= i < out.len() && out[i] == x;
            assert(fields[i] == x);
        }
        if fields.contains(x) && x.0 != field.0 {
            let j = choose|j: int| 0 <= j < fields.len() && fields[j] == x;
            assert(out[j] == x);
        }
    }
}

/// The test that keeps the fields named `name`.
pub open spec fn named(name: Seq<char>) -> spec_fn((Seq<char>, Seq<u8>)) -> bool {
    |f: (Seq<char>, Seq<u8>)| f.0 == name
}

/// How many fields are named `name`.
pub open spec fn count_named(fields: Seq<(Seq<char>, Seq<u8>)>, name: Seq<char>) -> nat {
    fields.filter(named(name)).len()
}

/// Counting after one more field.
proof fn lemma_count_push(
    fields: Seq<(Seq<char>, Seq<u8>)>,
    field: (Seq<char>, Seq<u8>),
    name: Seq<char>,
)
    ensures
        count_named(fields.push(field), name) == count_named(fields, name) + if field.0 == name {
            1nat
        } else {
            0nat
        },
{
    reveal(Seq::filter);
    assert(fields.push(field).drop_last() =~= fields);
}

/// Where no field has the name, none is counted.
proof fn lemma_count_none(fields: Seq<(Seq<char>, Seq<u8>)>, name: Seq<char>)
    requires
        forall|i: int| 0 <= i < fields.len() ==> (#[trigger] fields[i]).0 != name,
    ensures
        count_named(fields, name) == 0,
    decreases fields.len(),
{
    reveal(Seq::filter);
    if fields.len() > 0 {
        lemma_count_none(fields.drop_last(), name);
    }
}

/// Dropping the fields of one name leaves the count of every other name.
proof fn lemma_count_of_others(
    fields: Seq<(Seq<char>, Seq<u8>)>,
    dropped: Seq<char>,
    name: Seq<char>,
)
    requires
        name != dropped,
    ensures
        count_named(fields.filter(not_named(dropped)), name) == count_named(fields, name),
    decreases fields.len(),
{
    reveal(Seq::filter);
    if fields.len() > 0 {
        let rest = fields.drop_last();
        lemma_count_of_others(rest, dropped, name);
        if fields.last().0 != dropped {
            lemma_count_push(rest.filter(not_named(dropped)), fields.last(), name);
        }
    }
}

/// After a field was inserted, its name is held once, and every other name
/// as often as before.
pub proof fn lemma_inserted_counts(
    fields: Seq<(Seq<char>, Seq<u8>)>,
    field: (Seq<char>, Seq<u8>),
    name: Seq<char>,
)
    ensures
        count_named(inserted_spec(fields, field), name) == if name == field.0 {
            1nat
        } else {
            count_named(fields, name)
        },
{
    let first = first_named_from(fields, field.0, 0);
    lemma_first_named(fields, field.0, 0);
    let test = named(name);
    if first < fields.len() {
        let head = fields.take(first);
        let tail = fields.skip(first + 1);
        let kept = tail.filter(not_named(field.0));
        Seq::filter_distributes_over_add(head.push(field), kept, test);
        lemma_count_push(head, field, name);
        if name == field.0 {
            lemma_count_none(head, name);
            assert forall|i: int| 0 <= i < kept.len() implies (#[trigger] kept[i]).0 != name by {
                tail.lemma_filter_pred(not_named(field.0), i);
            }
            lemma_count_none(kept, name);
        } else {
            lemma_count_of_others(tail, field.0, name);
            assert(fields =~= head.push(fields[first]) + tail);
            Seq::filter_distributes_over_add(head.push(fields[first]), tail, test);
            lemma_count_push(head, fields[first], name);
        }
    } else {
        lemma_count_push(fields, field, name);
        if name == field.0 {
            lemma_count_none(fields, name);
        }
    }
}

/// What `first_named_from` finds: the first field from `from` on with the
/// name.
pub proof fn lemma_first_named(fields: Seq<(Seq<char>, Seq<u8>)>, name: Seq<char>, from: int)
    requires
        0 <= from <= fields.len(),
    ensures
        from <= first_named_from(fields, name, from) <= fields.len(),
        first_named_from(fields, name, from) < fields.len() ==> fields[first_named_from(
            fields,
            name,
            from,
        )].0 == name,
        forall|j: int|
            from <= j < first_named_from(fields, name, from) ==> (#[trigger] fields[j]).0 != name,
    decreases fields.len() - from,
{
    if from < fields.len() && fields[from].0 != name {
        lemma_first_named(fields, name, from + 1);
    }
}

} // verus!
