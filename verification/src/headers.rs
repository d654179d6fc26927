//! Which headers may cross an HTTP/2 connection.
//!
//! HTTP/1 lets a message carry headers that concern only the connection it
//! travels on. HTTP/2 has moved that information into frames of its own and
//! forbids these headers.

use vstd::prelude::*;

use http::header::HeaderValue;
use http::HeaderMap;

use crate::header_map;
use crate::header_map::{
    all_values, as_text, ascii_lower, header_fields, header_key, is_text_byte, values_bytes, without,
};

verus! {

/// The headers that are always bound to one connection, apart from
/// `connection` itself and `te`.
pub open spec fn is_connection_header(key: Seq<char>) -> bool {
    ||| key == "keep-alive"@
    ||| key == "proxy-connection"@
    ||| key == "transfer-encoding"@
    ||| key == "upgrade"@
}

/// Every one of the values is exactly `trailers`.
pub open spec fn all_trailers(values: Seq<Seq<u8>>) -> bool {
    forall|i: int| 0 <= i < values.len() ==> #[trigger] values[i] == vstd::utf8::encode_utf8("trailers"@)
}

/// `te` is allowed in a request all of whose `te` values are `trailers`, and nowhere else.
pub open spec fn te_allowed(fields: Map<Seq<char>, Seq<Seq<u8>>>, is_request: bool) -> bool {
    is_request && all_trailers(all_values(fields, "te"@))
}

/// Whitespace as it occurs in header text.
pub open spec fn is_blank(c: char) -> bool {
    c == ' ' || c == '\t'
}

/// `text` without its leading blanks.
pub open spec fn trim_start(text: Seq<char>) -> Seq<char>
    decreases text.len(),
{
    if text.len() > 0 && is_blank(text[0]) {
        trim_start(text.subrange(1, text.len() as int))
    } else {
        text
    }
}

/// `text` without its trailing blanks.
pub open spec fn trim_end(text: Seq<char>) -> Seq<char>
    decreases text.len(),
{
    if text.len() > 0 && is_blank(text.last()) {
        trim_end(text.drop_last())
    } else {
        text
    }
}

/// `text` without the blanks at its two ends.
pub open spec fn trimmed(text: Seq<char>) -> Seq<char> {
    trim_end(trim_start(text))
}

/// `text[i..j]` is one of the items between the commas of `text`.
pub open spec fn is_item(text: Seq<char>, i: int, j: int) -> bool {
    &&& 0 <= i <= j <= text.len()
    &&& forall|k: int| i <= k < j ==> text[k] != ','
    &&& i == 0 || text[i - 1] == ','
    &&& j == text.len() || text[j] == ','
}

/// The comma-separated list `text` names the header held under `key`.
pub open spec fn names(text: Seq<char>, key: Seq<char>) -> bool {
    exists|i: int, j: int| #[trigger]
        is_item(text, i, j) && header_key(trimmed(text.subrange(i, j))) == Some(key)
}

/// As `names`, by an item that ends before position `end`.
spec fn names_before(text: Seq<char>, end: int, key: Seq<char>) -> bool {
    exists|i: int, j: int| #[trigger]
        is_item(text, i, j) && j < end && header_key(trimmed(text.subrange(i, j))) == Some(key)
}

/// Every byte of the value can be read as text.
pub open spec fn is_text(value: Seq<u8>) -> bool {
    forall|i: int| 0 <= i < value.len() ==> is_text_byte(#[trigger] value[i])
}

/// One of the values is readable text that names the header held under `key`.
pub open spec fn any_names(values: Seq<Seq<u8>>, key: Seq<char>) -> bool {
    exists|i: int| 0 <= i < values.len() && is_text(#[trigger] values[i]) && names(as_text(values[i]), key)
}

/// A `connection` value lists the header held under `key`. A value that cannot
/// be read as text lists nothing.
pub open spec fn listed(fields: Map<Seq<char>, Seq<Seq<u8>>>, key: Seq<char>) -> bool {
    any_names(all_values(fields, "connection"@), key)
}

/// The header held under `key` may not cross an HTTP/2 connection as part of `fields`.
pub open spec fn forbidden(fields: Map<Seq<char>, Seq<Seq<u8>>>, is_request: bool, key: Seq<char>) -> bool {
    ||| is_connection_header(key)
    ||| key == "te"@ && !te_allowed(fields, is_request)
    ||| key == "connection"@
    ||| listed(fields, key)
}

/// The headers of `fields` that may cross an HTTP/2 connection, with all their values.
pub open spec fn stripped(fields: Map<Seq<char>, Seq<Seq<u8>>>, is_request: bool) -> Map<
    Seq<char>,
    Seq<Seq<u8>>,
> {
    fields.remove_keys(Set::new(|key: Seq<char>| forbidden(fields, is_request, key)))
}

/// The fixed names are held under themselves.
proof fn lemma_fixed_keys()
    ensures
        header_key("keep-alive"@) == Some("keep-alive"@),
        header_key("proxy-connection"@) == Some("proxy-connection"@),
        header_key("transfer-encoding"@) == Some("transfer-encoding"@),
        header_key("upgrade"@) == Some("upgrade"@),
        header_key("te"@) == Some("te"@),
        header_key("connection"@) == Some("connection"@),
{
    reveal_strlit("keep-alive");
    reveal_strlit("proxy-connection");
    reveal_strlit("transfer-encoding");
    reveal_strlit("upgrade");
    reveal_strlit("te");
    reveal_strlit("connection");
    assert("keep-alive"@.map_values(|c: char| ascii_lower(c)) =~= "keep-alive"@);
    assert("proxy-connection"@.map_values(|c: char| ascii_lower(c)) =~= "proxy-connection"@);
    assert("transfer-encoding"@.map_values(|c: char| ascii_lower(c)) =~= "transfer-encoding"@);
    assert("upgrade"@.map_values(|c: char| ascii_lower(c)) =~= "upgrade"@);
    assert("te"@.map_values(|c: char| ascii_lower(c)) =~= "te"@);
    assert("connection"@.map_values(|c: char| ascii_lower(c)) =~= "connection"@);
}

/// The fixed names are all different.
proof fn lemma_fixed_names_differ()
    ensures
        "te"@ != "connection"@,
        !is_connection_header("te"@),
        !is_connection_header("connection"@),
{
    reveal_strlit("keep-alive");
    reveal_strlit("proxy-connection");
    reveal_strlit("transfer-encoding");
    reveal_strlit("upgrade");
    reveal_strlit("te");
    reveal_strlit("connection");
    assert("keep-alive"@[0] != "connection"@[0]);
    assert("te"@.len() == 2 && "connection"@.len() == 10 && "upgrade"@.len() == 7);
    assert("keep-alive"@.len() == 10 && "proxy-connection"@.len() == 16 && "transfer-encoding"@.len() == 17);
}

/// Removes the blanks at the two ends of `text`.
fn trim(text: &str) -> (rest: &str)
    requires
        text.is_ascii(),
    ensures
        rest.is_ascii(),
        rest@ == trimmed(text@),
{
    broadcast use vstd::string::is_ascii_spec_bytes;

    let bytes = text.as_bytes();
    let len: usize = bytes.len();
    let mut start: usize = 0;
    let mut end: usize = len;
    assert(text@.subrange(0, len as int) =~= text@);
    while start < end && (bytes[start] == 32 || bytes[start] == 9)
        invariant
            text.is_ascii(),
            bytes@ == Seq::new(text@.len(), |i: int| text@[i] as u8),
            len == text@.len(),
            start <= end,
            end == len,
            trim_start(text@) == trim_start(text@.subrange(start as int, len as int)),
        decreases end - start,
    {
        assert(text@.subrange(start as int, len as int).subrange(1, len - start) =~= text@.subrange(
            start + 1,
            len as int,
        ));
        start = start + 1;
    }
    while start < end && (bytes[end - 1] == 32 || bytes[end - 1] == 9)
        invariant
            text.is_ascii(),
            bytes@ == Seq::new(text@.len(), |i: int| text@[i] as u8),
            len == text@.len(),
            start <= end <= len,
            trimmed(text@) == trim_end(text@.subrange(start as int, end as int)),
        decreases end - start,
    {
        assert(text@.subrange(start as int, end as int).drop_last() =~= text@.subrange(start as int, end - 1));
        end = end - 1;
    }
    text.substring_ascii(start, end)
}

/// Reading past a position at which no item ends names nothing new.
proof fn lemma_within_item(text: Seq<char>, pos: int, key: Seq<char>)
    requires
        0 <= pos < text.len(),
        text[pos] != ',',
    ensures
        names_before(text, pos + 1, key) == names_before(text, pos, key),
{
    if names_before(text, pos + 1, key) {
        let (i, j) = choose|i: int, j: int| #[trigger]
            is_item(text, i, j) && j < pos + 1 && header_key(trimmed(text.subrange(i, j))) == Some(key);
        assert(is_item(text, i, j) && j < pos);
    }
}

/// Removing the header that one more item denotes, after those of the items before it.
proof fn lemma_after_item(fields: Map<Seq<char>, Seq<Seq<u8>>>, text: Seq<char>, start: int, pos: int)
    requires
        is_item(text, start, pos),
    ensures
        without(
            fields.remove_keys(Set::new(|key: Seq<char>| names_before(text, pos, key))),
            trimmed(text.subrange(start, pos)),
        ) == fields.remove_keys(Set::new(|key: Seq<char>| names_before(text, pos + 1, key))),
{
    let item = header_key(trimmed(text.subrange(start, pos)));
    assert forall|key: Seq<char>|
        names_before(text, pos + 1, key) == (names_before(text, pos, key) || item == Some(key)) by {
        if item == Some(key) {
            assert(is_item(text, start, pos) && pos < pos + 1);
        }
        if names_before(text, pos, key) {
            let (i, j) = choose|i: int, j: int| #[trigger]
                is_item(text, i, j) && j < pos && header_key(trimmed(text.subrange(i, j))) == Some(key);
            assert(is_item(text, i, j) && j < pos + 1);
        }
        if names_before(text, pos + 1, key) && item != Some(key) {
            let (i, j) = choose|i: int, j: int| #[trigger]
                is_item(text, i, j) && j < pos + 1 && header_key(trimmed(text.subrange(i, j))) == Some(key);
            if j == pos {
                assert(i == start) by {
                    if i < start {
                        assert(text[start - 1] == ',');
                    } else if start < i {
                        assert(text[i - 1] == ',');
                    }
                }
            }
            assert(is_item(text, i, j) && j < pos);
        }
    }
    assert(without(
        fields.remove_keys(Set::new(|key: Seq<char>| names_before(text, pos, key))),
        trimmed(text.subrange(start, pos)),
    ) =~= fields.remove_keys(Set::new(|key: Seq<char>| names_before(text, pos + 1, key))));
}

/// Removes from `headers` every header that the comma-separated list `text` names.
fn remove_listed(headers: &mut HeaderMap<HeaderValue>, text: &str)
    requires
        text.is_ascii(),
    ensures
        header_fields(*final(headers)) == header_fields(*old(headers)).remove_keys(
            Set::new(|key: Seq<char>| names(text@, key)),
        ),
{
    broadcast use vstd::string::is_ascii_spec_bytes;

    let ghost before = header_fields(*headers);
    let bytes = text.as_bytes();
    let len: usize = bytes.len();
    let mut start: usize = 0;
    let mut pos: usize = 0;
    assert(before.remove_keys(Set::new(|key: Seq<char>| names_before(text@, 0, key))) =~= before);
    while pos < len
        invariant
            text.is_ascii(),
            bytes@ == Seq::new(text@.len(), |i: int| text@[i] as u8),
            len == text@.len(),
            start <= pos <= len,
            start == 0 || text@[start - 1] == ',',
            forall|k: int| start <= k < pos ==> text@[k] != ',',
            header_fields(*headers) == before.remove_keys(
                Set::new(|key: Seq<char>| names_before(text@, pos as int, key)),
            ),
        decreases len - pos,
    {
        if bytes[pos] == 44 {
            proof {
                lemma_after_item(before, text@, start as int, pos as int);
            }
            header_map::remove(headers, trim(text.substring_ascii(start, pos)));
            start = pos + 1;
        } else {
            proof {
                assert forall|key: Seq<char>| names_before(text@, pos + 1, key) == names_before(text@, pos as int, key) by {
                    lemma_within_item(text@, pos as int, key);
                }
                assert(before.remove_keys(Set::new(|key: Seq<char>| names_before(text@, pos as int, key)))
                    =~= before.remove_keys(Set::new(|key: Seq<char>| names_before(text@, pos + 1, key))));
            }
        }
        pos = pos + 1;
    }
    proof {
        lemma_after_item(before, text@, start as int, len as int);
    }
    header_map::remove(headers, trim(text.substring_ascii(start, len)));
    assert forall|key: Seq<char>| names_before(text@, len + 1, key) == names(text@, key) by {
        if names(text@, key) {
            let (i, j) = choose|i: int, j: int| #[trigger]
                is_item(text@, i, j) && header_key(trimmed(text@.subrange(i, j))) == Some(key);
            assert(is_item(text@, i, j) && j < len + 1);
        }
    }
    assert(before.remove_keys(Set::new(|key: Seq<char>| names_before(text@, len + 1, key)))
        =~= before.remove_keys(Set::new(|key: Seq<char>| names(text@, key))));
}

/// Removes from `headers` every header that one of the values lists.
fn remove_listed_by(headers: &mut HeaderMap<HeaderValue>, values: &Vec<HeaderValue>)
    ensures
        header_fields(*final(headers)) == header_fields(*old(headers)).remove_keys(
            Set::new(|key: Seq<char>| any_names(values_bytes(values@), key)),
        ),
{
    let ghost before = header_fields(*headers);
    let ghost bytes = values_bytes(values@);
    let len: usize = values.len();
    let mut pos: usize = 0;
    assert(before.remove_keys(Set::new(|key: Seq<char>| any_names(bytes.take(0), key))) =~= before);
    while pos < len
        invariant
            len == values@.len(),
            bytes == values_bytes(values@),
            pos <= len,
            header_fields(*headers) == before.remove_keys(
                Set::new(|key: Seq<char>| any_names(bytes.take(pos as int), key)),
            ),
        decreases len - pos,
    {
        if let Some(text) = header_map::to_str(&values[pos]) {
            remove_listed(headers, text);
        }
        proof {
            let value = bytes[pos as int];
            let (seen, next) = (bytes.take(pos as int), bytes.take(pos + 1));
            assert forall|key: Seq<char>|
                any_names(next, key) == (any_names(seen, key) || is_text(value) && names(as_text(value), key)) by {
                assert(next[pos as int] == value);
                if any_names(seen, key) {
                    let i = choose|i: int|
                        0 <= i < seen.len() && is_text(#[trigger] seen[i]) && names(as_text(seen[i]), key);
                    assert(next[i] == seen[i]);
                }
                if any_names(next, key) {
                    let i = choose|i: int|
                        0 <= i < next.len() && is_text(#[trigger] next[i]) && names(as_text(next[i]), key);
                    assert(i < pos ==> seen[i] == next[i]);
                }
            }
            assert(header_fields(*headers) =~= before.remove_keys(
                Set::new(|key: Seq<char>| any_names(next, key)),
            ));
        }
        pos = pos + 1;
    }
    assert(bytes.take(len as int) =~= bytes);
}

/// Whether every one of the values is exactly `trailers`.
fn are_all_trailers(values: &Vec<HeaderValue>) -> (all: bool)
    ensures
        all == all_trailers(values_bytes(values@)),
{
    let len: usize = values.len();
    let mut pos: usize = 0;
    while pos < len
        invariant
            len == values@.len(),
            pos <= len,
            all_trailers(values_bytes(values@).take(pos as int)),
        decreases len - pos,
    {
        let ghost bytes = values_bytes(values@);
        if !header_map::value_eq(&values[pos], "trailers") {
            assert(bytes[pos as int] != vstd::utf8::encode_utf8("trailers"@));
            return false;
        }
        assert(all_trailers(bytes.take(pos + 1))) by {
            assert forall|i: int| 0 <= i < pos + 1 implies #[trigger] bytes.take(pos + 1)[i]
                == vstd::utf8::encode_utf8("trailers"@) by {
                assert(i < pos ==> bytes.take(pos as int)[i] == bytes[i]);
            }
        }
        pos = pos + 1;
    }
    assert(values_bytes(values@).take(len as int) =~= values_bytes(values@));
    true
}

/// Removes from `headers` what may not cross an HTTP/2 connection: the headers
/// bound to one connection, `te` unless all its values are `trailers` (in a
/// response, any `te`), `connection`, and every header that a `connection`
/// value lists.
pub fn strip_connection_headers(headers: &mut HeaderMap<HeaderValue>, is_request: bool)
    ensures
        header_fields(*final(headers)) == stripped(header_fields(*old(headers)), is_request),
{
    let ghost before = header_fields(*headers);
    proof {
        lemma_fixed_keys();
        lemma_fixed_names_differ();
    }
    let _ = header_map::remove(headers, "keep-alive");
    let _ = header_map::remove(headers, "proxy-connection");
    let _ = header_map::remove(headers, "transfer-encoding");
    let _ = header_map::remove(headers, "upgrade");

    if !is_request || !are_all_trailers(&header_map::get_all(headers, "te")) {
        let _ = header_map::remove(headers, "te");
    }

    let connection = header_map::get_all(headers, "connection");
    let _ = header_map::remove(headers, "connection");
    // The names that its values list are meant for this connection only.
    remove_listed_by(headers, &connection);
    assert(header_fields(*headers) =~= stripped(before, is_request));
}

/// After stripping, no header bound to one connection is left: none of the
/// fixed ones, not `connection`, and none that `connection` listed.
pub proof fn law_no_connection_header_is_left(
    fields: Map<Seq<char>, Seq<Seq<u8>>>,
    is_request: bool,
    key: Seq<char>,
)
    requires
        is_connection_header(key) || key == "connection"@ || listed(fields, key),
    ensures
        !stripped(fields, is_request).contains_key(key),
{
}

/// After stripping, a response has no `te` header, and a request has one only
/// if all its values are `trailers`.
pub proof fn law_te_is_left_only_as_trailers(fields: Map<Seq<char>, Seq<Seq<u8>>>, is_request: bool)
    requires
        stripped(fields, is_request).contains_key("te"@),
    ensures
        is_request,
        all_trailers(stripped(fields, is_request)["te"@]),
{
    lemma_fixed_keys();
}

/// A request keeps its `te` header, with all its values, if they are all
/// `trailers` and `connection` does not list it.
pub proof fn law_te_trailers_is_kept_in_requests(fields: Map<Seq<char>, Seq<Seq<u8>>>)
    requires
        fields.contains_key("te"@),
        all_trailers(fields["te"@]),
        !listed(fields, "te"@),
    ensures
        stripped(fields, true).contains_key("te"@),
        stripped(fields, true)["te"@] == fields["te"@],
{
    lemma_fixed_keys();
    lemma_fixed_names_differ();
}

/// Stripping adds no header, and keeps every header that is not forbidden with all its values.
pub proof fn law_other_headers_are_kept(
    fields: Map<Seq<char>, Seq<Seq<u8>>>,
    is_request: bool,
    key: Seq<char>,
)
    requires
        !forbidden(fields, is_request, key),
    ensures
        stripped(fields, is_request).contains_key(key) == fields.contains_key(key),
        fields.contains_key(key) ==> stripped(fields, is_request)[key] == fields[key],
{
}

/// Stripping twice is stripping once.
pub proof fn law_strip_is_idempotent(fields: Map<Seq<char>, Seq<Seq<u8>>>, is_request: bool)
    ensures
        stripped(stripped(fields, is_request), is_request) == stripped(fields, is_request),
{
    lemma_fixed_keys();
    lemma_fixed_names_differ();
    assert(stripped(stripped(fields, is_request), is_request) =~= stripped(fields, is_request));
}

/// Only spaces and tabs.
pub open spec fn blanks(text: Seq<char>) -> bool {
    forall|i: int| 0 <= i < text.len() ==> #[trigger] text[i] == ' ' || text[i] == '\t'
}

/// Leading blanks make no difference to `trim_start`.
proof fn lemma_trim_start_skips(a: Seq<char>, text: Seq<char>)
    requires
        blanks(a),
    ensures
        trim_start(a + text) == trim_start(text),
    decreases a.len(),
{
    if a.len() == 0 {
        assert(a + text =~= text);
    } else {
        let rest = a.subrange(1, a.len() as int);
        assert((a + text)[0] == a[0]);
        assert((a + text).subrange(1, (a + text).len() as int) =~= rest + text);
        lemma_trim_start_skips(rest, text);
    }
}

/// Trailing blanks make no difference to `trim_end`.
proof fn lemma_trim_end_skips(text: Seq<char>, b: Seq<char>)
    requires
        blanks(b),
    ensures
        trim_end(text + b) == trim_end(text),
    decreases b.len(),
{
    if b.len() == 0 {
        assert(text + b =~= text);
    } else {
        assert((text + b).last() == b.last());
        assert((text + b).drop_last() =~= text + b.drop_last());
        lemma_trim_end_skips(text, b.drop_last());
    }
}

/// Where `trim_start` comes to an end, what follows stays as it is.
proof fn lemma_trim_start_keeps_tail(text: Seq<char>, b: Seq<char>)
    ensures
        trim_start(text + b) == (if trim_start(text).len() > 0 {
            trim_start(text) + b
        } else {
            trim_start(b)
        }),
    decreases text.len(),
{
    if text.len() == 0 {
        assert(text + b =~= b);
    } else {
        assert((text + b)[0] == text[0]);
        let rest = text.subrange(1, text.len() as int);
        assert((text + b).subrange(1, (text + b).len() as int) =~= rest + b);
        if is_blank(text[0]) {
            lemma_trim_start_keeps_tail(rest, b);
        }
    }
}

/// The blanks that `trim_start` removes.
proof fn lemma_trim_start_splits(text: Seq<char>) -> (a: Seq<char>)
    ensures
        blanks(a),
        text == a + trim_start(text),
        trim_start(text).len() > 0 ==> trim_start(text)[0] != ' ' && trim_start(text)[0] != '\t',
    decreases text.len(),
{
    if text.len() > 0 && is_blank(text[0]) {
        let rest = text.subrange(1, text.len() as int);
        let a = lemma_trim_start_splits(rest);
        assert(text =~= seq![text[0]] + rest);
        assert(seq![text[0]] + (a + trim_start(rest)) =~= seq![text[0]] + a + trim_start(rest));
        seq![text[0]] + a
    } else {
        assert(text =~= Seq::<char>::empty() + text);
        Seq::empty()
    }
}

/// The blanks that `trim_end` removes.
proof fn lemma_trim_end_splits(text: Seq<char>) -> (b: Seq<char>)
    ensures
        blanks(b),
        text == trim_end(text) + b,
        trim_end(text).len() > 0 ==> trim_end(text).last() != ' ' && trim_end(text).last() != '\t',
    decreases text.len(),
{
    if text.len() > 0 && is_blank(text.last()) {
        let rest = text.drop_last();
        let b = lemma_trim_end_splits(rest);
        assert(text =~= rest.push(text.last()));
        assert((trim_end(rest) + b).push(text.last()) =~= trim_end(rest) + b.push(text.last()));
        b.push(text.last())
    } else {
        assert(text =~= text + Seq::<char>::empty());
        Seq::empty()
    }
}

/// Spaces and tabs around a text make no difference to what trimming leaves of it.
pub proof fn law_trimming_ignores_outer_blanks(a: Seq<char>, text: Seq<char>, b: Seq<char>)
    requires
        blanks(a),
        blanks(b),
    ensures
        trimmed(a + text + b) == trimmed(text),
{
    assert(a + text + b =~= a + (text + b));
    lemma_trim_start_skips(a, text + b);
    lemma_trim_start_keeps_tail(text, b);
    if trim_start(text).len() > 0 {
        lemma_trim_end_skips(trim_start(text), b);
    } else {
        assert(b + Seq::<char>::empty() =~= b);
        lemma_trim_start_skips(b, Seq::empty());
        assert(trim_start(text) =~= Seq::<char>::empty());
    }
}

/// Trimming removes spaces and tabs at the two ends and nothing else, and
/// leaves none at either end.
pub proof fn law_trimming_removes_just_the_outer_blanks(text: Seq<char>) -> (around: (Seq<char>, Seq<char>))
    ensures
        blanks(around.0),
        blanks(around.1),
        text == around.0 + trimmed(text) + around.1,
        trimmed(text).len() > 0 ==> {
            &&& trimmed(text)[0] != ' ' && trimmed(text)[0] != '\t'
            &&& trimmed(text).last() != ' ' && trimmed(text).last() != '\t'
        },
{
    let a = lemma_trim_start_splits(text);
    let b = lemma_trim_end_splits(trim_start(text));
    assert(text =~= a + trimmed(text) + b);
    if trimmed(text).len() > 0 {
        assert(trimmed(text)[0] == trim_start(text)[0]);
    }
    (a, b)
}

/// `text` consists of the given parts, of which the middle one, `name`, stands
/// between two commas, or an end of the text in place of a comma, with nothing
/// but blanks around it.
pub open spec fn stands_in(
    text: Seq<char>,
    before: Seq<char>,
    a: Seq<char>,
    name: Seq<char>,
    b: Seq<char>,
    after: Seq<char>,
) -> bool {
    &&& text == before + a + name + b + after
    &&& before.len() == 0 || before.last() == ','
    &&& blanks(a)
    &&& blanks(b)
    &&& after.len() == 0 || after[0] == ','
}

/// A header name that denotes `key` stands in the comma-separated list `text`.
pub open spec fn mentions(text: Seq<char>, key: Seq<char>) -> bool {
    exists|before: Seq<char>, a: Seq<char>, name: Seq<char>, b: Seq<char>, after: Seq<char>| #[trigger]
        stands_in(text, before, a, name, b, after) && header_key(name) == Some(key)
}

/// A header name that denotes `key` stands in a `connection` value that can be read as text.
pub open spec fn mentioned(fields: Map<Seq<char>, Seq<Seq<u8>>>, key: Seq<char>) -> bool {
    &&& fields.contains_key("connection"@)
    &&& exists|v: int|
        {
            &&& 0 <= v < fields["connection"@].len()
            &&& forall|i: int|
                0 <= i < fields["connection"@][v].len() ==> is_text_byte(#[trigger] fields["connection"@][v][i])
            &&& mentions(as_text(#[trigger] fields["connection"@][v]), key)
        }
}

/// Reading a list item by item finds the names that stand in it.
proof fn lemma_names_are_mentions(text: Seq<char>, key: Seq<char>)
    ensures
        names(text, key) == mentions(text, key),
{
    if names(text, key) {
        let (i, j) = choose|i: int, j: int| #[trigger]
            is_item(text, i, j) && header_key(trimmed(text.subrange(i, j))) == Some(key);
        let item = text.subrange(i, j);
        let (a, b) = law_trimming_removes_just_the_outer_blanks(item);
        let (before, after) = (text.subrange(0, i), text.subrange(j, text.len() as int));
        assert(text =~= before + item + after);
        assert(text =~= before + a + trimmed(item) + b + after);
        assert(stands_in(text, before, a, trimmed(item), b, after));
    }
    if mentions(text, key) {
        let (before, a, name, b, after) = choose|
            before: Seq<char>,
            a: Seq<char>,
            name: Seq<char>,
            b: Seq<char>,
            after: Seq<char>,
        | #[trigger]
            stands_in(text, before, a, name, b, after) && header_key(name) == Some(key);
        let i = before.len() as int;
        let j = i + a.len() + name.len() + b.len();
        assert(text.subrange(i, j) =~= a + name + b);
        law_trimming_ignores_outer_blanks(a, name, b);
        assert(header_map::is_name_char(name[0]));
        assert(header_map::is_name_char(name.last()));
        assert(trimmed(name) == name);
        assert forall|k: int| i <= k < j implies text[k] != ',' by {
            if k < i + a.len() {
                assert(text[k] == a[k - i]);
            } else if k < i + a.len() + name.len() {
                assert(text[k] == name[k - i - a.len()]);
                assert(header_map::is_name_char(name[k - i - a.len()]));
            } else {
                assert(text[k] == b[k - i - a.len() - name.len()]);
            }
        }
        assert(is_item(text, i, j));
    }
}

/// A header is listed where it is mentioned.
proof fn lemma_listed_is_mentioned(fields: Map<Seq<char>, Seq<Seq<u8>>>, key: Seq<char>)
    ensures
        listed(fields, key) == mentioned(fields, key),
{
    lemma_fixed_keys();
    let values = all_values(fields, "connection"@);
    if listed(fields, key) {
        let v = choose|v: int|
            0 <= v < values.len() && is_text(#[trigger] values[v]) && names(as_text(values[v]), key);
        lemma_names_are_mentions(as_text(values[v]), key);
        assert(mentions(as_text(fields["connection"@][v]), key));
    }
    if mentioned(fields, key) {
        let v = choose|v: int|
            {
                &&& 0 <= v < fields["connection"@].len()
                &&& forall|i: int|
                    0 <= i < fields["connection"@][v].len() ==> is_text_byte(#[trigger] fields["connection"@][v][i])
                &&& mentions(as_text(#[trigger] fields["connection"@][v]), key)
            };
        lemma_names_are_mentions(as_text(values[v]), key);
        assert(is_text(values[v]));
    }
}

/// Which headers cross an HTTP/2 connection: those that are neither
/// `keep-alive`, `proxy-connection`, `transfer-encoding`, `upgrade` nor
/// `connection`, and that no `connection` value mentions; `te` only in a
/// request, and only if all its values are `trailers`. They keep their values.
pub proof fn law_which_headers_cross(
    fields: Map<Seq<char>, Seq<Seq<u8>>>,
    is_request: bool,
    key: Seq<char>,
)
    ensures
        stripped(fields, is_request).contains_key(key) <==> {
            &&& fields.contains_key(key)
            &&& key != "keep-alive"@
            &&& key != "proxy-connection"@
            &&& key != "transfer-encoding"@
            &&& key != "upgrade"@
            &&& key != "connection"@
            &&& key == "te"@ ==> is_request && forall|i: int|
                0 <= i < fields[key].len() ==> #[trigger] fields[key][i] == vstd::utf8::encode_utf8("trailers"@)
            &&& !mentioned(fields, key)
        },
        stripped(fields, is_request).contains_key(key) ==> stripped(fields, is_request)[key] == fields[key],
{
    lemma_fixed_keys();
    lemma_fixed_names_differ();
    lemma_listed_is_mentioned(fields, key);
}

/// A header crosses unchanged if it is none of the six that HTTP/2 restricts
/// and no `connection` value mentions it.
pub proof fn law_unrestricted_headers_are_kept(
    fields: Map<Seq<char>, Seq<Seq<u8>>>,
    is_request: bool,
    key: Seq<char>,
)
    requires
        key != "keep-alive"@,
        key != "proxy-connection"@,
        key != "transfer-encoding"@,
        key != "upgrade"@,
        key != "te"@,
        key != "connection"@,
        !mentioned(fields, key),
    ensures
        stripped(fields, is_request).contains_key(key) == fields.contains_key(key),
        fields.contains_key(key) ==> stripped(fields, is_request)[key] == fields[key],
{
    law_which_headers_cross(fields, is_request, key);
}

/// Where a readable `connection` value has a header name, with any spaces and
/// tabs around it, between two commas or at an end, the header of that name
/// does not cross, in whatever case the name is written.
pub proof fn law_mentioned_headers_are_removed(
    fields: Map<Seq<char>, Seq<Seq<u8>>>,
    is_request: bool,
    v: int,
    before: Seq<char>,
    a: Seq<char>,
    name: Seq<char>,
    b: Seq<char>,
    after: Seq<char>,
)
    requires
        fields.contains_key("connection"@),
        0 <= v < fields["connection"@].len(),
        forall|i: int|
            0 <= i < fields["connection"@][v].len() ==> is_text_byte(#[trigger] fields["connection"@][v][i]),
        as_text(fields["connection"@][v]) == before + a + name + b + after,
        before.len() == 0 || before.last() == ',',
        forall|i: int| 0 <= i < a.len() ==> #[trigger] a[i] == ' ' || a[i] == '\t',
        forall|i: int| 0 <= i < b.len() ==> #[trigger] b[i] == ' ' || b[i] == '\t',
        after.len() == 0 || after[0] == ',',
        header_key(name) is Some,
    ensures
        !stripped(fields, is_request).contains_key(header_key(name)->0),
{
    let key = header_key(name)->0;
    assert(stands_in(as_text(fields["connection"@][v]), before, a, name, b, after));
    assert(mentions(as_text(fields["connection"@][v]), key));
    law_which_headers_cross(fields, is_request, key);
}

/// A header that HTTP/2 leaves alone makes no difference to the others: adding
/// it before stripping is adding it after.
pub proof fn law_stripping_is_done_header_by_header(
    fields: Map<Seq<char>, Seq<Seq<u8>>>,
    is_request: bool,
    key: Seq<char>,
    values: Seq<Seq<u8>>,
)
    requires
        key != "keep-alive"@,
        key != "proxy-connection"@,
        key != "transfer-encoding"@,
        key != "upgrade"@,
        key != "te"@,
        key != "connection"@,
        !mentioned(fields, key),
    ensures
        stripped(fields.insert(key, values), is_request) == stripped(fields, is_request).insert(key, values),
{
    let more = fields.insert(key, values);
    assert forall|other: Seq<char>| mentioned(more, other) == mentioned(fields, other) by {
        assert(more["connection"@] == fields["connection"@] || !fields.contains_key("connection"@));
    }
    assert forall|other: Seq<char>|
        stripped(more, is_request).contains_key(other) == stripped(fields, is_request).insert(
            key,
            values,
        ).contains_key(other) by {
        law_which_headers_cross(more, is_request, other);
        law_which_headers_cross(fields, is_request, other);
    }
    assert(stripped(more, is_request) =~= stripped(fields, is_request).insert(key, values));
}

} // verus!
