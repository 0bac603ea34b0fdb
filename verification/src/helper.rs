//! Approximate sizes of requests and responses, as the HTTP metrics record them.
use crate::headers::{
    header_entries, header_map_entries, header_map_get, header_value_text, header_value_to_str,
    lookup, Entry,
};
use crate::request::RequestHead;
use crate::text::{parse_unsigned, parse_usize};
use http::{HeaderMap, HeaderValue};
use vstd::prelude::*;
use vstd::string::StringSliceAdditionalSpecFns;
use vstd::utf8::encode_utf8;

verus! {

/// The length in bytes of the UTF-8 encoding of a text.
pub open spec fn utf8_len(s: Seq<char>) -> nat {
    encode_utf8(s).len()
}

/// The bytes that the headers take: for every entry, its name and its value.
pub open spec fn header_bytes(entries: Seq<Entry>) -> nat
    decreases entries.len(),
{
    if entries.len() == 0 {
        0
    } else {
        header_bytes(entries.drop_last()) + utf8_len(entries.last().0) + entries.last().1.len()
    }
}

/// The body size that the `Content-Length` header announces: zero when there is
/// no such header or its text is no number; nothing (the original panics) when
/// its value is not printable.
pub open spec fn content_length_of(entries: Seq<Entry>) -> Option<nat> {
    match lookup(entries, "content-length"@) {
        None => Some(0),
        Some(v) => match header_value_text(v) {
            None => None,
            Some(t) => Some(
                match parse_unsigned(t, usize::MAX as nat) {
                    Some(n) => n,
                    None => 0,
                },
            ),
        },
    }
}

/// The approximate size of a request: its path, its method, its headers, its
/// URI's host and the announced body size.
pub open spec fn request_size_of(head: RequestHead) -> Option<nat> {
    match content_length_of(head.entries()) {
        Some(body) => Some(
            utf8_len(head.path@) + utf8_len(head.method@) + header_bytes(head.entries()) + match head.authority {
                Some(a) => utf8_len(a.host@),
                None => 0,
            } + body,
        ),
        None => None,
    }
}

/// The approximate size of a response: its headers and the announced body
/// size.
pub open spec fn response_size_of(entries: Seq<Entry>) -> Option<nat> {
    match content_length_of(entries) {
        Some(body) => Some(header_bytes(entries) + body),
        None => None,
    }
}

/// A size as a natural number.
pub open spec fn size_value(size: Option<usize>) -> Option<nat> {
    match size {
        Some(n) => Some(n as nat),
        None => None,
    }
}

/// A size that `usize` holds, or nothing (where the sum would overflow).
pub open spec fn fitting(size: Option<nat>) -> Option<nat> {
    match size {
        Some(n) => if n <= usize::MAX {
            Some(n)
        } else {
            None
        },
        None => None,
    }
}

proof fn lemma_header_bytes_prefix(entries: Seq<Entry>, i: int)
    requires
        0 <= i <= entries.len(),
    ensures
        header_bytes(entries.take(i)) <= header_bytes(entries),
    decreases entries.len() - i,
{
    if i < entries.len() {
        lemma_header_bytes_prefix(entries, i + 1);
        assert(entries.take(i + 1).drop_last() == entries.take(i));
    } else {
        assert(entries.take(i) == entries);
    }
}

/// The bytes that the headers of a map take, if `usize` holds them.
fn checked_header_bytes(headers: &HeaderMap<HeaderValue>) -> (r: Option<usize>)
    ensures
        size_value(r) == fitting(Some(header_bytes(header_entries(*headers)))),
{
    let entries = header_map_entries(headers);
    let ghost model = header_entries(*headers);
    let n = entries.len();
    let mut total: usize = 0;
    let mut i: usize = 0;
    while i < n
        invariant
            n == entries@.len(),
            entries.deep_view() == model,
            model == header_entries(*headers),
            0 <= i <= n,
            total == header_bytes(model.take(i as int)),
        decreases n - i,
    {
        proof {
            assert(entries.deep_view()[i as int] == model[i as int]);
            assert(model[i as int].0 == entries@[i as int].0@);
            assert(model[i as int].1 == entries@[i as int].1@);
            assert(model.take(i + 1).drop_last() == model.take(i as int));
            assert(model.take(i + 1).last() == model[i as int]);
            lemma_header_bytes_prefix(model, i + 1);
        }
        let name_len = entries[i].0.as_str().as_bytes().len();
        let value_len = entries[i].1.len();
        assert(name_len == utf8_len(model[i as int].0));
        assert(header_bytes(model.take(i + 1)) == total + name_len + value_len);
        match total.checked_add(name_len) {
            Some(t) => match t.checked_add(value_len) {
                Some(t2) => {
                    total = t2;
                },
                None => {
                    assert(header_bytes(model) > usize::MAX);
                    return None;
                },
            },
            None => {
                assert(header_bytes(model) > usize::MAX);
                return None;
            },
        }
        i = i + 1;
    }
    assert(model.take(n as int) == model);
    Some(total)
}

/// The body size that the `Content-Length` header of a map announces, or
/// nothing where its value is not printable.
fn content_length(headers: &HeaderMap<HeaderValue>) -> (r: Option<usize>)
    ensures
        size_value(r) == content_length_of(header_entries(*headers)),
{
    let value = header_map_get(headers, "content-length");
    match value {
        None => {
            assert(content_length_of(header_entries(*headers)) == Some(0nat));
            Some(0)
        },
        Some(v) => {
            assert(lookup(header_entries(*headers), "content-length"@) == Some(v@));
            let text = header_value_to_str(&v);
            match text {
                None => None,
                Some(t) => {
                    assert(header_value_text(v@) == Some(t@));
                    let parsed = parse_usize(t.as_str());
                    match parsed {
                        Some(n) => Some(n),
                        None => Some(0),
                    }
                },
            }
        },
    }
}

/// The approximate size of a request, or nothing where the original panics: a
/// `Content-Length` value that is not printable, or a size over `usize::MAX`.
pub fn checked_approximate_request_size(head: &RequestHead) -> (r: Option<usize>)
    ensures
        size_value(r) == fitting(request_size_of(*head)),
{
    let body = match content_length(&head.headers) {
        Some(b) => b,
        None => {
            return None;
        },
    };
    let headers = match checked_header_bytes(&head.headers) {
        Some(h) => h,
        None => {
            return None;
        },
    };
    let path = head.path.as_str().as_bytes().len();
    let method = head.method.as_str().as_bytes().len();
    let host = match &head.authority {
        Some(a) => a.host.as_str().as_bytes().len(),
        None => 0,
    };
    assert(path == utf8_len(head.path@));
    assert(method == utf8_len(head.method@));
    let mut total: usize = path;
    match total.checked_add(method) {
        Some(t) => total = t,
        None => return None,
    }
    match total.checked_add(headers) {
        Some(t) => total = t,
        None => return None,
    }
    match total.checked_add(host) {
        Some(t) => total = t,
        None => return None,
    }
    match total.checked_add(body) {
        Some(t) => total = t,
        None => return None,
    }
    Some(total)
}

/// The approximate size of a request: the bytes of its path, its method, its
/// headers' names and values, its URI's host, and the size that its
/// `Content-Length` header announces.
pub fn compute_approximate_request_size(head: &RequestHead) -> (r: usize)
    requires
        fitting(request_size_of(*head)) is Some,
    ensures
        Some(r as nat) == request_size_of(*head),
{
    checked_approximate_request_size(head).unwrap()
}

/// The body size that a request's `Content-Length` header announces (zero when
/// there is none or it is no number).
pub fn compute_approximate_request_body_size(head: &RequestHead) -> (r: usize)
    requires
        content_length_of(head.entries()) is Some,
    ensures
        Some(r as nat) == content_length_of(head.entries()),
{
    content_length(&head.headers).unwrap()
}

/// The approximate size of a response, or nothing where the original panics.
pub fn checked_approximate_response_size(headers: &HeaderMap<HeaderValue>) -> (r: Option<usize>)
    ensures
        size_value(r) == fitting(response_size_of(header_entries(*headers))),
{
    let body = match content_length(headers) {
        Some(b) => b,
        None => {
            return None;
        },
    };
    match checked_header_bytes(headers) {
        Some(h) => h.checked_add(body),
        None => None,
    }
}

/// The approximate size of a response: the bytes of its headers' names and
/// values and the size that its `Content-Length` header announces.
pub fn compute_approximate_response_size(headers: &HeaderMap<HeaderValue>) -> (r: usize)
    requires
        fitting(response_size_of(header_entries(*headers))) is Some,
    ensures
        Some(r as nat) == response_size_of(header_entries(*headers)),
{
    checked_approximate_response_size(headers).unwrap()
}

/// The body size that a response's `Content-Length` header announces.
pub fn compute_approximate_response_body_size(headers: &HeaderMap<HeaderValue>) -> (r: usize)
    requires
        content_length_of(header_entries(*headers)) is Some,
    ensures
        Some(r as nat) == content_length_of(header_entries(*headers)),
{
    content_length(headers).unwrap()
}

/// A request's approximate size is its body size plus its path, method,
/// headers and host; a response's is its body size plus its headers. Each is
/// therefore at least the body size.
pub proof fn lemma_size_covers_body(head: RequestHead, entries: Seq<Entry>)
    ensures
        request_size_of(head) matches Some(n) ==> n == utf8_len(head.path@) + utf8_len(head.method@)
            + header_bytes(head.entries()) + match head.authority {
            Some(a) => utf8_len(a.host@),
            None => 0,
        } + content_length_of(head.entries())->0 && n >= content_length_of(head.entries())->0,
        response_size_of(entries) matches Some(n) ==> n == header_bytes(entries) + content_length_of(
            entries,
        )->0 && n >= content_length_of(entries)->0,
{
}

} // verus!
