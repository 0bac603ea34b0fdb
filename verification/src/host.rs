//! The server address and port of a request, found as the OpenTelemetry HTTP
//! conventions describe: from the `Forwarded` header, `X-Forwarded-Host`, the
//! URI's authority, or the `Host` header.
use crate::headers::{header_text, is_token_char, lookup_text, Entry};
use crate::request::RequestHead;
use crate::text::{
    decimal, find_char, find_either_char, find_str, first_index_of, first_index_of_either,
    first_occurrence, lemma_first_index_of, lemma_first_index_of_either, lemma_first_index_of_is,
    lemma_first_occurrence,
    to_owned_string, trim, trim_str, u16_to_string, parse_unsigned, parse_u16, is_whitespace,
    is_unicode_white_space, leading_white, lemma_leading_white,
};
use vstd::prelude::*;

verus! {

/// `host` split at its first `:` into an address and a port; without a `:`,
/// the whole of it is the address.
pub open spec fn split_host_port(host: Seq<char>) -> (Option<Seq<char>>, Option<Seq<char>>) {
    match first_index_of(host, ':') {
        Some(i) => (Some(host.take(i)), Some(host.skip(i + 1))),
        None => (Some(host), None),
    }
}

/// The value of the first `for=` parameter of a `Forwarded` header: what
/// follows `for=` up to the next `;` or `,`, trimmed.
pub open spec fn forwarded_for(value: Seq<char>) -> Option<Seq<char>> {
    match first_occurrence(value, "for="@) {
        Some(i) => {
            let rest = value.skip(i + "for="@.len());
            let raw = match first_index_of_either(rest, ';', ',') {
                Some(j) => rest.take(j),
                None => rest,
            };
            Some(trim(raw))
        },
        None => None,
    }
}

/// The address and port named by the `for=` parameter of a `Forwarded` header.
pub open spec fn parse_forwarded(value: Seq<char>) -> (Option<Seq<char>>, Option<Seq<char>>) {
    match forwarded_for(value) {
        Some(v) => split_host_port(v),
        None => (None, None),
    }
}

/// The server address and port of a request: the first of the `Forwarded`
/// header, the `X-Forwarded-Host` header, the URI's authority and the `Host`
/// header that is there (and, for a header, printable).
pub open spec fn server_address_and_port(head: RequestHead) -> (Option<Seq<char>>, Option<Seq<char>>) {
    let entries = head.entries();
    match lookup_text(entries, "forwarded"@) {
        Some(t) => parse_forwarded(t),
        None => match lookup_text(entries, "x-forwarded-host"@) {
            Some(t) => split_host_port(t),
            None => match head.authority {
                Some(a) => (
                    Some(a.host@),
                    match a.port {
                        Some(p) => Some(decimal(p as nat)),
                        None => None,
                    },
                ),
                None => match lookup_text(entries, "host"@) {
                    Some(t) => split_host_port(t),
                    None => (None, None),
                },
            },
        },
    }
}

/// Splits `host` at its first `:` into an address and a port.
pub fn split_host_and_port(host: &str) -> (r: (Option<String>, Option<String>))
    ensures
        r.deep_view() == split_host_port(host@),
{
    match find_char(host, ':') {
        Some(i) => {
            proof {
                lemma_first_index_of(host@, ':');
            }
            let n = host.unicode_len();
            let address = to_owned_string(host.substring_char(0, i));
            let port = to_owned_string(host.substring_char(i + 1, n));
            proof {
                assert(address@ =~= host@.take(i as int));
                assert(port@ =~= host@.skip(i + 1));
            }
            (Some(address), Some(port))
        },
        None => (Some(to_owned_string(host)), None),
    }
}

/// Splitting and joining back: when a port is found, address, `:` and port make
/// up the host again, and the address holds no `:`; when none is found, the
/// address is the whole host, which holds no `:`.
pub proof fn lemma_split_host_port_rejoins(host: Seq<char>)
    ensures
        match split_host_port(host) {
            (Some(a), Some(p)) => a + seq![':'] + p == host && !a.contains(':'),
            (Some(a), None) => a == host && !host.contains(':'),
            _ => false,
        },
{
    lemma_first_index_of(host, ':');
    match first_index_of(host, ':') {
        Some(i) => {
            assert(host.take(i) + seq![':'] + host.skip(i + 1) =~= host);
            assert forall|k: int| 0 <= k < host.take(i).len() implies host.take(i)[k] != ':' by {}
        },
        None => {},
    }
}

/// Reads the address and port of the first `for=` parameter of a `Forwarded`
/// header.
pub fn parse_forwarded_header(header_value: &str) -> (r: (Option<String>, Option<String>))
    ensures
        r.deep_view() == parse_forwarded(header_value@),
{
    proof {
        reveal_strlit("for=");
    }
    match find_str(header_value, "for=") {
        Some(i) => {
            proof {
                lemma_first_occurrence(header_value@, "for="@);
            }
            let n = header_value.unicode_len();
            let rest = header_value.substring_char(i + 4, n);
            let raw = match find_either_char(rest, ';', ',') {
                Some(j) => {
                    proof {
                        lemma_first_index_of_either(rest@, ';', ',');
                    }
                    rest.substring_char(0, j)
                },
                None => rest,
            };
            let value = trim_str(raw);
            proof {
                assert(rest@ =~= header_value@.skip(i + "for="@.len()));
                match first_index_of_either(rest@, ';', ',') {
                    Some(j) => {
                        assert(raw@ =~= rest@.take(j));
                    },
                    None => {},
                }
            }
            split_host_and_port(value.as_str())
        },
        None => (None, None),
    }
}

/// Finds the server address and port of a request, as the OpenTelemetry HTTP
/// conventions describe (IPv4 only).
pub fn extract_server_address_and_port(head: &RequestHead) -> (r: (Option<String>, Option<String>))
    ensures
        r.deep_view() == server_address_and_port(*head),
{
    if let Some(forwarded) = header_text(&head.headers, "forwarded") {
        return parse_forwarded_header(forwarded.as_str());
    }
    if let Some(x_forwarded_host) = header_text(&head.headers, "x-forwarded-host") {
        return split_host_and_port(x_forwarded_host.as_str());
    }
    match &head.authority {
        Some(authority) => {
            let port = match authority.port {
                Some(p) => Some(u16_to_string(p)),
                None => None,
            };
            return (Some(authority.host.clone()), port);
        },
        None => {},
    }
    if let Some(host) = header_text(&head.headers, "host") {
        return split_host_and_port(host.as_str());
    }
    (None, None)
}


/// `s` with `pat` taken off its start as many times as it is there
/// (`str::trim_start_matches` with a non-empty pattern).
pub open spec fn strip_prefix_repeatedly(s: Seq<char>, pat: Seq<char>) -> Seq<char>
    decreases s.len(),
{
    if 0 < pat.len() <= s.len() && s.take(pat.len() as int) == pat {
        strip_prefix_repeatedly(s.skip(pat.len() as int), pat)
    } else {
        s
    }
}

/// The number of `"` at the start of `s`.
pub open spec fn leading_quotes(s: Seq<char>) -> nat
    decreases s.len(),
{
    if s.len() > 0 && s[0] == '"' {
        1 + leading_quotes(s.drop_first())
    } else {
        0
    }
}

/// The number of `"` at the end of `s`.
pub open spec fn trailing_quotes(s: Seq<char>) -> nat
    decreases s.len(),
{
    if s.len() > 0 && s.last() == '"' {
        1 + trailing_quotes(s.drop_last())
    } else {
        0
    }
}

/// `s` without its leading and trailing `"` (`str::trim_matches('"')`).
pub open spec fn trim_quotes(s: Seq<char>) -> Seq<char> {
    let t = s.skip(leading_quotes(s) as int);
    t.take(t.len() - trailing_quotes(t))
}

/// Whether `s` starts with `pat`.
pub open spec fn starts_with(s: Seq<char>, pat: Seq<char>) -> bool {
    pat.len() <= s.len() && s.take(pat.len() as int) == pat
}

/// The host named by the first `;`-separated part of a `Forwarded` header that
/// starts, after white space, with `host=`: that part without its leading white
/// space, its `host=` prefixes and its surrounding `"`.
pub open spec fn forwarded_host(value: Seq<char>) -> Option<Seq<char>>
    decreases value.len(),
{
    let part = match first_index_of(value, ';') {
        Some(i) => value.take(i),
        None => value,
    };
    let trimmed = part.skip(leading_white(part) as int);
    if starts_with(trimmed, "host="@) {
        Some(trim_quotes(strip_prefix_repeatedly(trimmed, "host="@)))
    } else {
        match first_index_of(value, ';') {
            Some(i) => if 0 <= i < value.len() {
                forwarded_host(value.skip(i + 1))
            } else {
                None
            },
            None => None,
        }
    }
}

/// The host a server request names, for the address and port that the
/// instrumentation resolves: the host of a `Forwarded` header, or else the text
/// of the first printable `X-Forwarded-Host`, `:authority` and `Host` header.
pub open spec fn server_host_candidate_of(entries: Seq<Entry>) -> Option<Seq<char>> {
    let forwarded = match lookup_text(entries, "forwarded"@) {
        Some(t) => forwarded_host(t),
        None => None,
    };
    if forwarded is Some {
        forwarded
    } else if lookup_text(entries, "x-forwarded-host"@) is Some {
        lookup_text(entries, "x-forwarded-host"@)
    } else if lookup_text(entries, ":authority"@) is Some {
        lookup_text(entries, ":authority"@)
    } else {
        lookup_text(entries, "host"@)
    }
}

/// The address and port of a host string, given what resolving `{host}:80`
/// gave: the first resolved address and its port; when nothing was resolved,
/// the host split at its first `:`, with the rest read as a port number.
pub open spec fn host_address_and_port(host: Seq<char>, resolved: Option<(Seq<char>, u16)>) -> (
    Option<Seq<char>>,
    Option<u16>,
) {
    match resolved {
        Some((ip, port)) => (Some(ip), Some(port)),
        None => match first_index_of(host, ':') {
            Some(i) => (
                Some(host.take(i)),
                match parse_unsigned(host.skip(i + 1), u16::MAX as nat) {
                    Some(p) => Some(p as u16),
                    None => None,
                },
            ),
            None => (Some(host), None),
        },
    }
}

fn strip_host_prefixes(part: &str) -> (r: String)
    ensures
        r@ == strip_prefix_repeatedly(part@, "host="@),
{
    proof {
        reveal_strlit("host=");
    }
    let n = part.unicode_len();
    let mut pos: usize = 0;
    assert(part@.skip(0) =~= part@);
    while n - pos >= 5 && matches_host_at(part, n, pos)
        invariant
            n == part@.len(),
            0 <= pos <= n,
            strip_prefix_repeatedly(part@, "host="@) == strip_prefix_repeatedly(part@.skip(pos as int), "host="@),
        decreases n - pos,
    {
        proof {
            let t = part@.skip(pos as int);
            assert(t.take(5) =~= part@.subrange(pos as int, pos + 5));
            assert(t.skip(5) =~= part@.skip(pos + 5));
        }
        pos = pos + 5;
    }
    proof {
        let t = part@.skip(pos as int);
        if pos + 5 <= n {
            assert(t.take(5) =~= part@.subrange(pos as int, pos + 5));
        }
    }
    to_owned_string(part.substring_char(pos, n))
}

fn matches_host_at(s: &str, n: usize, pos: usize) -> (r: bool)
    requires
        n == s@.len(),
        pos + 5 <= n,
    ensures
        r == (s@.subrange(pos as int, pos + 5) == "host="@),
{
    proof {
        reveal_strlit("host=");
    }
    let r = s.get_char(pos) == 'h' && s.get_char(pos + 1) == 'o' && s.get_char(pos + 2) == 's'
        && s.get_char(pos + 3) == 't' && s.get_char(pos + 4) == '=';
    proof {
        if r {
            assert(s@.subrange(pos as int, pos + 5) =~= "host="@);
        } else {
            if s@.subrange(pos as int, pos + 5) == "host="@ {
                assert(s@.subrange(pos as int, pos + 5)[0] == 'h');
                assert(s@.subrange(pos as int, pos + 5)[1] == 'o');
                assert(s@.subrange(pos as int, pos + 5)[2] == 's');
                assert(s@.subrange(pos as int, pos + 5)[3] == 't');
                assert(s@.subrange(pos as int, pos + 5)[4] == '=');
            }
        }
    }
    r
}

proof fn lemma_leading_quotes(s: Seq<char>, k: int)
    requires
        0 <= k <= s.len(),
        forall|j: int| 0 <= j < k ==> #[trigger] s[j] == '"',
        k == s.len() || s[k] != '"',
    ensures
        leading_quotes(s) == k,
    decreases k,
{
    if k > 0 {
        assert forall|j: int| 0 <= j < k - 1 implies #[trigger] s.drop_first()[j] == '"' by {
            assert(s.drop_first()[j] == s[j + 1]);
        }
        if k < s.len() {
            assert(s.drop_first()[k - 1] == s[k]);
        }
        lemma_leading_quotes(s.drop_first(), k - 1);
    }
}

proof fn lemma_trailing_quotes(s: Seq<char>, k: int)
    requires
        0 <= k <= s.len(),
        forall|j: int| s.len() - k <= j < s.len() ==> #[trigger] s[j] == '"',
        k == s.len() || s[s.len() - k - 1] != '"',
    ensures
        trailing_quotes(s) == k,
    decreases k,
{
    if k > 0 {
        assert forall|j: int| s.drop_last().len() - (k - 1) <= j < s.drop_last().len() implies #[trigger] s.drop_last()[j]
            == '"' by {
            assert(s.drop_last()[j] == s[j]);
        }
        if k < s.len() {
            assert(s.drop_last()[s.drop_last().len() - (k - 1) - 1] == s[s.len() - k - 1]);
        }
        lemma_trailing_quotes(s.drop_last(), k - 1);
    }
}

fn trim_quotes_str(s: &str) -> (r: String)
    ensures
        r@ == trim_quotes(s@),
{
    let n = s.unicode_len();
    let mut a: usize = 0;
    while a < n && s.get_char(a) == '"'
        invariant
            n == s@.len(),
            0 <= a <= n,
            forall|j: int| 0 <= j < a ==> #[trigger] s@[j] == '"',
        decreases n - a,
    {
        a = a + 1;
    }
    proof {
        lemma_leading_quotes(s@, a as int);
    }
    let mut b: usize = n;
    while b > a && s.get_char(b - 1) == '"'
        invariant
            n == s@.len(),
            0 <= a <= b <= n,
            forall|j: int| b <= j < n ==> #[trigger] s@[j] == '"',
        decreases b,
    {
        b = b - 1;
    }
    let ghost t = s@.skip(a as int);
    proof {
        assert forall|j: int| t.len() - (n - b) <= j < t.len() implies #[trigger] t[j] == '"' by {
            assert(t[j] == s@[j + a]);
        }
        if b > a {
            assert(t[t.len() - (n - b) - 1] == s@[b - 1]);
        }
        lemma_trailing_quotes(t, (n - b) as int);
        assert(t.take(t.len() - (n - b)) =~= s@.subrange(a as int, b as int));
    }
    to_owned_string(s.substring_char(a, b))
}

/// Whether `s` starts with `host=`.
fn starts_with_host(s: &str) -> (r: bool)
    ensures
        r == starts_with(s@, "host="@),
{
    proof {
        reveal_strlit("host=");
    }
    let n = s.unicode_len();
    if n < 5 {
        return false;
    }
    let r = matches_host_at(s, n, 0);
    proof {
        assert(s@.subrange(0, 5) =~= s@.take(5));
    }
    r
}

/// `str::trim_start`: `s` without its leading white space.
pub fn trim_start_str(s: &str) -> (r: String)
    ensures
        r@ == s@.skip(leading_white(s@) as int),
{
    let n = s.unicode_len();
    let mut a: usize = 0;
    while a < n && is_whitespace(s.get_char(a))
        invariant
            n == s@.len(),
            0 <= a <= n,
            forall|j: int| 0 <= j < a ==> is_unicode_white_space(#[trigger] s@[j]),
        decreases n - a,
    {
        a = a + 1;
    }
    proof {
        lemma_leading_white(s@, a as int);
        assert(s@.subrange(a as int, n as int) =~= s@.skip(a as int));
    }
    to_owned_string(s.substring_char(a, n))
}

/// Finds the host of the first `host=` part of a `Forwarded` header.
pub fn forwarded_host_param(value: &str) -> (r: Option<String>)
    ensures
        r.deep_view() == forwarded_host(value@),
{
    let n = value.unicode_len();
    let mut pos: usize = 0;
    assert(value@.skip(0) =~= value@);
    while pos <= n
        invariant
            n == value@.len(),
            0 <= pos <= n,
            forwarded_host(value@) == forwarded_host(value@.skip(pos as int)),
        decreases n - pos,
    {
        let rest = value.substring_char(pos, n);
        assert(rest@ =~= value@.skip(pos as int));
        let semicolon = find_char(rest, ';');
        proof {
            lemma_first_index_of(rest@, ';');
        }
        let part = match semicolon {
            Some(i) => rest.substring_char(0, i),
            None => rest,
        };
        proof {
            match semicolon {
                Some(i) => {
                    assert(part@ =~= rest@.take(i as int));
                },
                None => {},
            }
        }
        let trimmed = trim_start_str(part);
        if starts_with_host(trimmed.as_str()) {
            let stripped = strip_host_prefixes(trimmed.as_str());
            return Some(trim_quotes_str(stripped.as_str()));
        }
        match semicolon {
            Some(i) => {
                proof {
                    assert(rest@.skip(i + 1) =~= value@.skip(pos + i + 1));
                }
                pos = pos + i + 1;
            },
            None => {
                return None;
            },
        }
    }
    None
}

/// The host named by a request's headers that the server address is resolved
/// from.
pub fn server_host_candidate(head: &RequestHead) -> (r: Option<String>)
    ensures
        r.deep_view() == server_host_candidate_of(head.entries()),
{
    if let Some(forwarded) = header_text(&head.headers, "forwarded") {
        let host = forwarded_host_param(forwarded.as_str());
        if host.is_some() {
            return host;
        }
    }
    let x_forwarded_host = header_text(&head.headers, "x-forwarded-host");
    if x_forwarded_host.is_some() {
        return x_forwarded_host;
    }
    let authority = header_text(&head.headers, ":authority");
    if authority.is_some() {
        return authority;
    }
    header_text(&head.headers, "host")
}

/// The address and port of a host string, given the first address that
/// resolving `{host}:80` gave, if any.
pub fn parse_host_string(host: &str, resolved: Option<(String, u16)>) -> (r: (Option<String>, Option<u16>))
    ensures
        r.deep_view() == host_address_and_port(host@, resolved.deep_view()),
{
    match resolved {
        Some((ip, port)) => (Some(ip), Some(port)),
        None => match find_char(host, ':') {
            Some(i) => {
                proof {
                    lemma_first_index_of(host@, ':');
                }
                let n = host.unicode_len();
                let address = to_owned_string(host.substring_char(0, i));
                let port_text = host.substring_char(i + 1, n);
                let port = parse_u16(port_text);
                proof {
                    assert(address@ =~= host@.take(i as int));
                    assert(port_text@ =~= host@.skip(i + 1));
                }
                (Some(address), port)
            },
            None => (Some(to_owned_string(host)), None),
        },
    }
}

/// The server address and port of a request, following the OpenTelemetry HTTP
/// conventions, given what resolving the candidate host gave.
pub fn extract_server_conn_info(head: &RequestHead, resolved: Option<(String, u16)>) -> (r: (
    Option<String>,
    Option<u16>,
))
    ensures
        r.deep_view() == match server_host_candidate_of(head.entries()) {
            Some(host) => host_address_and_port(host, resolved.deep_view()),
            None => (None, None),
        },
{
    match server_host_candidate(head) {
        Some(host) => parse_host_string(host.as_str(), resolved),
        None => (None, None),
    }
}

/// The `:authority` pseudo-header is no header name, so a header map never
/// holds it, whatever its entries.
pub proof fn lemma_authority_pseudo_header_never_found(entries: Seq<Entry>)
    ensures
        lookup_text(entries, ":authority"@) is None,
{
    reveal_strlit(":authority");
    assert(!is_token_char(":authority"@[0]));
}

/// The order in which a server span's address is looked for: a printable
/// `Forwarded` header decides it; without one, a printable `X-Forwarded-Host`
/// header is split at its first `:`, whatever the URI's authority; without
/// either, the URI's authority gives its host and port; only then the `Host`
/// header is split; and with none of them there is no address.
pub proof fn lemma_server_address_lookup_order(head: RequestHead)
    ensures
        lookup_text(head.entries(), "forwarded"@) matches Some(f) ==> server_address_and_port(head)
            == parse_forwarded(f),
        lookup_text(head.entries(), "forwarded"@) is None ==> (lookup_text(head.entries(), "x-forwarded-host"@) matches Some(t)
            ==> (server_address_and_port(head).0 matches Some(a) && match server_address_and_port(head).1 {
            Some(p) => a + seq![':'] + p == t && !a.contains(':'),
            None => a == t && !t.contains(':'),
        })),
        lookup_text(head.entries(), "forwarded"@) is None && lookup_text(head.entries(), "x-forwarded-host"@) is None
            ==> (head.authority matches Some(a) ==> server_address_and_port(head).0 == Some(a.host@)
            && server_address_and_port(head).1 == match a.port {
            Some(p) => Some(decimal(p as nat)),
            None => None,
        }),
        lookup_text(head.entries(), "forwarded"@) is None && lookup_text(head.entries(), "x-forwarded-host"@) is None
            && head.authority is None ==> (lookup_text(head.entries(), "host"@) matches Some(t) ==> (
        server_address_and_port(head).0 matches Some(a) && match server_address_and_port(head).1 {
            Some(p) => a + seq![':'] + p == t && !a.contains(':'),
            None => a == t && !t.contains(':'),
        })),
        lookup_text(head.entries(), "forwarded"@) is None && lookup_text(head.entries(), "x-forwarded-host"@) is None
            && head.authority is None && lookup_text(head.entries(), "host"@) is None ==> server_address_and_port(head)
            == (None::<Seq<char>>, None::<Seq<char>>),
{
    if let Some(t) = lookup_text(head.entries(), "x-forwarded-host"@) {
        lemma_split_host_port_rejoins(t);
    }
    if let Some(t) = lookup_text(head.entries(), "host"@) {
        lemma_split_host_port_rejoins(t);
    }
}

/// The order in which the axum span's server host is looked for: the host of a
/// printable `Forwarded` header's `host=` part comes first, whatever the other
/// headers hold; without one, a printable `X-Forwarded-Host` header; then the
/// `Host` header (the `:authority` pseudo-header is never found).
pub proof fn lemma_server_host_lookup_order(entries: Seq<Entry>)
    ensures
        (lookup_text(entries, "forwarded"@) matches Some(f) && forwarded_host(f) is Some) ==> server_host_candidate_of(
            entries,
        ) == forwarded_host(lookup_text(entries, "forwarded"@)->0),
        !(lookup_text(entries, "forwarded"@) matches Some(f) && forwarded_host(f) is Some) ==> server_host_candidate_of(
            entries,
        ) == if lookup_text(entries, "x-forwarded-host"@) is Some {
            lookup_text(entries, "x-forwarded-host"@)
        } else {
            lookup_text(entries, "host"@)
        },
{
    lemma_authority_pseudo_header_never_found(entries);
}

/// A `Forwarded` value whose first part is `host=` and a host names that host:
/// for a host without `;`, `"` or a leading `host=`, followed by nothing or by
/// further `;`-separated parts.
pub proof fn lemma_forwarded_host_part(h: Seq<char>, tail: Seq<char>)
    requires
        !h.contains(';'),
        !h.contains('"'),
        !starts_with(h, "host="@),
        tail.len() == 0 || tail[0] == ';',
    ensures
        forwarded_host("host="@ + h + tail) == Some(h),
{
    reveal_strlit("host=");
    let v = "host="@ + h + tail;
    let part = "host="@ + h;
    assert forall|j: int| 0 <= j < 5 + h.len() implies v[j] != ';' by {
        if j >= 5 {
            assert(v[j] == h[j - 5]);
        }
    }
    if tail.len() > 0 {
        assert(v[5 + h.len() as int] == ';');
        lemma_first_index_of_is(v, ';', 5 + h.len() as int);
        assert(v.take(5 + h.len() as int) =~= part);
    } else {
        lemma_first_index_of(v, ';');
        assert(v =~= part);
    }
    assert(!is_unicode_white_space(part[0]));
    assert(leading_white(part) == 0);
    assert(part.skip(0) =~= part);
    assert(part.take(5) =~= "host="@);
    assert(part.skip(5) =~= h);
    assert(strip_prefix_repeatedly(part, "host="@) == strip_prefix_repeatedly(h, "host="@));
    if h.len() > 0 {
        assert(h[0] != '"');
        assert(h.last() != '"');
    }
    assert(leading_quotes(h) == 0);
    assert(h.skip(0) =~= h);
    assert(trailing_quotes(h) == 0);
    assert(h.take(h.len() as int) =~= h);
}

/// A part of a `Forwarded` value that does not name a host is passed over: the
/// host is the one that the parts after its `;` name.
pub proof fn lemma_forwarded_host_skips_part(pre: Seq<char>, rest: Seq<char>)
    requires
        !pre.contains(';'),
        !starts_with(pre.skip(leading_white(pre) as int), "host="@),
    ensures
        forwarded_host(pre + seq![';'] + rest) == forwarded_host(rest),
{
    let v = pre + seq![';'] + rest;
    assert forall|j: int| 0 <= j < pre.len() implies v[j] != ';' by {
        assert(v[j] == pre[j]);
    }
    lemma_first_index_of_is(v, ';', pre.len() as int);
    assert(v.take(pre.len() as int) =~= pre);
    assert(v.skip(pre.len() as int + 1) =~= rest);
}

} // verus!
