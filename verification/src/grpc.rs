//! gRPC server spans, following the OpenTelemetry RPC conventions: the service
//! and method named by the request path, and the connection's endpoints.
use crate::request::{PeerAddr, RequestHead};
use crate::text::{first_index_of, lemma_first_index_of, lemma_first_index_of_is, str_equal, to_owned_string};
use vstd::prelude::*;

verus! {

/// `s` without its leading `/`.
pub open spec fn skip_slashes(s: Seq<char>) -> Seq<char>
    decreases s.len(),
{
    if s.len() > 0 && s[0] == '/' {
        skip_slashes(s.drop_first())
    } else {
        s
    }
}

/// The first non-empty `/`-separated segment of a path and what follows it.
pub open spec fn first_segment(s: Seq<char>) -> Option<(Seq<char>, Seq<char>)> {
    let t = skip_slashes(s);
    if t.len() == 0 {
        None
    } else {
        match first_index_of(t, '/') {
            Some(i) => Some((t.take(i), t.skip(i))),
            None => Some((t, seq![])),
        }
    }
}

/// The service and the method that a gRPC path names: its first two non-empty
/// `/`-separated segments, each empty when missing.
pub open spec fn service_and_method(path: Seq<char>) -> (Seq<char>, Seq<char>) {
    match first_segment(path) {
        Some((service, rest)) => (
            service,
            match first_segment(rest) {
                Some((method, _)) => method,
                None => seq![],
            },
        ),
        None => (seq![], seq![]),
    }
}

/// The service that gRPC server reflection answers on, which is not traced.
pub open spec fn reflection_service() -> Seq<char> {
    "grpc.reflection.v1.ServerReflection"@
}

/// The textual address of an endpoint, if there is one.
pub open spec fn peer_ip(peer: Option<PeerAddr>) -> Option<Seq<char>> {
    match peer {
        Some(p) => Some(p.ip@),
        None => None,
    }
}

/// The port of an endpoint, if there is one.
pub open spec fn peer_port(peer: Option<PeerAddr>) -> Option<u16> {
    match peer {
        Some(p) => Some(p.port),
        None => None,
    }
}

/// Finds the first non-empty segment of `s` from character `from` on, as the
/// character range it takes.
fn next_segment(s: &str, n: usize, from: usize) -> (r: Option<(usize, usize)>)
    requires
        n == s@.len(),
        from <= n,
    ensures
        match first_segment(s@.skip(from as int)) {
            None => r is None,
            Some((seg, rest)) => r matches Some((a, b)) && from <= a < b <= n && s@.subrange(a as int, b as int)
                == seg && s@.skip(b as int) == rest,
        },
{
    let mut a = from;
    while a < n && s.get_char(a) == '/'
        invariant
            n == s@.len(),
            from <= a <= n,
            skip_slashes(s@.skip(from as int)) == skip_slashes(s@.skip(a as int)),
        decreases n - a,
    {
        proof {
            assert(s@.skip(a as int).drop_first() =~= s@.skip(a + 1));
            assert(s@.skip(a as int)[0] == s@[a as int]);
        }
        a = a + 1;
    }
    let ghost t = s@.skip(a as int);
    proof {
        if a < n {
            assert(t[0] == s@[a as int]);
        }
        assert(skip_slashes(t) == t);
    }
    if a == n {
        return None;
    }
    let mut b = a;
    while b < n && s.get_char(b) != '/'
        invariant
            n == s@.len(),
            a <= b <= n,
            forall|j: int| a <= j < b ==> s@[j] != '/',
        decreases n - b,
    {
        b = b + 1;
    }
    proof {
        assert forall|j: int| 0 <= j < b - a implies t[j] != '/' by {
            assert(t[j] == s@[a + j]);
        }
        if b < n {
            assert(t[b - a] == s@[b as int]);
            lemma_first_index_of_is(t, '/', b - a);
            assert(t.take(b - a) =~= s@.subrange(a as int, b as int));
            assert(t.skip(b - a) =~= s@.skip(b as int));
        } else {
            lemma_first_index_of(t, '/');
            match first_index_of(t, '/') {
                Some(k) => {
                    assert(t[k] != '/');
                },
                None => {},
            }
            assert(t =~= s@.subrange(a as int, b as int));
            assert(s@.skip(b as int) =~= seq![]);
        }
    }
    Some((a, b))
}

/// The service and the method named by a gRPC request path.
pub fn extract_service_method(path: &str) -> (r: (String, String))
    ensures
        (r.0@, r.1@) == service_and_method(path@),
{
    let n = path.unicode_len();
    assert(path@.skip(0) =~= path@);
    match next_segment(path, n, 0) {
        Some((a, b)) => {
            let service = to_owned_string(path.substring_char(a, b));
            let method = match next_segment(path, n, b) {
                Some((c, d)) => to_owned_string(path.substring_char(c, d)),
                None => String::new(),
            };
            (service, method)
        },
        None => (String::new(), String::new()),
    }
}

/// Whether a service is the one gRPC server reflection answers on.
pub fn is_reflection_service(service: &str) -> (r: bool)
    ensures
        r == (service@ == reflection_service()),
{
    str_equal(service, "grpc.reflection.v1.ServerReflection")
}

/// The fields of a gRPC server span.
pub struct GrpcSpanFields {
    pub service: String,
    pub method: String,
    pub server_address: Option<String>,
    pub server_port: Option<u16>,
    pub client_address: Option<String>,
    pub client_port: Option<u16>,
    /// The span's name: `<service>/<method>`.
    pub otel_name: String,
}

/// The fields of the span of a gRPC request, given the connection's local and
/// remote endpoints; nothing for the reflection service, which is not traced.
pub fn grpc_span_fields(head: &RequestHead, local: Option<PeerAddr>, remote: Option<PeerAddr>) -> (r:
    Option<GrpcSpanFields>)
    ensures
        ({
            let (service, method) = service_and_method(head.path@);
            match r {
                None => service == reflection_service(),
                Some(f) => {
                    &&& service != reflection_service()
                    &&& f.service@ == service
                    &&& f.method@ == method
                    &&& f.otel_name@ == service + "/"@ + method
                    &&& f.server_address.deep_view() == peer_ip(local)
                    &&& f.server_port == peer_port(local)
                    &&& f.client_address.deep_view() == peer_ip(remote)
                    &&& f.client_port == peer_port(remote)
                },
            }
        }),
{
    let (service, method) = extract_service_method(head.path.as_str());
    if is_reflection_service(service.as_str()) {
        return None;
    }
    let mut otel_name = service.clone();
    otel_name.append("/");
    otel_name.append(method.as_str());
    let (server_address, server_port) = match local {
        Some(p) => (Some(p.ip), Some(p.port)),
        None => (None, None),
    };
    let (client_address, client_port) = match remote {
        Some(p) => (Some(p.ip), Some(p.port)),
        None => (None, None),
    };
    Some(GrpcSpanFields { service, method, server_address, server_port, client_address, client_port, otel_name })
}

/// The service and the method read from any request path hold no `/`.
pub proof fn lemma_segments_have_no_slash(path: Seq<char>)
    ensures
        !service_and_method(path).0.contains('/'),
        !service_and_method(path).1.contains('/'),
{
    lemma_first_segment_no_slash(path);
    match first_segment(path) {
        Some((_, rest)) => lemma_first_segment_no_slash(rest),
        None => {},
    }
}

proof fn lemma_first_segment_no_slash(s: Seq<char>)
    ensures
        first_segment(s) matches Some((seg, _)) ==> !seg.contains('/'),
{
    let t = skip_slashes(s);
    lemma_first_index_of(t, '/');
}

} // verus!
