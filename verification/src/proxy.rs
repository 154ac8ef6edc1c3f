//! Reverse-proxy decisions: which backend port serves each route, which
//! upstream response headers are not forwarded, and which master ports are
//! tried when binding.

use vstd::prelude::*;

use crate::process::Role;
use crate::text::{append_decimal, eq_ignore_ascii_case, eq_ignore_case, nat_decimal};

verus! {

/// How many ports, starting at the requested one, are tried when the
/// requested port is busy and auto-increment is on.
pub const MAX_PORT_INCREMENTS: u16 = 50;

/// The backend port currently serving each route; `None` until a model of
/// that role is running.
#[derive(Debug, Default)]
pub struct Routing {
    pub chat_port: Option<u16>,
    pub embedding_port: Option<u16>,
}

/// The port serving `role`.
pub open spec fn routed(r: Routing, role: Role) -> Option<u16> {
    match role {
        Role::Chat => r.chat_port,
        Role::Embedding => r.embedding_port,
    }
}

/// `r` with `role` routed to `port`.
pub open spec fn spec_set_port(r: Routing, role: Role, port: u16) -> Routing {
    match role {
        Role::Chat => Routing { chat_port: Some(port), embedding_port: r.embedding_port },
        Role::Embedding => Routing { chat_port: r.chat_port, embedding_port: Some(port) },
    }
}

/// `r` with the route of `role` dropped if it still points at `port`.
pub open spec fn spec_clear_port(r: Routing, role: Role, port: u16) -> Routing {
    if routed(r, role) == Some(port) {
        match role {
            Role::Chat => Routing { chat_port: None, embedding_port: r.embedding_port },
            Role::Embedding => Routing { chat_port: r.chat_port, embedding_port: None },
        }
    } else {
        r
    }
}

impl Routing {
    /// No backend on either route.
    pub fn new() -> (r: Routing)
        ensures
            r.chat_port is None,
            r.embedding_port is None,
    {
        Routing { chat_port: None, embedding_port: None }
    }

    /// The port serving `role`.
    pub fn port_for(&self, role: Role) -> (r: Option<u16>)
        ensures
            r == routed(*self, role),
    {
        match role {
            Role::Chat => self.chat_port,
            Role::Embedding => self.embedding_port,
        }
    }

    /// Routes `role` to `port`; the other route is unchanged.
    pub fn set_port(&mut self, role: Role, port: u16)
        ensures
            *final(self) == spec_set_port(*old(self), role, port),
    {
        match role {
            Role::Chat => self.chat_port = Some(port),
            Role::Embedding => self.embedding_port = Some(port),
        }
    }

    /// Stops routing `role`, but only if it still points at `port` (a newer
    /// backend of the same role keeps its route). The other route is
    /// unchanged.
    pub fn clear_port(&mut self, role: Role, port: u16)
        ensures
            *final(self) == spec_clear_port(*old(self), role, port),
    {
        match role {
            Role::Chat => {
                if self.chat_port == Some(port) {
                    self.chat_port = None;
                }
            },
            Role::Embedding => {
                if self.embedding_port == Some(port) {
                    self.embedding_port = None;
                }
            },
        }
    }
}

/// Hop-by-hop headers (RFC 7230 §6.1, plus `content-length`, since the
/// forwarded body is streamed with its own framing).
pub open spec fn hop_by_hop_names() -> Seq<Seq<char>> {
    seq![
        "connection"@,
        "keep-alive"@,
        "proxy-authenticate"@,
        "proxy-authorization"@,
        "te"@,
        "trailer"@,
        "transfer-encoding"@,
        "upgrade"@,
        "content-length"@,
    ]
}

/// Whether a response header is hop-by-hop (compared ignoring ASCII case)
/// and so is not copied to the client.
pub fn is_hop_by_hop(name: &str) -> (r: bool)
    ensures
        r == exists|i: int| 0 <= i < hop_by_hop_names().len() && eq_ignore_ascii_case(#[trigger] hop_by_hop_names()[i], name@),
        r == spec_is_hop_by_hop(name@),
{
    let names: [&str; 9] = [
        "connection",
        "keep-alive",
        "proxy-authenticate",
        "proxy-authorization",
        "te",
        "trailer",
        "transfer-encoding",
        "upgrade",
        "content-length",
    ];
    let mut i: usize = 0;
    while i < 9
        invariant
            i <= 9,
            forall|k: int| 0 <= k < 9 ==> (#[trigger] names@[k])@ == hop_by_hop_names()[k],
            forall|k: int| 0 <= k < i ==> !eq_ignore_ascii_case(#[trigger] hop_by_hop_names()[k], name@),
        decreases 9 - i,
    {
        if eq_ignore_case(names[i], name) {
            proof {
                assert(eq_ignore_ascii_case(hop_by_hop_names()[i as int], name@) ==> eq_ignore_ascii_case(name@, hop_by_hop_names()[i as int]));
            }
            return true;
        }
        i = i + 1;
    }
    false
}

/// The response headers that are not copied to the client: a header whose
/// ensures of [`is_hop_by_hop`] holds.
pub open spec fn spec_is_hop_by_hop(name: Seq<char>) -> bool {
    exists|i: int| 0 <= i < hop_by_hop_names().len() && eq_ignore_ascii_case(#[trigger] hop_by_hop_names()[i], name)
}

/// The hop-by-hop headers of RFC 7230 §6.1 (`Connection`, `Keep-Alive`,
/// `Proxy-Authenticate`, `Proxy-Authorization`, `TE`, `Trailer`,
/// `Transfer-Encoding`, `Upgrade`) and `Content-Length` are never copied to
/// the client, whatever the ASCII case of the name.
pub proof fn law_rfc7230_headers_are_hop_by_hop(name: Seq<char>)
    ensures
        eq_ignore_ascii_case(name, "connection"@) ==> spec_is_hop_by_hop(name),
        eq_ignore_ascii_case(name, "keep-alive"@) ==> spec_is_hop_by_hop(name),
        eq_ignore_ascii_case(name, "proxy-authenticate"@) ==> spec_is_hop_by_hop(name),
        eq_ignore_ascii_case(name, "proxy-authorization"@) ==> spec_is_hop_by_hop(name),
        eq_ignore_ascii_case(name, "te"@) ==> spec_is_hop_by_hop(name),
        eq_ignore_ascii_case(name, "trailer"@) ==> spec_is_hop_by_hop(name),
        eq_ignore_ascii_case(name, "transfer-encoding"@) ==> spec_is_hop_by_hop(name),
        eq_ignore_ascii_case(name, "upgrade"@) ==> spec_is_hop_by_hop(name),
        eq_ignore_ascii_case(name, "content-length"@) ==> spec_is_hop_by_hop(name),
{
    let h = hop_by_hop_names();
    assert(h[0] == "connection"@);
    assert(h[1] == "keep-alive"@);
    assert(h[2] == "proxy-authenticate"@);
    assert(h[3] == "proxy-authorization"@);
    assert(h[4] == "te"@);
    assert(h[5] == "trailer"@);
    assert(h[6] == "transfer-encoding"@);
    assert(h[7] == "upgrade"@);
    assert(h[8] == "content-length"@);
    assert forall|k: int| 0 <= k < 9 && eq_ignore_ascii_case(name, #[trigger] h[k]) implies eq_ignore_ascii_case(h[k], name) by {
    }
}

/// The ports tried, in order, when binding the master port: just the
/// requested one, or with auto-increment up to `MAX_PORT_INCREMENTS`
/// consecutive ports, stopping before the port number would overflow.
pub open spec fn spec_candidate_ports(requested: u16, auto_increment: bool) -> Seq<u16> {
    let attempts: int = if auto_increment { MAX_PORT_INCREMENTS as int } else { 1 };
    let count: int = if requested + attempts - 1 <= u16::MAX { attempts } else { u16::MAX - requested + 1 };
    Seq::new(count as nat, |k: int| (requested + k) as u16)
}

/// The candidate master ports, in the order they are tried (see
/// [`spec_candidate_ports`]).
pub fn candidate_ports(requested: u16, auto_increment: bool) -> (r: Vec<u16>)
    ensures
        r@ == spec_candidate_ports(requested, auto_increment),
{
    let attempts: u16 = if auto_increment { MAX_PORT_INCREMENTS } else { 1 };
    let mut r: Vec<u16> = Vec::new();
    let mut offset: u16 = 0;
    while offset < attempts && requested <= u16::MAX - offset
        invariant
            attempts == (if auto_increment { MAX_PORT_INCREMENTS } else { 1u16 }),
            offset <= attempts,
            requested + offset - 1 <= u16::MAX,
            r@ =~= Seq::new(offset as nat, |k: int| (requested + k) as u16),
        decreases attempts - offset,
    {
        r.push(requested + offset);
        offset = offset + 1;
    }
    proof {
        assert(r@ =~= spec_candidate_ports(requested, auto_increment));
    }
    r
}


/// The other role.
pub open spec fn other_role(role: Role) -> Role {
    match role {
        Role::Chat => Role::Embedding,
        Role::Embedding => Role::Chat,
    }
}

/// Routing a role never touches the other route, and reads back the port.
pub proof fn law_set_then_read(r: Routing, role: Role, port: u16)
    ensures
        routed(spec_set_port(r, role, port), role) == Some(port),
        routed(spec_set_port(r, role, port), other_role(role)) == routed(r, other_role(role)),
{
}

/// When the backend that was routed exits, its route is dropped and the
/// other route stays.
pub proof fn law_clear_after_set(r: Routing, role: Role, port: u16)
    ensures
        routed(spec_clear_port(spec_set_port(r, role, port), role, port), role) is None,
        routed(spec_clear_port(spec_set_port(r, role, port), role, port), other_role(role)) == routed(
            r,
            other_role(role),
        ),
{
}

/// A backend that exits after a newer one of the same role took over
/// leaves the newer route in place.
pub proof fn law_stale_clear_keeps_newer(r: Routing, role: Role, old_port: u16, new_port: u16)
    requires
        old_port != new_port,
    ensures
        spec_clear_port(spec_set_port(r, role, new_port), role, old_port) == spec_set_port(r, role, new_port),
{
}

/// Without auto-increment only the requested port is tried; with it, up
/// to [`MAX_PORT_INCREMENTS`] consecutive ports starting at the requested
/// one, never past the largest port.
pub proof fn law_candidate_ports(requested: u16, auto_increment: bool)
    ensures
        spec_candidate_ports(requested, auto_increment).len() >= 1,
        spec_candidate_ports(requested, auto_increment)[0] == requested,
        !auto_increment ==> spec_candidate_ports(requested, auto_increment).len() == 1,
        spec_candidate_ports(requested, auto_increment).len() <= MAX_PORT_INCREMENTS,
        forall|k: int|
            0 <= k < spec_candidate_ports(requested, auto_increment).len() ==> #[trigger] spec_candidate_ports(
                requested,
                auto_increment,
            )[k] == requested + k,
{
}


/// The answer body when no model serves the requested route (sent with
/// status 503).
pub const NO_BACKEND_BODY: &'static str = "{\"error\":{\"message\":\"No model is currently running on this route.\"}}";

/// The answer body for a path the proxy does not serve (sent with status
/// 404).
pub const UNKNOWN_PATH_BODY: &'static str = "{\"error\":{\"message\":\"Unknown path. Use /v1/chat/completions or /v1/embeddings.\"}}";

/// The backend URL a request is forwarded to: the same path and query on
/// the loopback port of the route's backend.
pub fn forward_target(port: u16, path_query: &str) -> (r: String)
    ensures
        r@ == "http://127.0.0.1:"@ + nat_decimal(port as nat) + path_query@,
{
    let mut t = String::from_str("http://127.0.0.1:");
    append_decimal(&mut t, port as u64);
    t.append(path_query);
    t
}

/// The answer body when the backend at `port` cannot be reached (sent with
/// status 502), quoting the error.
pub fn unreachable_body(port: u16, error: &str) -> (r: String)
    ensures
        r@ == "{\"error\":{\"message\":\"Backend at port "@ + nat_decimal(port as nat) + " is unreachable: "@ + error@
            + "\"}}"@,
{
    let mut t = String::from_str("{\"error\":{\"message\":\"Backend at port ");
    append_decimal(&mut t, port as u64);
    t.append(" is unreachable: ");
    t.append(error);
    t.append("\"}}");
    t
}

/// The last port tried when binding the master port.
pub open spec fn spec_last_candidate(requested: u16, auto_increment: bool) -> int {
    let attempts: int = if auto_increment { MAX_PORT_INCREMENTS as int } else { 1 };
    if requested + attempts - 1 <= u16::MAX { requested + attempts - 1 } else { u16::MAX as int }
}

/// The error when no candidate port could be bound, naming the range tried
/// and the last bind error (`unknown` when there was none).
pub fn bind_failure_message(requested: u16, auto_increment: bool, last_error: Option<&str>) -> (r: String)
    ensures
        r@ == "could not bind any port in "@ + nat_decimal(requested as nat) + "..="@ + nat_decimal(
            spec_last_candidate(requested, auto_increment) as nat,
        ) + "(last error: "@ + (match last_error {
            Some(e) => e@,
            None => "unknown"@,
        }) + ")"@,
{
    let attempts: u16 = if auto_increment { MAX_PORT_INCREMENTS } else { 1 };
    let last: u16 = requested.saturating_add(attempts - 1);
    let mut t = String::from_str("could not bind any port in ");
    append_decimal(&mut t, requested as u64);
    t.append("..=");
    append_decimal(&mut t, last as u64);
    t.append("(last error: ");
    match last_error {
        Some(e) => t.append(e),
        None => t.append("unknown"),
    }
    t.append(")");
    t
}


/// The master port the proxy first tries for the stored setting: at least
/// 1 (an unset port of 0 becomes 1), then cut to 16 bits.
pub fn master_port_from_setting(master_port: i64) -> (r: u16)
    ensures
        r == (if master_port < 1 { 1 } else { master_port }) as u16,
{
    let p: i64 = if master_port < 1 { 1 } else { master_port };
    p as u16
}
} // verus!
