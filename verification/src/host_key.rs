//! SSH server host-key trust: policies, trust identities and the outcomes
//! of a verification.
//!
//! A trust entry is bound to the endpoint *and* the route used to reach it
//! (direct, proxy, jump host, jump host behind a proxy), so a key learned on
//! one path never silently authorizes another.  Host names are compared in a
//! normalized form: surrounding whitespace and trailing dots removed, ASCII
//! lower case.
use vstd::prelude::*;
use crate::text::{ascii_lower_seq, chars_of, lower_chars, slice_range, string_of, trim, trim_chars};
use crate::text_build::{decimal, push_decimal, push_str};

verus! {

/// Whether unknown server keys may be persisted.
#[derive(Clone, Copy, Debug, PartialEq, Eq, Structural, Hash)]
pub enum HostKeyPolicy {
    /// Reject unknown and changed keys.
    Strict,
    /// Persist an unknown key, but always reject a changed key.
    AcceptNew,
    /// Accept every key; an explicit opt-in, never the default.
    Insecure,
}

impl Default for HostKeyPolicy {
    fn default() -> (r: Self)
        ensures
            r == HostKeyPolicy::Strict,
    {
        HostKeyPolicy::Strict
    }
}

/// Proxy protocol; part of the trust identity.
#[derive(Clone, Copy, Debug, PartialEq, Eq, Structural, Hash)]
pub enum HostKeyProxyType {
    Socks5,
    Http,
}

/// The network path used to reach an SSH endpoint.
#[derive(Clone, Debug, PartialEq, Eq, Hash)]
pub enum HostKeyRoute {
    Direct,
    Proxy { proxy_type: HostKeyProxyType, host: String, port: u16 },
    Jump { host: String, port: u16 },
    JumpViaProxy {
        jump_host: String,
        jump_port: u16,
        proxy_type: HostKeyProxyType,
        proxy_host: String,
        proxy_port: u16,
    },
}

/// The mathematical value of a route: host names as character sequences.
pub enum RouteView {
    Direct,
    Proxy { proxy_type: HostKeyProxyType, host: Seq<char>, port: u16 },
    Jump { host: Seq<char>, port: u16 },
    JumpViaProxy {
        jump_host: Seq<char>,
        jump_port: u16,
        proxy_type: HostKeyProxyType,
        proxy_host: Seq<char>,
        proxy_port: u16,
    },
}

impl View for HostKeyRoute {
    type V = RouteView;

    open spec fn view(&self) -> RouteView {
        match self {
            HostKeyRoute::Direct => RouteView::Direct,
            HostKeyRoute::Proxy { proxy_type, host, port } => RouteView::Proxy {
                proxy_type: *proxy_type,
                host: host@,
                port: *port,
            },
            HostKeyRoute::Jump { host, port } => RouteView::Jump { host: host@, port: *port },
            HostKeyRoute::JumpViaProxy { jump_host, jump_port, proxy_type, proxy_host, proxy_port } =>
            RouteView::JumpViaProxy {
                jump_host: jump_host@,
                jump_port: *jump_port,
                proxy_type: *proxy_type,
                proxy_host: proxy_host@,
                proxy_port: *proxy_port,
            },
        }
    }
}

/// `s` without its trailing dots.
pub open spec fn strip_trailing_dots(s: Seq<char>) -> Seq<char>
    decreases s.len(),
{
    if s.len() > 0 && s.last() == '.' {
        strip_trailing_dots(s.drop_last())
    } else {
        s
    }
}

/// The normalized form of a host name: trimmed, trailing dots removed,
/// ASCII lower case.
pub open spec fn normalized_host(host: Seq<char>) -> Seq<char> {
    ascii_lower_seq(strip_trailing_dots(trim(host)))
}

/// A route with each host name normalized.
pub open spec fn normalized_route(route: RouteView) -> RouteView {
    match route {
        RouteView::Direct => RouteView::Direct,
        RouteView::Proxy { proxy_type, host, port } => RouteView::Proxy {
            proxy_type,
            host: normalized_host(host),
            port,
        },
        RouteView::Jump { host, port } => RouteView::Jump { host: normalized_host(host), port },
        RouteView::JumpViaProxy { jump_host, jump_port, proxy_type, proxy_host, proxy_port } =>
        RouteView::JumpViaProxy {
            jump_host: normalized_host(jump_host),
            jump_port,
            proxy_type,
            proxy_host: normalized_host(proxy_host),
            proxy_port,
        },
    }
}

/// Dropping `k` trailing dots does not change the stripped text.
proof fn lemma_strip_dots_skip(s: Seq<char>, k: int)
    requires
        0 <= k <= s.len(),
        forall|j: int| k <= j < s.len() ==> s[j] == '.',
    ensures
        strip_trailing_dots(s) == strip_trailing_dots(s.subrange(0, k)),
    decreases s.len() - k,
{
    if k < s.len() {
        assert(s.drop_last() == s.subrange(0, s.len() - 1));
        lemma_strip_dots_skip(s.drop_last(), k);
        assert(s.drop_last().subrange(0, k) == s.subrange(0, k));
    } else {
        assert(s.subrange(0, k) == s);
    }
}

/// The normalized form of a host name.
pub fn normalize_host(host: &str) -> (r: String)
    ensures
        r@ == normalized_host(host@),
{
    let raw = chars_of(host);
    let t = trim_chars(raw.as_slice());
    let mut end = t.len();
    while end > 0 && t[end - 1] == '.'
        invariant
            end <= t@.len(),
            forall|j: int| end <= j < t@.len() ==> t@[j] == '.',
        decreases end,
    {
        end = end - 1;
    }
    proof {
        lemma_strip_dots_skip(t@, end as int);
        let u = t@.subrange(0, end as int);
        if u.len() > 0 {
            assert(u.last() == t@[end - 1]);
        }
    }
    let stripped = slice_range(t.as_slice(), 0, end);
    let lowered = lower_chars(stripped.as_slice());
    string_of(lowered.as_slice())
}

impl HostKeyRoute {
    /// The same route with every host name normalized.
    pub fn normalize(self) -> (r: Self)
        ensures
            r@ == normalized_route(self@),
    {
        match self {
            HostKeyRoute::Direct => HostKeyRoute::Direct,
            HostKeyRoute::Proxy { proxy_type, host, port } => HostKeyRoute::Proxy {
                proxy_type,
                host: normalize_host(host.as_str()),
                port,
            },
            HostKeyRoute::Jump { host, port } => HostKeyRoute::Jump {
                host: normalize_host(host.as_str()),
                port,
            },
            HostKeyRoute::JumpViaProxy { jump_host, jump_port, proxy_type, proxy_host, proxy_port } =>
            HostKeyRoute::JumpViaProxy {
                jump_host: normalize_host(jump_host.as_str()),
                jump_port,
                proxy_type,
                proxy_host: normalize_host(proxy_host.as_str()),
                proxy_port,
            },
        }
    }

    /// A copy of the route.
    pub fn duplicate(&self) -> (r: Self)
        ensures
            r@ == self@,
    {
        match self {
            HostKeyRoute::Direct => HostKeyRoute::Direct,
            HostKeyRoute::Proxy { proxy_type, host, port } => HostKeyRoute::Proxy {
                proxy_type: *proxy_type,
                host: host.clone(),
                port: *port,
            },
            HostKeyRoute::Jump { host, port } => HostKeyRoute::Jump { host: host.clone(), port: *port },
            HostKeyRoute::JumpViaProxy { jump_host, jump_port, proxy_type, proxy_host, proxy_port } =>
            HostKeyRoute::JumpViaProxy {
                jump_host: jump_host.clone(),
                jump_port: *jump_port,
                proxy_type: *proxy_type,
                proxy_host: proxy_host.clone(),
                proxy_port: *proxy_port,
            },
        }
    }

    /// Whether two routes are the same.
    pub fn same_as(&self, other: &Self) -> (r: bool)
        ensures
            r == (self@ == other@),
    {
        match (self, other) {
            (HostKeyRoute::Direct, HostKeyRoute::Direct) => true,
            (
                HostKeyRoute::Proxy { proxy_type: t1, host: h1, port: p1 },
                HostKeyRoute::Proxy { proxy_type: t2, host: h2, port: p2 },
            ) => *t1 == *t2 && *p1 == *p2 && *h1 == *h2,
            (HostKeyRoute::Jump { host: h1, port: p1 }, HostKeyRoute::Jump { host: h2, port: p2 }) =>
            *p1 == *p2 && *h1 == *h2,
            (
                HostKeyRoute::JumpViaProxy {
                    jump_host: a1,
                    jump_port: b1,
                    proxy_type: c1,
                    proxy_host: d1,
                    proxy_port: e1,
                },
                HostKeyRoute::JumpViaProxy {
                    jump_host: a2,
                    jump_port: b2,
                    proxy_type: c2,
                    proxy_host: d2,
                    proxy_port: e2,
                },
            ) => *b1 == *b2 && *c1 == *c2 && *e1 == *e2 && *a1 == *a2 && *d1 == *d2,
            _ => false,
        }
    }
}

/// Canonical identity of a server host key: normalized host, port, route.
#[derive(Clone, Debug, PartialEq, Eq, Hash)]
pub struct HostKeyIdentity {
    host: String,
    port: u16,
    route: HostKeyRoute,
}

/// The mathematical value of a trust identity.
pub struct IdentityView {
    pub host: Seq<char>,
    pub port: u16,
    pub route: RouteView,
}

impl View for HostKeyIdentity {
    type V = IdentityView;

    closed spec fn view(&self) -> IdentityView {
        IdentityView { host: self.host@, port: self.port, route: self.route@ }
    }
}

/// The identity that `HostKeyIdentity::new` builds from its arguments.
pub open spec fn identity_of(host: Seq<char>, port: u16, route: RouteView) -> IdentityView {
    IdentityView { host: normalized_host(host), port, route: normalized_route(route) }
}

/// The host as OpenSSH writes it in `known_hosts`: bare for port 22,
/// `[host]:port` otherwise.
pub open spec fn openssh_host_of(id: IdentityView) -> Seq<char> {
    if id.port == 22 {
        id.host
    } else {
        seq!['['] + id.host + seq![']', ':'] + decimal(id.port as nat)
    }
}

impl HostKeyIdentity {
    /// Builds an identity, normalizing the host and every host of the route.
    pub fn new(host: &str, port: u16, route: HostKeyRoute) -> (r: Self)
        ensures
            r@ == identity_of(host@, port, route@),
    {
        HostKeyIdentity { host: normalize_host(host), port, route: route.normalize() }
    }

    pub fn host(&self) -> (r: &str)
        ensures
            r@ == self@.host,
    {
        self.host.as_str()
    }

    pub fn port(&self) -> (r: u16)
        ensures
            r == self@.port,
    {
        self.port
    }

    pub fn route(&self) -> (r: &HostKeyRoute)
        ensures
            r@ == self@.route,
    {
        &self.route
    }

    /// The host as written in OpenSSH `known_hosts`.
    pub fn openssh_host(&self) -> (r: String)
        ensures
            r@ == openssh_host_of(self@),
    {
        if self.port == 22 {
            self.host.clone()
        } else {
            let mut v: Vec<char> = Vec::new();
            v.push('[');
            push_str(&mut v, self.host.as_str());
            v.push(']');
            v.push(':');
            push_decimal(&mut v, self.port as u64);
            assert(v@ =~= seq!['['] + self.host@ + seq![']', ':'] + decimal(self.port as nat));
            string_of(v.as_slice())
        }
    }

    /// A copy of the identity.
    pub fn duplicate(&self) -> (r: Self)
        ensures
            r@ == self@,
    {
        HostKeyIdentity { host: self.host.clone(), port: self.port, route: self.route.duplicate() }
    }

    /// Whether two identities are the same.
    pub fn same_as(&self, other: &Self) -> (r: bool)
        ensures
            r == (self@ == other@),
    {
        self.port == other.port && self.host == other.host && self.route.same_as(&other.route)
    }

    /// The identity as shown in messages: `host:port via route`.
    pub fn describe(&self) -> (r: String)
        ensures
            r@ == identity_text(self@),
    {
        let mut v: Vec<char> = Vec::new();
        push_identity(&mut v, self);
        assert(v@ =~= identity_text(self@));
        string_of(v.as_slice())
    }
}

/// Text of a proxy type.
pub open spec fn proxy_type_text(t: HostKeyProxyType) -> Seq<char> {
    match t {
        HostKeyProxyType::Socks5 => "socks5"@,
        HostKeyProxyType::Http => "http"@,
    }
}

/// `host:port`.
pub open spec fn endpoint_text(host: Seq<char>, port: u16) -> Seq<char> {
    host + seq![':'] + decimal(port as nat)
}

/// Text of a route.
pub open spec fn route_text(route: RouteView) -> Seq<char> {
    match route {
        RouteView::Direct => "direct"@,
        RouteView::Proxy { proxy_type, host, port } => proxy_type_text(proxy_type) + " proxy "@
            + endpoint_text(host, port),
        RouteView::Jump { host, port } => "jump "@ + endpoint_text(host, port),
        RouteView::JumpViaProxy { jump_host, jump_port, proxy_type, proxy_host, proxy_port } =>
        "jump "@ + endpoint_text(jump_host, jump_port) + " via "@ + proxy_type_text(proxy_type)
            + " proxy "@ + endpoint_text(proxy_host, proxy_port),
    }
}

/// Text of an identity.
pub open spec fn identity_text(id: IdentityView) -> Seq<char> {
    endpoint_text(id.host, id.port) + " via "@ + route_text(id.route)
}

impl HostKeyProxyType {
    /// The protocol name: `socks5` or `http`.
    pub fn describe(&self) -> (r: String)
        ensures
            r@ == proxy_type_text(*self),
    {
        match self {
            HostKeyProxyType::Socks5 => crate::text::owned("socks5"),
            HostKeyProxyType::Http => crate::text::owned("http"),
        }
    }
}

fn push_proxy_type(v: &mut Vec<char>, t: HostKeyProxyType)
    ensures
        final(v)@ == old(v)@ + proxy_type_text(t),
{
    match t {
        HostKeyProxyType::Socks5 => push_str(v, "socks5"),
        HostKeyProxyType::Http => push_str(v, "http"),
    }
}

fn push_endpoint(v: &mut Vec<char>, host: &String, port: u16)
    ensures
        final(v)@ == old(v)@ + endpoint_text(host@, port),
{
    push_str(v, host.as_str());
    v.push(':');
    push_decimal(v, port as u64);
    assert(final(v)@ =~= old(v)@ + endpoint_text(host@, port));
}

fn push_route(v: &mut Vec<char>, route: &HostKeyRoute)
    ensures
        final(v)@ == old(v)@ + route_text(route@),
{
    let ghost start = v@;
    match route {
        HostKeyRoute::Direct => push_str(v, "direct"),
        HostKeyRoute::Proxy { proxy_type, host, port } => {
            push_proxy_type(v, *proxy_type);
            push_str(v, " proxy ");
            push_endpoint(v, host, *port);
            assert(v@ =~= start + route_text(route@));
        },
        HostKeyRoute::Jump { host, port } => {
            push_str(v, "jump ");
            push_endpoint(v, host, *port);
            assert(v@ =~= start + route_text(route@));
        },
        HostKeyRoute::JumpViaProxy { jump_host, jump_port, proxy_type, proxy_host, proxy_port } => {
            push_str(v, "jump ");
            push_endpoint(v, jump_host, *jump_port);
            push_str(v, " via ");
            push_proxy_type(v, *proxy_type);
            push_str(v, " proxy ");
            push_endpoint(v, proxy_host, *proxy_port);
            assert(v@ =~= start + route_text(route@));
        },
    }
}

fn push_identity(v: &mut Vec<char>, id: &HostKeyIdentity)
    ensures
        final(v)@ == old(v)@ + identity_text(id@),
{
    let ghost start = v@;
    push_endpoint(v, &id.host, id.port);
    push_str(v, " via ");
    push_route(v, &id.route);
    assert(v@ =~= start + identity_text(id@));
}

impl HostKeyRoute {
    /// The route as shown in messages (`direct`, `socks5 proxy h:p`, ...).
    pub fn describe(&self) -> (r: String)
        ensures
            r@ == route_text(self@),
    {
        let mut v: Vec<char> = Vec::new();
        push_route(&mut v, self);
        assert(v@ =~= route_text(self@));
        string_of(v.as_slice())
    }
}

/// Algorithm and SHA-256 fingerprint of a host key.
#[derive(Clone, Debug, PartialEq, Eq)]
pub struct HostKeyDetails {
    pub algorithm: String,
    pub fingerprint: String,
}

/// The mathematical value of key details.
pub struct DetailsView {
    pub algorithm: Seq<char>,
    pub fingerprint: Seq<char>,
}

impl View for HostKeyDetails {
    type V = DetailsView;

    open spec fn view(&self) -> DetailsView {
        DetailsView { algorithm: self.algorithm@, fingerprint: self.fingerprint@ }
    }
}

/// `algorithm fingerprint`.
pub open spec fn details_text(d: DetailsView) -> Seq<char> {
    d.algorithm + seq![' '] + d.fingerprint
}

impl HostKeyDetails {
    /// A copy of the details.
    pub fn duplicate(&self) -> (r: Self)
        ensures
            r@ == self@,
    {
        HostKeyDetails { algorithm: self.algorithm.clone(), fingerprint: self.fingerprint.clone() }
    }

    /// Whether two details are the same.
    pub fn same_as(&self, other: &Self) -> (r: bool)
        ensures
            r == (self@ == other@),
    {
        self.algorithm == other.algorithm && self.fingerprint == other.fingerprint
    }

    /// The details as shown in messages: `algorithm fingerprint`.
    pub fn describe(&self) -> (r: String)
        ensures
            r@ == details_text(self@),
    {
        let mut v: Vec<char> = Vec::new();
        push_details(&mut v, self);
        assert(v@ =~= details_text(self@));
        string_of(v.as_slice())
    }
}

fn push_details(v: &mut Vec<char>, d: &HostKeyDetails)
    ensures
        final(v)@ == old(v)@ + details_text(d@),
{
    let ghost start = v@;
    push_str(v, d.algorithm.as_str());
    v.push(' ');
    push_str(v, d.fingerprint.as_str());
    assert(v@ =~= start + details_text(d@));
}

/// The views of a list of details.
pub open spec fn details_views(v: Seq<HostKeyDetails>) -> Seq<DetailsView> {
    Seq::new(v.len(), |i: int| v[i]@)
}

/// Texts joined with `, `.
pub open spec fn join_details(d: Seq<DetailsView>) -> Seq<char>
    decreases d.len(),
{
    if d.len() == 0 {
        Seq::empty()
    } else if d.len() == 1 {
        details_text(d[0])
    } else {
        join_details(d.drop_last()) + ", "@ + details_text(d.last())
    }
}

/// The expected keys as listed in a rejection: `<none>` or the details
/// joined with `, `.
pub open spec fn details_list_text(d: Seq<DetailsView>) -> Seq<char> {
    if d.len() == 0 {
        "<none>"@
    } else {
        join_details(d)
    }
}

/// Lists key details for a message: `<none>` when there are none.
pub fn format_details(details: &[HostKeyDetails]) -> (r: String)
    ensures
        r@ == details_list_text(details_views(details@)),
{
    let mut v: Vec<char> = Vec::new();
    push_details_list(&mut v, details);
    assert(v@ =~= details_list_text(details_views(details@)));
    string_of(v.as_slice())
}

fn push_details_list(v: &mut Vec<char>, details: &[HostKeyDetails])
    ensures
        final(v)@ == old(v)@ + details_list_text(details_views(details@)),
{
    let ghost start = v@;
    if details.len() == 0 {
        push_str(v, "<none>");
        return;
    }
    let ghost views = details_views(details@);
    push_details(v, &details[0]);
    assert(views.subrange(0, 1).drop_last().len() == 0);
    assert(join_details(views.subrange(0, 1)) == details_text(views[0]));
    let mut i: usize = 1;
    while i < details.len()
        invariant
            1 <= i <= details@.len(),
            views == details_views(details@),
            v@ == start + join_details(views.subrange(0, i as int)),
        decreases details.len() - i,
    {
        push_str(v, ", ");
        push_details(v, &details[i]);
        let ghost next = views.subrange(0, i + 1);
        assert(next.drop_last() == views.subrange(0, i as int));
        assert(next.last() == details@[i as int]@);
        assert(v@ =~= start + join_details(next));
        i = i + 1;
    }
    assert(views.subrange(0, details@.len() as int) == views);
}

/// Result of an accepted verification.
#[derive(Clone, Copy, Debug, PartialEq, Eq, Structural)]
pub enum HostKeyAcceptance {
    Known,
    AcceptedNew,
    AcceptedOnce,
    Insecure,
}

/// A host trusted in the app trust store, as listed for users.  Times are
/// seconds since the Unix epoch, absent for records of an older store.
#[derive(Clone, Debug, PartialEq, Eq)]
pub struct KnownHost {
    pub identity: HostKeyIdentity,
    pub algorithm: String,
    pub fingerprint: String,
    pub public_key: String,
    pub discovered_at: Option<u64>,
    pub last_seen: Option<u64>,
}

/// A fail-closed rejection; it carries endpoint and key metadata only.
#[derive(Clone, Debug, PartialEq, Eq)]
pub enum HostKeyRejection {
    Unknown { identity: HostKeyIdentity, presented: HostKeyDetails },
    Changed { identity: HostKeyIdentity, presented: HostKeyDetails, expected: Vec<HostKeyDetails> },
    Revoked { identity: HostKeyIdentity, presented: HostKeyDetails },
    StoreUnavailable { identity: HostKeyIdentity, presented: HostKeyDetails, reason: String },
}

/// The message of a rejection.
pub open spec fn rejection_text(r: HostKeyRejection) -> Seq<char> {
    match r {
        HostKeyRejection::Unknown { identity, presented } => "unknown SSH host key for "@
            + identity_text(identity@) + ": "@ + details_text(presented@)
            + "; verify the fingerprint before enabling AcceptNew"@,
        HostKeyRejection::Changed { identity, presented, expected } => "changed SSH host key for "@
            + identity_text(identity@) + ": presented "@ + details_text(presented@) + ", expected "@
            + details_list_text(details_views(expected@)),
        HostKeyRejection::Revoked { identity, presented } => "revoked SSH host key for "@
            + identity_text(identity@) + ": "@ + details_text(presented@),
        HostKeyRejection::StoreUnavailable { identity, presented, reason } =>
        "cannot verify SSH host key for "@ + identity_text(identity@) + " ("@ + details_text(
            presented@,
        ) + "): "@ + reason@,
    }
}

impl HostKeyRejection {
    /// The message shown for a rejection.
    pub fn describe(&self) -> (r: String)
        ensures
            r@ == rejection_text(*self),
    {
        let mut v: Vec<char> = Vec::new();
        match self {
            HostKeyRejection::Unknown { identity, presented } => {
                push_str(&mut v, "unknown SSH host key for ");
                push_identity(&mut v, identity);
                push_str(&mut v, ": ");
                push_details(&mut v, presented);
                push_str(&mut v, "; verify the fingerprint before enabling AcceptNew");
            },
            HostKeyRejection::Changed { identity, presented, expected } => {
                push_str(&mut v, "changed SSH host key for ");
                push_identity(&mut v, identity);
                push_str(&mut v, ": presented ");
                push_details(&mut v, presented);
                push_str(&mut v, ", expected ");
                push_details_list(&mut v, expected.as_slice());
            },
            HostKeyRejection::Revoked { identity, presented } => {
                push_str(&mut v, "revoked SSH host key for ");
                push_identity(&mut v, identity);
                push_str(&mut v, ": ");
                push_details(&mut v, presented);
            },
            HostKeyRejection::StoreUnavailable { identity, presented, reason } => {
                push_str(&mut v, "cannot verify SSH host key for ");
                push_identity(&mut v, identity);
                push_str(&mut v, " (");
                push_details(&mut v, presented);
                push_str(&mut v, "): ");
                push_str(&mut v, reason.as_str());
            },
        }
        assert(v@ =~= rejection_text(*self));
        string_of(v.as_slice())
    }
}

/// The mathematical value of a rejection.
pub enum RejectionView {
    Unknown { identity: IdentityView, presented: DetailsView },
    Changed { identity: IdentityView, presented: DetailsView, expected: Seq<DetailsView> },
    Revoked { identity: IdentityView, presented: DetailsView },
    StoreUnavailable { identity: IdentityView, presented: DetailsView, reason: Seq<char> },
}

impl View for HostKeyRejection {
    type V = RejectionView;

    open spec fn view(&self) -> RejectionView {
        match self {
            HostKeyRejection::Unknown { identity, presented } => RejectionView::Unknown {
                identity: identity@,
                presented: presented@,
            },
            HostKeyRejection::Changed { identity, presented, expected } => RejectionView::Changed {
                identity: identity@,
                presented: presented@,
                expected: details_views(expected@),
            },
            HostKeyRejection::Revoked { identity, presented } => RejectionView::Revoked {
                identity: identity@,
                presented: presented@,
            },
            HostKeyRejection::StoreUnavailable { identity, presented, reason } =>
            RejectionView::StoreUnavailable {
                identity: identity@,
                presented: presented@,
                reason: reason@,
            },
        }
    }
}

/// The view of a verification outcome.
pub open spec fn outcome_view(r: Result<HostKeyAcceptance, HostKeyRejection>) -> Result<
    HostKeyAcceptance,
    RejectionView,
> {
    match r {
        Ok(a) => Ok(a),
        Err(e) => Err(e@),
    }
}

} // verus!
