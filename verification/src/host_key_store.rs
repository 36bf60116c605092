//! Trust-store records and OpenSSH `known_hosts` entries.
//!
//! The app trust store holds records bound to a trust identity; each record
//! carries the OpenSSH text of the key and its metadata, which must agree
//! with the key when the record is read back.  OpenSSH `known_hosts` files
//! are consulted as a second, read-only source.
use russh::keys::ssh_key::known_hosts::{HostPatterns, KnownHosts, Marker};
use vstd::prelude::*;
use crate::host_key::{
    DetailsView, HostKeyDetails, HostKeyIdentity, HostKeyRoute, IdentityView, RouteView,
    identity_of, openssh_host_of,
};
use crate::host_patterns::{KnownHostPatterns, PatternsView, known_hosts_admit, known_hosts_match};
use crate::text_build::push_str;
use crate::text::string_of;

verus! {

/// A record of the app trust store, validated against its key.
#[derive(Clone, Debug)]
pub struct StoredHostKey {
    pub identity: HostKeyIdentity,
    pub public_key: String,
    pub details: HostKeyDetails,
    pub discovered_at: Option<u64>,
    pub last_seen: Option<u64>,
}

/// The mathematical value of a trust record.
pub struct StoredView {
    pub identity: IdentityView,
    pub public_key: Seq<char>,
    pub details: DetailsView,
    pub discovered_at: Option<u64>,
    pub last_seen: Option<u64>,
}

impl View for StoredHostKey {
    type V = StoredView;

    open spec fn view(&self) -> StoredView {
        StoredView {
            identity: self.identity@,
            public_key: self.public_key@,
            details: self.details@,
            discovered_at: self.discovered_at,
            last_seen: self.last_seen,
        }
    }
}

/// The views of a list of records.
pub open spec fn stored_views(v: Seq<StoredHostKey>) -> Seq<StoredView> {
    Seq::new(v.len(), |i: int| v[i]@)
}

impl StoredHostKey {
    /// A copy of the record.
    pub fn duplicate(&self) -> (r: Self)
        ensures
            r@ == self@,
    {
        StoredHostKey {
            identity: self.identity.duplicate(),
            public_key: self.public_key.clone(),
            details: self.details.duplicate(),
            discovered_at: self.discovered_at,
            last_seen: self.last_seen,
        }
    }
}

/// A copy of a list of records.
pub fn duplicate_records(v: &Vec<StoredHostKey>) -> (r: Vec<StoredHostKey>)
    ensures
        stored_views(r@) == stored_views(v@),
{
    let mut r: Vec<StoredHostKey> = Vec::new();
    let mut i: usize = 0;
    while i < v.len()
        invariant
            i <= v@.len(),
            r@.len() == i,
            forall|j: int| 0 <= j < i ==> r@[j]@ == v@[j]@,
        decreases v.len() - i,
    {
        r.push(v[i].duplicate());
        i = i + 1;
    }
    assert(stored_views(r@) =~= stored_views(v@));
    r
}

/// A trust record as it is written to the store file.
#[derive(Clone, Debug)]
pub struct PersistedHostKey {
    pub host: String,
    pub port: u16,
    pub route: HostKeyRoute,
    pub public_key: String,
    pub algorithm: String,
    pub fingerprint: String,
    pub discovered_at: Option<u64>,
    pub last_seen: Option<u64>,
}

/// The mathematical value of a persisted record.
pub struct PersistedView {
    pub host: Seq<char>,
    pub port: u16,
    pub route: RouteView,
    pub public_key: Seq<char>,
    pub algorithm: Seq<char>,
    pub fingerprint: Seq<char>,
    pub discovered_at: Option<u64>,
    pub last_seen: Option<u64>,
}

impl View for PersistedHostKey {
    type V = PersistedView;

    open spec fn view(&self) -> PersistedView {
        PersistedView {
            host: self.host@,
            port: self.port,
            route: self.route@,
            public_key: self.public_key@,
            algorithm: self.algorithm@,
            fingerprint: self.fingerprint@,
            discovered_at: self.discovered_at,
            last_seen: self.last_seen,
        }
    }
}

/// The trust-store file: a version number and the records.
#[derive(Clone, Debug)]
pub struct PersistedTrustStore {
    pub version: u32,
    pub entries: Vec<PersistedHostKey>,
}

/// The only trust-store format version this library reads and writes.
pub const TRUST_STORE_VERSION: u32 = 1;

/// The name of the trust-store file in the app's configuration directory.
pub const TRUST_STORE_FILE_NAME: &'static str = "ssh-host-keys.json";

/// The name of what parsing an OpenSSH public key yields: the algorithm name
/// and the SHA-256 fingerprint (`SHA256:...`), or the parser's message.
pub uninterp spec fn openssh_key_parse(text: Seq<char>) -> Result<DetailsView, Seq<char>>;

/// Parses an OpenSSH public key (`PublicKey::from_str` of `ssh-key`, reached
/// through `russh::keys`) and reports its algorithm name (`Algorithm::as_str`)
/// and SHA-256 fingerprint (`Fingerprint`'s `Display`).  The contract names
/// the result, which depends on the text alone; it does not say which texts
/// parse or what the fingerprint is.
#[verifier::external_body]
pub(crate) fn parse_key_details(text: &str) -> (r: Result<HostKeyDetails, String>)
    ensures
        match openssh_key_parse(text@) {
            Ok(d) => r matches Ok(x) && x@ == d,
            Err(m) => r matches Err(e) && e@ == m,
        },
{
    match text.parse::<russh::keys::PublicKey>() {
        Ok(key) => Ok(
            HostKeyDetails {
                algorithm: key.algorithm().as_str().to_owned(),
                fingerprint: key.fingerprint(russh::keys::HashAlg::Sha256).to_string(),
            },
        ),
        Err(error) => Err(error.to_string()),
    }
}

/// What reading a persisted record back yields: the record, or why it is
/// rejected (its key does not parse, or its metadata disagrees with it).
pub open spec fn stored_from_persisted(p: PersistedView) -> Result<StoredView, Seq<char>> {
    match openssh_key_parse(p.public_key) {
        Err(m) => Err("invalid stored host key: "@ + m),
        Ok(d) => if d.algorithm != p.algorithm || d.fingerprint != p.fingerprint {
            Err("stored host-key metadata does not match its public key"@)
        } else {
            Ok(
                StoredView {
                    identity: identity_of(p.host, p.port, p.route),
                    public_key: p.public_key,
                    details: d,
                    discovered_at: p.discovered_at,
                    last_seen: p.last_seen,
                },
            )
        },
    }
}

impl StoredHostKey {
    /// Reads a persisted record back, checking it against its key.
    pub fn try_from_persisted(entry: PersistedHostKey) -> (r: Result<StoredHostKey, String>)
        ensures
            match stored_from_persisted(entry@) {
                Ok(s) => r matches Ok(x) && x@ == s,
                Err(m) => r matches Err(e) && e@ == m,
            },
    {
        match parse_key_details(entry.public_key.as_str()) {
            Err(error) => {
                let mut v: Vec<char> = Vec::new();
                push_str(&mut v, "invalid stored host key: ");
                push_str(&mut v, error.as_str());
                Err(string_of(v.as_slice()))
            },
            Ok(details) => {
                if !(details.algorithm == entry.algorithm) || !(details.fingerprint
                    == entry.fingerprint) {
                    return Err(crate::text::owned("stored host-key metadata does not match its public key"));
                }
                Ok(
                    StoredHostKey {
                        identity: HostKeyIdentity::new(entry.host.as_str(), entry.port, entry.route),
                        public_key: entry.public_key,
                        details,
                        discovered_at: entry.discovered_at,
                        last_seen: entry.last_seen,
                    },
                )
            },
        }
    }

    /// The record as written to the store file.
    pub fn to_persisted(&self) -> (r: PersistedHostKey)
        ensures
            r@.host == self@.identity.host,
            r@.port == self@.identity.port,
            r@.route == self@.identity.route,
            r@.public_key == self@.public_key,
            r@.algorithm == self@.details.algorithm,
            r@.fingerprint == self@.details.fingerprint,
            r@.discovered_at == self@.discovered_at,
            r@.last_seen == self@.last_seen,
    {
        PersistedHostKey {
            host: crate::text::owned(self.identity.host()),
            port: self.identity.port(),
            route: self.identity.route().duplicate(),
            public_key: self.public_key.clone(),
            algorithm: self.details.algorithm.clone(),
            fingerprint: self.details.fingerprint.clone(),
            discovered_at: self.discovered_at,
            last_seen: self.last_seen,
        }
    }
}

/// The records of a loaded store: every record must read back, else the
/// first failure is reported.
pub open spec fn all_read_back(entries: Seq<PersistedView>) -> Result<Seq<StoredView>, Seq<char>>
    decreases entries.len(),
{
    if entries.len() == 0 {
        Ok(Seq::empty())
    } else {
        match all_read_back(entries.drop_last()) {
            Err(m) => Err(m),
            Ok(done) => match stored_from_persisted(entries.last()) {
                Err(m) => Err(m),
                Ok(s) => Ok(done.push(s)),
            },
        }
    }
}

/// The views of a list of persisted records.
pub open spec fn persisted_views(v: Seq<PersistedHostKey>) -> Seq<PersistedView> {
    Seq::new(v.len(), |i: int| v[i]@)
}

impl PersistedHostKey {
    /// A copy of the record.
    pub fn duplicate(&self) -> (r: Self)
        ensures
            r@ == self@,
    {
        PersistedHostKey {
            host: self.host.clone(),
            port: self.port,
            route: self.route.duplicate(),
            public_key: self.public_key.clone(),
            algorithm: self.algorithm.clone(),
            fingerprint: self.fingerprint.clone(),
            discovered_at: self.discovered_at,
            last_seen: self.last_seen,
        }
    }
}

/// Reads every persisted record back; the first failure fails the load.
pub fn read_back_all(entries: &Vec<PersistedHostKey>) -> (r: Result<Vec<StoredHostKey>, String>)
    ensures
        match all_read_back(persisted_views(entries@)) {
            Ok(s) => r matches Ok(x) && stored_views(x@) == s,
            Err(m) => r matches Err(e) && e@ == m,
        },
{
    let ghost views = persisted_views(entries@);
    let mut out: Vec<StoredHostKey> = Vec::new();
    let mut i: usize = 0;
    assert(views.subrange(0, 0) =~= Seq::<PersistedView>::empty());
    assert(stored_views(out@) =~= Seq::<StoredView>::empty());
    while i < entries.len()
        invariant
            i <= entries@.len(),
            views == persisted_views(entries@),
            all_read_back(views.subrange(0, i as int)) == Ok::<Seq<StoredView>, Seq<char>>(
                stored_views(out@),
            ),
        decreases entries.len() - i,
    {
        let ghost next = views.subrange(0, i + 1);
        assert(next.drop_last() == views.subrange(0, i as int));
        assert(next.last() == entries@[i as int]@);
        match StoredHostKey::try_from_persisted(entries[i].duplicate()) {
            Err(e) => {
                proof {
                    lemma_read_back_prefix_error(views, i + 1);
                }
                return Err(e);
            },
            Ok(stored) => {
                let ghost before = out@;
                out.push(stored);
                assert(stored_views(out@) =~= stored_views(before).push(out@.last()@));
            },
        }
        i = i + 1;
    }
    assert(views.subrange(0, entries@.len() as int) == views);
    Ok(out)
}

/// A failure in a prefix fails the whole load with the same message.
proof fn lemma_read_back_prefix_error(views: Seq<PersistedView>, k: int)
    requires
        0 <= k <= views.len(),
        all_read_back(views.subrange(0, k)) is Err,
    ensures
        all_read_back(views) == all_read_back(views.subrange(0, k)),
    decreases views.len() - k,
{
    if k < views.len() {
        let next = views.subrange(0, k + 1);
        assert(next.drop_last() == views.subrange(0, k));
        lemma_read_back_prefix_error(views, k + 1);
    } else {
        assert(views.subrange(0, k) == views);
    }
}

/// The records of a trust-store file, provided its version is supported.
pub open spec fn store_records(version: u32, entries: Seq<PersistedView>, path_label: Seq<char>) -> Result<
    Seq<PersistedView>,
    Seq<char>,
> {
    if version != TRUST_STORE_VERSION {
        Err(
            "unsupported host-key trust store version "@ + crate::text_build::decimal(version as nat)
                + " in "@ + path_label,
        )
    } else {
        Ok(entries)
    }
}

impl PersistedTrustStore {
    /// The records of the file, provided its version is supported;
    /// `path_label` names the file in the message.
    pub fn into_records(self, path_label: &str) -> (r: Result<Vec<PersistedHostKey>, String>)
        ensures
            match store_records(self.version, persisted_views(self.entries@), path_label@) {
                Ok(e) => r matches Ok(x) && persisted_views(x@) == e,
                Err(m) => r matches Err(x) && x@ == m,
            },
    {
        if self.version != TRUST_STORE_VERSION {
            let mut v: Vec<char> = Vec::new();
            push_str(&mut v, "unsupported host-key trust store version ");
            crate::text_build::push_decimal(&mut v, self.version as u64);
            push_str(&mut v, " in ");
            push_str(&mut v, path_label);
            return Err(string_of(v.as_slice()));
        }
        Ok(self.entries)
    }
}

/// What loading the app trust store yields from what was read: a missing
/// file holds no records; otherwise every record must read back.
pub open spec fn loaded_records(read: Result<Option<Seq<PersistedView>>, Seq<char>>) -> Result<
    Seq<StoredView>,
    Seq<char>,
> {
    match read {
        Err(m) => Err(m),
        Ok(None) => Ok(Seq::empty()),
        Ok(Some(entries)) => all_read_back(entries),
    }
}

/// The views of what was read from the trust store.
pub open spec fn read_views(read: Result<Option<Vec<PersistedHostKey>>, String>) -> Result<
    Option<Seq<PersistedView>>,
    Seq<char>,
> {
    match read {
        Err(m) => Err(m@),
        Ok(None) => Ok(None),
        Ok(Some(v)) => Ok(Some(persisted_views(v@))),
    }
}

/// Loads the app trust records from what was read from the store.
pub fn load_records(read: Result<Option<Vec<PersistedHostKey>>, String>) -> (r: Result<
    Vec<StoredHostKey>,
    String,
>)
    ensures
        match loaded_records(read_views(read)) {
            Ok(s) => r matches Ok(x) && stored_views(x@) == s,
            Err(m) => r matches Err(e) && e@ == m,
        },
{
    match read {
        Err(error) => Err(error),
        Ok(None) => {
            let v: Vec<StoredHostKey> = Vec::new();
            assert(stored_views(v@) =~= Seq::<StoredView>::empty());
            Ok(v)
        },
        Ok(Some(entries)) => read_back_all(&entries),
    }
}

/// The marker of a `known_hosts` line.
#[derive(Clone, Copy, Debug, PartialEq, Eq, Structural)]
pub enum KnownHostMarker {
    /// `@cert-authority`
    CertAuthority,
    /// `@revoked`
    Revoked,
}

/// One well-formed line of a `known_hosts` file.
pub struct KnownHostsLine {
    pub marker: Option<KnownHostMarker>,
    pub patterns: KnownHostPatterns,
    /// The key in OpenSSH text form.
    pub public_key: String,
}

/// The mathematical value of a `known_hosts` line.
pub struct KnownHostsLineView {
    pub marker: Option<KnownHostMarker>,
    pub patterns: PatternsView,
    pub public_key: Seq<char>,
}

impl View for KnownHostsLine {
    type V = KnownHostsLineView;

    open spec fn view(&self) -> KnownHostsLineView {
        KnownHostsLineView {
            marker: self.marker,
            patterns: self.patterns@,
            public_key: self.public_key@,
        }
    }
}

/// The name of what the `known_hosts` parser of `ssh-key` yields for a file:
/// its well-formed entries, in order.
pub uninterp spec fn known_hosts_parse(input: Seq<char>) -> Seq<KnownHostsLineView>;

/// Parses a `known_hosts` file with `ssh_key::known_hosts::KnownHosts`
/// (through `russh::keys`), dropping the lines it cannot parse, as OpenSSH
/// does.  Each key is given in OpenSSH text form (`PublicKey::to_openssh`,
/// or its `Display` if encoding fails).  The contract names the result,
/// which depends on the file text alone.
#[verifier::external_body]
pub(crate) fn parse_known_hosts(input: &str) -> (r: Vec<KnownHostsLine>)
    ensures
        Seq::new(r@.len(), |i: int| r@[i]@) == known_hosts_parse(input@),
{
    KnownHosts::new(input).flatten().map(|entry| KnownHostsLine {
        marker: match entry.marker() {
            None => None,
            Some(Marker::CertAuthority) => Some(KnownHostMarker::CertAuthority),
            Some(Marker::Revoked) => Some(KnownHostMarker::Revoked),
        },
        patterns: match entry.host_patterns() {
            HostPatterns::Patterns(list) => KnownHostPatterns::Patterns(list.clone()),
            HostPatterns::HashedName { salt, hash } =>
                KnownHostPatterns::HashedName { salt: salt.clone(), hash: hash.to_vec() },
        },
        public_key: entry.public_key().to_openssh().unwrap_or_else(|_| entry.public_key().to_string()),
    }).collect()
}

/// A key that an OpenSSH `known_hosts` file holds for one identity.
pub struct OpenSshHostKey {
    /// The key in OpenSSH text form.
    pub public_key: String,
    pub details: HostKeyDetails,
    /// Marked `@revoked`.
    pub revoked: bool,
}

/// The mathematical value of an OpenSSH key entry.
pub struct OpenSshView {
    pub public_key: Seq<char>,
    pub details: DetailsView,
    pub revoked: bool,
}

impl View for OpenSshHostKey {
    type V = OpenSshView;

    open spec fn view(&self) -> OpenSshView {
        OpenSshView { public_key: self.public_key@, details: self.details@, revoked: self.revoked }
    }
}

/// The views of a list of OpenSSH key entries.
pub open spec fn openssh_views(v: Seq<OpenSshHostKey>) -> Seq<OpenSshView> {
    Seq::new(v.len(), |i: int| v[i]@)
}

/// The keys that the lines of a `known_hosts` file hold for a host as OpenSSH
/// writes it: lines whose patterns admit the host, except certificate
/// authorities (which need certificate validation) and keys whose metadata
/// cannot be computed.
pub open spec fn openssh_keys_for(lines: Seq<KnownHostsLineView>, candidate: Seq<char>) -> Seq<
    OpenSshView,
>
    decreases lines.len(),
{
    if lines.len() == 0 {
        Seq::empty()
    } else {
        let before = openssh_keys_for(lines.drop_last(), candidate);
        let line = lines.last();
        if known_hosts_admit(line.patterns, candidate) && line.marker != Some(
            KnownHostMarker::CertAuthority,
        ) {
            match openssh_key_parse(line.public_key) {
                Ok(d) => before.push(
                    OpenSshView {
                        public_key: line.public_key,
                        details: d,
                        revoked: line.marker == Some(KnownHostMarker::Revoked),
                    },
                ),
                Err(_) => before,
            }
        } else {
            before
        }
    }
}

/// The views of parsed `known_hosts` lines.
pub open spec fn line_views(lines: Seq<KnownHostsLine>) -> Seq<KnownHostsLineView> {
    Seq::new(lines.len(), |i: int| lines[i]@)
}

/// The keys that a `known_hosts` file holds for a trust identity.
pub fn openssh_entries_for(input: &str, identity: &HostKeyIdentity) -> (r: Vec<OpenSshHostKey>)
    ensures
        openssh_views(r@) == openssh_keys_for(known_hosts_parse(input@), openssh_host_of(identity@)),
{
    let lines = parse_known_hosts(input);
    assert(line_views(lines@) =~= known_hosts_parse(input@));
    openssh_entries_in(&lines, identity)
}

/// The keys that parsed `known_hosts` lines hold for a trust identity.
pub fn openssh_entries_in(lines: &Vec<KnownHostsLine>, identity: &HostKeyIdentity) -> (r: Vec<OpenSshHostKey>)
    ensures
        openssh_views(r@) == openssh_keys_for(line_views(lines@), openssh_host_of(identity@)),
{
    let candidate = identity.openssh_host();
    let ghost parsed = line_views(lines@);
    assert(parsed.len() == lines@.len());
    let mut out: Vec<OpenSshHostKey> = Vec::new();
    let mut i: usize = 0;
    assert(parsed.subrange(0, 0) =~= Seq::<KnownHostsLineView>::empty());
    assert(openssh_views(out@) =~= Seq::<OpenSshView>::empty());
    while i < lines.len()
        invariant
            i <= lines@.len(),
            parsed == line_views(lines@),
            parsed.len() == lines@.len(),
            forall|j: int| 0 <= j < lines@.len() ==> #[trigger] lines@[j]@ == parsed[j],
            candidate@ == openssh_host_of(identity@),
            openssh_views(out@) == openssh_keys_for(parsed.subrange(0, i as int), candidate@),
        decreases lines.len() - i,
    {
        let ghost next = parsed.subrange(0, i + 1);
        assert(next.drop_last() == parsed.subrange(0, i as int));
        assert(next.last() == lines@[i as int]@);
        let line = &lines[i];
        let cert = match line.marker {
            Some(KnownHostMarker::CertAuthority) => true,
            _ => false,
        };
        if known_hosts_match(&line.patterns, candidate.as_str()) && !cert {
            match parse_key_details(line.public_key.as_str()) {
                Ok(details) => {
                    let revoked = match line.marker {
                        Some(KnownHostMarker::Revoked) => true,
                        _ => false,
                    };
                    let ghost before = out@;
                    out.push(OpenSshHostKey { public_key: line.public_key.clone(), details, revoked });
                    assert(openssh_views(out@) =~= openssh_views(before).push(out@.last()@));
                },
                Err(_) => {},
            }
        }
        i = i + 1;
    }
    assert(parsed.subrange(0, lines@.len() as int) == parsed);
    out
}

/// What the OpenSSH `known_hosts` file says of a presented key.
pub enum OpenSshLookup {
    /// The key is listed for the host.
    Known,
    /// Other keys are listed for the host; these are their details.
    Changed(Vec<HostKeyDetails>),
    /// The key is listed as revoked.
    Revoked,
    /// Nothing is listed for the host.
    Unknown,
}

/// The mathematical value of an OpenSSH lookup.
pub enum LookupView {
    Known,
    Changed(Seq<DetailsView>),
    Revoked,
    Unknown,
}

impl View for OpenSshLookup {
    type V = LookupView;

    open spec fn view(&self) -> LookupView {
        match self {
            OpenSshLookup::Known => LookupView::Known,
            OpenSshLookup::Changed(v) => LookupView::Changed(crate::host_key::details_views(v@)),
            OpenSshLookup::Revoked => LookupView::Revoked,
            OpenSshLookup::Unknown => LookupView::Unknown,
        }
    }
}

/// Scanning the entries from index `i`: the first entry with the presented
/// key decides (revoked or known); otherwise the distinct details seen so
/// far are what was expected instead.
pub open spec fn lookup_scan(
    entries: Seq<OpenSshView>,
    key: Seq<char>,
    i: int,
    expected: Seq<DetailsView>,
) -> LookupView
    decreases entries.len() - i,
{
    if i < 0 || i >= entries.len() {
        LookupView::Changed(expected)
    } else if entries[i].public_key == key {
        if entries[i].revoked {
            LookupView::Revoked
        } else {
            LookupView::Known
        }
    } else {
        lookup_scan(
            entries,
            key,
            i + 1,
            if expected.contains(entries[i].details) {
                expected
            } else {
                expected.push(entries[i].details)
            },
        )
    }
}

/// What the OpenSSH entries for a host say of a presented key.
pub open spec fn openssh_lookup(entries: Seq<OpenSshView>, key: Seq<char>) -> LookupView {
    if entries.len() == 0 {
        LookupView::Unknown
    } else {
        lookup_scan(entries, key, 0, Seq::empty())
    }
}

/// Whether a list of details already holds some details.
fn contains_details(v: &Vec<HostKeyDetails>, d: &HostKeyDetails) -> (r: bool)
    ensures
        r == crate::host_key::details_views(v@).contains(d@),
{
    let ghost views = crate::host_key::details_views(v@);
    let mut i: usize = 0;
    while i < v.len()
        invariant
            i <= v@.len(),
            views == crate::host_key::details_views(v@),
            forall|j: int| 0 <= j < i ==> views[j] != d@,
        decreases v.len() - i,
    {
        if v[i].same_as(d) {
            assert(views[i as int] == d@);
            return true;
        }
        i = i + 1;
    }
    false
}

/// Looks a presented key (in OpenSSH text form) up among the OpenSSH entries
/// for its host.
pub fn lookup_openssh(entries: &Vec<OpenSshHostKey>, presented_key: &String) -> (r: OpenSshLookup)
    ensures
        r@ == openssh_lookup(openssh_views(entries@), presented_key@),
{
    let ghost views = openssh_views(entries@);
    if entries.len() == 0 {
        return OpenSshLookup::Unknown;
    }
    let mut expected: Vec<HostKeyDetails> = Vec::new();
    let mut i: usize = 0;
    assert(crate::host_key::details_views(expected@) =~= Seq::<DetailsView>::empty());
    while i < entries.len()
        invariant
            i <= entries@.len(),
            entries@.len() > 0,
            views == openssh_views(entries@),
            lookup_scan(views, presented_key@, 0, Seq::empty()) == lookup_scan(
                views,
                presented_key@,
                i as int,
                crate::host_key::details_views(expected@),
            ),
        decreases entries.len() - i,
    {
        let entry = &entries[i];
        assert(views[i as int] == entry@);
        if entry.public_key == *presented_key {
            if entry.revoked {
                return OpenSshLookup::Revoked;
            }
            return OpenSshLookup::Known;
        }
        if !contains_details(&expected, &entry.details) {
            let ghost before = expected@;
            expected.push(entry.details.duplicate());
            assert(crate::host_key::details_views(expected@) =~= crate::host_key::details_views(
                before,
            ).push(entry.details@));
        }
        i = i + 1;
    }
    OpenSshLookup::Changed(expected)
}

} // verus!
