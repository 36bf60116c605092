//! Managing the app trust store as a list of known hosts: listing it,
//! forgetting a host, and importing the plain entries of an OpenSSH
//! `known_hosts` file.
use vstd::prelude::*;
use crate::host_key::{DetailsView, HostKeyIdentity, HostKeyRoute, IdentityView, KnownHost, RouteView, identity_of};
use crate::host_key_store::{
    KnownHostsLine, KnownHostsLineView, PersistedHostKey, PersistedView, StoredHostKey, StoredView,
    openssh_key_parse, parse_key_details, persisted_views, stored_from_persisted, stored_views, known_hosts_parse, parse_known_hosts,
};
use crate::host_key_verifier::{HostKeyVerifier, has_record, new_record, records_without, remove_records_for};
use crate::host_patterns::{KnownHostPatterns, PatternsView, known_host_pattern_to_identity, pattern_identity};

verus! {

/// The records that read back, in store order; the others are skipped.
pub open spec fn readable_records(entries: Seq<PersistedView>) -> Seq<StoredView>
    decreases entries.len(),
{
    if entries.len() == 0 {
        Seq::empty()
    } else {
        let before = readable_records(entries.drop_last());
        match stored_from_persisted(entries.last()) {
            Ok(s) => before.push(s),
            Err(_) => before,
        }
    }
}

/// The sort key of a listing: the last-seen time, 0 when unknown.
pub open spec fn recency(s: StoredView) -> u64 {
    match s.last_seen {
        Some(t) => t,
        None => 0,
    }
}

/// Where a record goes in a list sorted by decreasing recency: after every
/// record at least as recent, scanning from `i`.
pub open spec fn insertion_point(sorted: Seq<StoredView>, x: StoredView, i: int) -> int
    decreases sorted.len() - i,
{
    if i < 0 || i >= sorted.len() {
        sorted.len() as int
    } else if recency(sorted[i]) < recency(x) {
        i
    } else {
        insertion_point(sorted, x, i + 1)
    }
}

/// Inserts a record into a list sorted by decreasing recency, after the
/// records at least as recent (so equal records keep their order).
pub open spec fn insert_by_recency(sorted: Seq<StoredView>, x: StoredView) -> Seq<StoredView> {
    let j = insertion_point(sorted, x, 0);
    sorted.subrange(0, j).push(x) + sorted.subrange(j, sorted.len() as int)
}

/// A stable sort by decreasing recency.
pub open spec fn sort_by_recency(s: Seq<StoredView>) -> Seq<StoredView>
    decreases s.len(),
{
    if s.len() == 0 {
        Seq::empty()
    } else {
        insert_by_recency(sort_by_recency(s.drop_last()), s.last())
    }
}

/// Whether a list is sorted by decreasing recency.
pub open spec fn sorted_by_recency(s: Seq<StoredView>) -> bool {
    forall|i: int, j: int| 0 <= i < j < s.len() ==> recency(s[i]) >= recency(s[j])
}

/// The mathematical value of a listed host.
pub struct KnownHostView {
    pub identity: IdentityView,
    pub algorithm: Seq<char>,
    pub fingerprint: Seq<char>,
    pub public_key: Seq<char>,
    pub discovered_at: Option<u64>,
    pub last_seen: Option<u64>,
}

impl View for KnownHost {
    type V = KnownHostView;

    open spec fn view(&self) -> KnownHostView {
        KnownHostView {
            identity: self.identity@,
            algorithm: self.algorithm@,
            fingerprint: self.fingerprint@,
            public_key: self.public_key@,
            discovered_at: self.discovered_at,
            last_seen: self.last_seen,
        }
    }
}

/// A record as a listed host.
pub open spec fn as_known_host(s: StoredView) -> KnownHostView {
    KnownHostView {
        identity: s.identity,
        algorithm: s.details.algorithm,
        fingerprint: s.details.fingerprint,
        public_key: s.public_key,
        discovered_at: s.discovered_at,
        last_seen: s.last_seen,
    }
}

/// The known-hosts listing of a trust store: the records that read back,
/// most recently seen first (ties keep store order).
pub open spec fn listing(entries: Seq<PersistedView>) -> Seq<KnownHostView> {
    let sorted = sort_by_recency(readable_records(entries));
    Seq::new(sorted.len(), |i: int| as_known_host(sorted[i]))
}

/// The listing of what was read from the trust store: nothing when the file
/// is missing, the read failure when it could not be read.
pub open spec fn listing_of(read: Result<Option<Seq<PersistedView>>, Seq<char>>) -> Result<
    Seq<KnownHostView>,
    Seq<char>,
> {
    match read {
        Err(m) => Err(m),
        Ok(None) => Ok(Seq::empty()),
        Ok(Some(entries)) => Ok(listing(entries)),
    }
}

/// The known-hosts listing shows the records that read back, each once, as
/// listed hosts, newest activity first: its hosts are those of a
/// reordering of the readable records, sorted by decreasing last-seen time.
pub proof fn law_listing_is_the_readable_records_newest_first(entries: Seq<PersistedView>)
    ensures
        exists|sorted: Seq<StoredView>|
            sorted.to_multiset() == readable_records(entries).to_multiset() && sorted_by_recency(sorted)
                && listing(entries) == Seq::new(sorted.len(), |i: int| as_known_host(sorted[i])),
{
    let sorted = sort_by_recency(readable_records(entries));
    lemma_sort_is_permutation(readable_records(entries));
    lemma_sort_is_sorted(readable_records(entries));
    assert(listing(entries) == Seq::new(sorted.len(), |i: int| as_known_host(sorted[i])));
}

/// The records of a list seen at one recency, in list order.
pub open spec fn at_recency(s: Seq<StoredView>, r: u64) -> Seq<StoredView>
    decreases s.len(),
{
    if s.len() == 0 {
        Seq::empty()
    } else if recency(s.last()) == r {
        at_recency(s.drop_last(), r).push(s.last())
    } else {
        at_recency(s.drop_last(), r)
    }
}

/// Picking the records of one recency distributes over joining lists.
proof fn lemma_at_recency_append(a: Seq<StoredView>, b: Seq<StoredView>, r: u64)
    ensures
        at_recency(a + b, r) == at_recency(a, r) + at_recency(b, r),
    decreases b.len(),
{
    if b.len() == 0 {
        assert(a + b =~= a);
        assert(at_recency(a, r) + at_recency(b, r) =~= at_recency(a, r));
    } else {
        lemma_at_recency_append(a, b.drop_last(), r);
        assert((a + b).drop_last() =~= a + b.drop_last());
        assert((a + b).last() == b.last());
        if recency(b.last()) == r {
            assert(at_recency(a, r) + at_recency(b, r) =~= (at_recency(a, r) + at_recency(b.drop_last(), r)).push(
                b.last(),
            ));
        }
    }
}

/// A list whose records are all less recent than `r` has none at `r`.
proof fn lemma_at_recency_none(b: Seq<StoredView>, r: u64)
    requires
        forall|k: int| 0 <= k < b.len() ==> recency(#[trigger] b[k]) < r,
    ensures
        at_recency(b, r) == Seq::<StoredView>::empty(),
    decreases b.len(),
{
    if b.len() > 0 {
        lemma_at_recency_none(b.drop_last(), r);
        assert(recency(b[b.len() - 1]) < r);
    }
}

/// The known-hosts listing comes most recently seen first: along the
/// listing, the last-seen time (0 where unknown) never increases.
pub proof fn law_listing_is_most_recently_seen_first(entries: Seq<PersistedView>)
    ensures
        forall|i: int, j: int|
            0 <= i < j < listing(entries).len() ==> (match (#[trigger] listing(entries)[i]).last_seen {
                Some(t) => t,
                None => 0u64,
            }) >= (match (#[trigger] listing(entries)[j]).last_seen {
                Some(t) => t,
                None => 0u64,
            }),
{
    let sorted = sort_by_recency(readable_records(entries));
    lemma_sort_is_sorted(readable_records(entries));
    assert forall|i: int, j: int| 0 <= i < j < listing(entries).len() implies (match (#[trigger] listing(
        entries,
    )[i]).last_seen {
        Some(t) => t,
        None => 0u64,
    }) >= (match (#[trigger] listing(entries)[j]).last_seen {
        Some(t) => t,
        None => 0u64,
    }) by {
        assert(listing(entries)[i] == as_known_host(sorted[i]));
        assert(listing(entries)[j] == as_known_host(sorted[j]));
        assert(recency(sorted[i]) >= recency(sorted[j]));
    }
}

/// The listing's sort is stable: the records of any one last-seen time keep
/// their store order.
pub proof fn law_listing_keeps_store_order_among_equals(s: Seq<StoredView>, r: u64)
    ensures
        at_recency(sort_by_recency(s), r) == at_recency(s, r),
    decreases s.len(),
{
    if s.len() > 0 {
        law_listing_keeps_store_order_among_equals(s.drop_last(), r);
        lemma_sort_is_sorted(s.drop_last());
        let sorted = sort_by_recency(s.drop_last());
        let x = s.last();
        let j = insertion_point(sorted, x, 0);
        lemma_insertion_point_bounds(sorted, x, 0);
        let a = sorted.subrange(0, j);
        let b = sorted.subrange(j, sorted.len() as int);
        assert(sorted =~= a + b);
        lemma_at_recency_append(a, b, r);
        lemma_at_recency_append(a.push(x), b, r);
        assert(sort_by_recency(s) == a.push(x) + b);
        assert(a.push(x).drop_last() =~= a);
        assert(s.drop_last().push(x) =~= s);
        if recency(x) == r {
            assert forall|k: int| 0 <= k < b.len() implies recency(#[trigger] b[k]) < r by {
                if k > 0 {
                    assert(recency(sorted[j]) >= recency(sorted[j + k]));
                }
            }
            lemma_at_recency_none(b, r);
            assert(at_recency(a, r) + at_recency(b, r) =~= at_recency(a, r));
            assert(at_recency(a.push(x), r) + at_recency(b, r) =~= at_recency(a, r).push(x));
        }
    }
}

/// Sorting keeps the records, only reordering them.
pub proof fn lemma_sort_is_permutation(s: Seq<StoredView>)
    ensures
        sort_by_recency(s).to_multiset() == s.to_multiset(),
        sort_by_recency(s).len() == s.len(),
    decreases s.len(),
{
    broadcast use vstd::seq_lib::group_seq_properties, vstd::multiset::group_multiset_axioms;
    if s.len() > 0 {
        lemma_sort_is_permutation(s.drop_last());
        let sorted = sort_by_recency(s.drop_last());
        let x = s.last();
        let j = insertion_point(sorted, x, 0);
        lemma_insertion_point_bounds(sorted, x, 0);
        let a = sorted.subrange(0, j);
        let b = sorted.subrange(j, sorted.len() as int);
        assert(sorted == a + b);
        vstd::seq_lib::lemma_multiset_commutative(a.push(x), b);
        vstd::seq_lib::lemma_multiset_commutative(a, b);
        assert(s == s.drop_last().push(x));
    }
}

proof fn lemma_insertion_point_bounds(sorted: Seq<StoredView>, x: StoredView, i: int)
    requires
        0 <= i <= sorted.len(),
    ensures
        i <= insertion_point(sorted, x, i) <= sorted.len(),
        forall|k: int| i <= k < insertion_point(sorted, x, i) ==> recency(sorted[k]) >= recency(x),
        insertion_point(sorted, x, i) < sorted.len() ==> recency(sorted[insertion_point(sorted, x, i)])
            < recency(x),
    decreases sorted.len() - i,
{
    if i < sorted.len() && recency(sorted[i]) >= recency(x) {
        lemma_insertion_point_bounds(sorted, x, i + 1);
    }
}

/// The listing is sorted by decreasing recency.
pub proof fn lemma_sort_is_sorted(s: Seq<StoredView>)
    ensures
        sorted_by_recency(sort_by_recency(s)),
    decreases s.len(),
{
    if s.len() > 0 {
        lemma_sort_is_sorted(s.drop_last());
        let sorted = sort_by_recency(s.drop_last());
        let x = s.last();
        let j = insertion_point(sorted, x, 0);
        lemma_insertion_point_bounds(sorted, x, 0);
        let r = insert_by_recency(sorted, x);
        assert forall|p: int, q: int| 0 <= p < q < r.len() implies recency(r[p]) >= recency(r[q]) by {
            if q < j {
                assert(r[p] == sorted[p] && r[q] == sorted[q]);
            } else if q == j {
                assert(r[q] == x);
                assert(r[p] == sorted[p]);
            } else if p < j {
                assert(r[p] == sorted[p]);
                assert(r[q] == sorted[q - 1]);
            } else if p == j {
                assert(r[p] == x);
                assert(r[q] == sorted[q - 1]);
                assert(recency(sorted[j]) < recency(x));
            } else {
                assert(r[p] == sorted[p - 1] && r[q] == sorted[q - 1]);
            }
        }
    }
}

/// The recency of a record.
fn recency_of(s: &StoredHostKey) -> (r: u64)
    ensures
        r == recency(s@),
{
    match s.last_seen {
        Some(t) => t,
        None => 0,
    }
}

/// Inserts a record where `insert_by_recency` puts it.
fn insert_sorted(sorted: &mut Vec<StoredHostKey>, x: StoredHostKey)
    ensures
        stored_views(final(sorted)@) == insert_by_recency(stored_views(old(sorted)@), x@),
{
    let ghost views = stored_views(sorted@);
    let key: u64 = match x.last_seen {
        Some(t) => t,
        None => 0,
    };
    let mut j: usize = 0;
    while j < sorted.len() && recency_of(&sorted[j]) >= key
        invariant
            j <= sorted@.len(),
            views == stored_views(sorted@),
            key == recency(x@),
            insertion_point(views, x@, 0) == insertion_point(views, x@, j as int),
        decreases sorted.len() - j,
    {
        assert(views[j as int] == sorted@[j as int]@);
        j = j + 1;
    }
    if j < sorted.len() {
        assert(views[j as int] == sorted@[j as int]@);
    }
    assert(insertion_point(views, x@, 0) == j);
    let ghost xv = x@;
    sorted.insert(j, x);
    assert(stored_views(sorted@) =~= views.subrange(0, j as int).push(xv) + views.subrange(
        j as int,
        views.len() as int,
    ));
}

impl HostKeyVerifier {
/// The known hosts of what was read from the trust store, most recently
/// seen first.  A record that does not read back is skipped rather than
/// hiding the rest; a store that could not be read fails the listing.
pub fn list_known_hosts(&self, read: Result<Option<Vec<PersistedHostKey>>, String>) -> (r: Result<
    Vec<KnownHost>,
    String,
>)
    ensures
        match listing_of(crate::host_key_store::read_views(read)) {
            Ok(l) => r matches Ok(x) && Seq::new(x@.len(), |i: int| x@[i]@) == l,
            Err(m) => r matches Err(e) && e@ == m,
        },
        r matches Ok(hosts) ==> forall|i: int, j: int|
            0 <= i < j < hosts@.len() ==> (match (#[trigger] hosts@[i]).last_seen {
                Some(t) => t,
                None => 0u64,
            }) >= (match (#[trigger] hosts@[j]).last_seen {
                Some(t) => t,
                None => 0u64,
            }),
{
    let r = self.list_known_hosts_in_order(read);
    proof {
        match crate::host_key_store::read_views(read) {
            Ok(Some(entries)) => {
                law_listing_is_most_recently_seen_first(entries);
                let hosts = r->Ok_0;
                assert forall|i: int, j: int| 0 <= i < j < hosts@.len() implies (match (#[trigger] hosts@[i]).last_seen {
                    Some(t) => t,
                    None => 0u64,
                }) >= (match (#[trigger] hosts@[j]).last_seen {
                    Some(t) => t,
                    None => 0u64,
                }) by {
                    let views = Seq::new(hosts@.len(), |k: int| hosts@[k]@);
                    assert(views == listing(entries));
                    assert(views[i] == hosts@[i]@);
                    assert(views[j] == hosts@[j]@);
                }
            },
            Ok(None) => {
                let hosts = r->Ok_0;
                assert(Seq::new(hosts@.len(), |k: int| hosts@[k]@).len() == 0);
            },
            Err(_) => {},
        }
    }
    r
}

/// The listing of what was read, as `list_known_hosts` gives it.
fn list_known_hosts_in_order(&self, read: Result<Option<Vec<PersistedHostKey>>, String>) -> (r: Result<
    Vec<KnownHost>,
    String,
>)
    ensures
        match listing_of(crate::host_key_store::read_views(read)) {
            Ok(l) => r matches Ok(x) && Seq::new(x@.len(), |i: int| x@[i]@) == l,
            Err(m) => r matches Err(e) && e@ == m,
        },
{
    let entries = match read {
        Err(error) => {
            return Err(error);
        },
        Ok(None) => {
            let v: Vec<KnownHost> = Vec::new();
            assert(Seq::new(v@.len(), |i: int| v@[i]@) =~= Seq::<KnownHostView>::empty());
            return Ok(v);
        },
        Ok(Some(entries)) => entries,
    };
    let ghost pviews = persisted_views(entries@);
    let mut sorted: Vec<StoredHostKey> = Vec::new();
    let mut i: usize = 0;
    assert(pviews.subrange(0, 0) =~= Seq::<PersistedView>::empty());
    assert(stored_views(sorted@) =~= Seq::<StoredView>::empty());
    while i < entries.len()
        invariant
            i <= entries@.len(),
            pviews == persisted_views(entries@),
            stored_views(sorted@) == sort_by_recency(readable_records(pviews.subrange(0, i as int))),
        decreases entries.len() - i,
    {
        let ghost next = pviews.subrange(0, i + 1);
        assert(next.drop_last() == pviews.subrange(0, i as int));
        assert(next.last() == entries@[i as int]@);
        match StoredHostKey::try_from_persisted(entries[i].duplicate()) {
            Ok(stored) => {
                let ghost sv = stored@;
                let ghost prior = readable_records(pviews.subrange(0, i as int));
                assert(readable_records(next) == prior.push(sv));
                assert(prior.push(sv).drop_last() == prior);
                insert_sorted(&mut sorted, stored);
            },
            Err(_) => {
                assert(readable_records(next) == readable_records(pviews.subrange(0, i as int)));
            },
        }
        i = i + 1;
    }
    assert(pviews.subrange(0, entries@.len() as int) == pviews);
    let mut hosts: Vec<KnownHost> = Vec::new();
    let ghost sviews = stored_views(sorted@);
    let mut k: usize = 0;
    while k < sorted.len()
        invariant
            k <= sorted@.len(),
            sviews == stored_views(sorted@),
            hosts@.len() == k,
            forall|t: int| 0 <= t < k ==> #[trigger] hosts@[t]@ == as_known_host(sviews[t]),
        decreases sorted.len() - k,
    {
        let s = &sorted[k];
        assert(sviews[k as int] == s@);
        hosts.push(
            KnownHost {
                identity: s.identity.duplicate(),
                algorithm: s.details.algorithm.clone(),
                fingerprint: s.details.fingerprint.clone(),
                public_key: s.public_key.clone(),
                discovered_at: s.discovered_at,
                last_seen: s.last_seen,
            },
        );
        k = k + 1;
    }
    assert(Seq::new(hosts@.len(), |t: int| hosts@[t]@) =~= listing(pviews));
    Ok(hosts)
}

/// Forgetting a host: `None` when the store holds nothing for it (nothing
/// to write), else the records for the other identities, to be written.
pub fn remove_known_host(&self, records: &Vec<StoredHostKey>, identity: &HostKeyIdentity) -> (r: Option<Vec<StoredHostKey>>)
    ensures
        has_record(stored_views(records@), identity@) <==> r is Some,
        r matches Some(rest) ==> stored_views(rest@) == records_without(
            stored_views(records@),
            identity@,
        ),
{
    if has_any_identity(records, identity) {
        Some(remove_records_for(records, identity))
    } else {
        None
    }
}

}

/// Whether the records hold one for an identity.
fn has_any_identity(records: &Vec<StoredHostKey>, identity: &HostKeyIdentity) -> (r: bool)
    ensures
        r == has_record(stored_views(records@), identity@),
{
    let ghost views = stored_views(records@);
    let mut i: usize = 0;
    while i < records.len()
        invariant
            i <= records@.len(),
            views == stored_views(records@),
            forall|j: int| 0 <= j < i ==> views[j].identity != identity@,
        decreases records.len() - i,
    {
        assert(views[i as int] == records@[i as int]@);
        if records[i].identity.same_as(identity) {
            return true;
        }
        i = i + 1;
    }
    false
}

/// Importing one `known_hosts` pattern: a concrete host not yet trusted
/// (on a direct route) becomes a record; the count says how many were added.
pub open spec fn import_pattern(
    records: Seq<StoredView>,
    count: nat,
    pattern: Seq<char>,
    key: Seq<char>,
    details: DetailsView,
    now: u64,
) -> (Seq<StoredView>, nat) {
    match pattern_identity(pattern) {
        None => (records, count),
        Some((host, port)) => {
            let id = identity_of(host, port as u16, RouteView::Direct);
            if has_record(records, id) {
                (records, count)
            } else {
                (records.push(new_record(id, key, details, now)), count + 1)
            }
        },
    }
}

/// Importing the patterns of one line, in order.
pub open spec fn import_patterns(
    records: Seq<StoredView>,
    count: nat,
    patterns: Seq<Seq<char>>,
    key: Seq<char>,
    details: DetailsView,
    now: u64,
) -> (Seq<StoredView>, nat)
    decreases patterns.len(),
{
    if patterns.len() == 0 {
        (records, count)
    } else {
        let (r, c) = import_patterns(records, count, patterns.drop_last(), key, details, now);
        import_pattern(r, c, patterns.last(), key, details, now)
    }
}

/// Importing the lines of a `known_hosts` file, in order.  Marked lines
/// (certificate authorities, revoked keys) and hashed host names are
/// skipped, and so is a key whose metadata cannot be computed.
pub open spec fn import_lines(records: Seq<StoredView>, count: nat, lines: Seq<KnownHostsLineView>, now: u64) -> (
    Seq<StoredView>,
    nat,
)
    decreases lines.len(),
{
    if lines.len() == 0 {
        (records, count)
    } else {
        let (r, c) = import_lines(records, count, lines.drop_last(), now);
        let line = lines.last();
        if line.marker is Some {
            (r, c)
        } else {
            match line.patterns {
                PatternsView::Plain(list) => match openssh_key_parse(line.public_key) {
                    Ok(d) => import_patterns(r, c, list, line.public_key, d, now),
                    Err(_) => (r, c),
                },
                PatternsView::Hashed { .. } => (r, c),
            }
        }
    }
}

/// Imports one pattern.
fn import_one(
    records: &mut Vec<StoredHostKey>,
    count: &mut usize,
    pattern: &str,
    key: &String,
    details: &crate::host_key::HostKeyDetails,
    now: u64,
)
    requires
        *old(count) <= old(records)@.len(),
    ensures
        *final(count) <= final(records)@.len(),
        (stored_views(final(records)@), *final(count) as nat) == import_pattern(
            stored_views(old(records)@),
            *old(count) as nat,
            pattern@,
            key@,
            details@,
            now,
        ),
{
    match known_host_pattern_to_identity(pattern) {
        None => {},
        Some((host, port)) => {
            let identity = HostKeyIdentity::new(host.as_str(), port, HostKeyRoute::Direct);
            assert(HostKeyRoute::Direct@ == RouteView::Direct);
            if has_any_identity(records, &identity) {
                return;
            }
            let ghost before = records@;
            records.push(
                StoredHostKey {
                    identity,
                    public_key: key.clone(),
                    details: details.duplicate(),
                    discovered_at: Some(now),
                    last_seen: Some(now),
                },
            );
            assert(stored_views(records@) =~= stored_views(before).push(records@.last()@));
            assert(*count < records.len());
            *count = *count + 1;
        },
    }
}

impl HostKeyVerifier {
/// Adds the plain entries of a `known_hosts` file (its text) to the trust
/// records, each concrete host once, on a direct route; lines that do not
/// parse are skipped.  Returns the records and how many were added; the
/// caller writes them when any was.
pub fn import_system_known_hosts(&self, records: Vec<StoredHostKey>, input: &str, now: u64) -> (r: (
    Vec<StoredHostKey>,
    usize,
))
    ensures
        (stored_views(r.0@), r.1 as nat) == import_lines(stored_views(records@), 0, known_hosts_parse(input@), now),
{
    let lines = parse_known_hosts(input);
    self.import_known_hosts_lines(records, &lines, now)
}

/// Adds the plain entries of parsed `known_hosts` lines to the trust
/// records.
pub fn import_known_hosts_lines(&self, records: Vec<StoredHostKey>, lines: &Vec<KnownHostsLine>, now: u64) -> (r: (
    Vec<StoredHostKey>,
    usize,
))
    ensures
        (stored_views(r.0@), r.1 as nat) == import_lines(
            stored_views(records@),
            0,
            Seq::new(lines@.len(), |i: int| lines@[i]@),
            now,
        ),
{
    let ghost start = stored_views(records@);
    let ghost lviews = Seq::new(lines@.len(), |i: int| lines@[i]@);
    let mut records = records;
    let mut count: usize = 0;
    let mut i: usize = 0;
    assert(lviews.subrange(0, 0) =~= Seq::<KnownHostsLineView>::empty());
    while i < lines.len()
        invariant
            i <= lines@.len(),
            lviews == Seq::new(lines@.len(), |k: int| lines@[k]@),
            count <= records@.len(),
            (stored_views(records@), count as nat) == import_lines(
                start,
                0,
                lviews.subrange(0, i as int),
                now,
            ),
        decreases lines.len() - i,
    {
        let line = &lines[i];
        let ghost next = lviews.subrange(0, i + 1);
        assert(next.drop_last() == lviews.subrange(0, i as int));
        assert(next.last() == line@);
        if line.marker.is_none() {
            match &line.patterns {
                KnownHostPatterns::Patterns(list) => {
                    match parse_key_details(line.public_key.as_str()) {
                        Ok(details) => {
                            let ghost r0 = stored_views(records@);
                            let ghost c0 = count as nat;
                            let ghost pviews = crate::host_patterns::string_views(list@);
                            let mut k: usize = 0;
                            assert(pviews.subrange(0, 0) =~= Seq::<Seq<char>>::empty());
                            while k < list.len()
                                invariant
                                    k <= list@.len(),
                                    pviews == crate::host_patterns::string_views(list@),
                                    count <= records@.len(),
                                    (stored_views(records@), count as nat) == import_patterns(
                                        r0,
                                        c0,
                                        pviews.subrange(0, k as int),
                                        line.public_key@,
                                        details@,
                                        now,
                                    ),
                                decreases list.len() - k,
                            {
                                let ghost pnext = pviews.subrange(0, k + 1);
                                assert(pnext.drop_last() == pviews.subrange(0, k as int));
                                assert(pnext.last() == list@[k as int]@);
                                import_one(
                                    &mut records,
                                    &mut count,
                                    list[k].as_str(),
                                    &line.public_key,
                                    &details,
                                    now,
                                );
                                k = k + 1;
                            }
                            assert(pviews.subrange(0, list@.len() as int) == pviews);
                        },
                        Err(_) => {},
                    }
                },
                KnownHostPatterns::HashedName { .. } => {},
            }
        }
        i = i + 1;
    }
    assert(lviews.subrange(0, lines@.len() as int) == lviews);
    (records, count)
}

}

} // verus!
