//! What host-key verification promises as a whole: fail-closed trust
//! decisions, trust that is remembered once written, and an import of
//! OpenSSH `known_hosts` that can be repeated safely.
use vstd::prelude::*;
use crate::host_key::{DetailsView, HostKeyAcceptance, HostKeyPolicy, IdentityView, RejectionView, RouteView, identity_of};
use crate::host_key_catalog::{import_lines, import_pattern, import_patterns};
use crate::host_key_store::{KnownHostsLineView, OpenSshView, StoredView, openssh_key_parse, openssh_lookup};
use crate::host_key_verifier::{
    ConfirmedView, PlanView, confirmation_from, has_record, known_record_from, new_record, record_details,
    verify_plan,
};
use crate::host_patterns::{PatternsView, pattern_identity};

verus! {

/// Insecure mode accepts every key, whatever the stores hold.
pub proof fn law_insecure_mode_accepts_every_key(
    confirmations: Seq<ConfirmedView>,
    id: IdentityView,
    key: Seq<char>,
    presented: DetailsView,
    app: Result<Seq<StoredView>, Seq<char>>,
    openssh: Result<Seq<OpenSshView>, Seq<char>>,
    now: u64,
)
    ensures
        verify_plan(HostKeyPolicy::Insecure, confirmations, id, key, presented, app, openssh, now)
            == PlanView::Decided(Ok(HostKeyAcceptance::Insecure)),
{
}

/// Verification fails closed: when the app trust store or the OpenSSH file
/// cannot be read, the key is rejected with the reason.
pub proof fn law_unreadable_stores_fail_closed(
    policy: HostKeyPolicy,
    confirmations: Seq<ConfirmedView>,
    id: IdentityView,
    key: Seq<char>,
    presented: DetailsView,
    app: Result<Seq<StoredView>, Seq<char>>,
    openssh: Result<Seq<OpenSshView>, Seq<char>>,
    now: u64,
)
    requires
        policy != HostKeyPolicy::Insecure,
        app is Err || openssh is Err,
    ensures
        verify_plan(policy, confirmations, id, key, presented, app, openssh, now) == PlanView::Decided(
            Err(
                RejectionView::StoreUnavailable {
                    identity: id,
                    presented,
                    reason: match app {
                        Err(reason) => reason,
                        Ok(_) => openssh->Err_0,
                    },
                },
            ),
        ),
{
}

/// A key the OpenSSH file revokes is rejected, whatever the app trusts and
/// whatever the user confirmed.
pub proof fn law_revocation_cannot_be_bypassed(
    policy: HostKeyPolicy,
    confirmations: Seq<ConfirmedView>,
    id: IdentityView,
    key: Seq<char>,
    presented: DetailsView,
    records: Seq<StoredView>,
    openssh: Seq<OpenSshView>,
    now: u64,
)
    requires
        policy != HostKeyPolicy::Insecure,
        openssh_lookup(openssh, key) is Revoked,
    ensures
        verify_plan(policy, confirmations, id, key, presented, Ok(records), Ok(openssh), now)
            == PlanView::Decided(Err(RejectionView::Revoked { identity: id, presented })),
{
}

/// A changed key is rejected, in every mode but insecure, unless the user
/// confirmed exactly this key as a replacement for this identity.
pub proof fn law_changed_keys_need_a_confirmed_replacement(
    policy: HostKeyPolicy,
    confirmations: Seq<ConfirmedView>,
    id: IdentityView,
    key: Seq<char>,
    presented: DetailsView,
    records: Seq<StoredView>,
    openssh: Seq<OpenSshView>,
    now: u64,
)
    requires
        policy != HostKeyPolicy::Insecure,
        !(openssh_lookup(openssh, key) is Revoked),
        has_record(records, id),
        known_record_from(records, id, key, 0, None) is None,
        !(confirmation_from(confirmations, id, presented, 0) matches Some(c) && c.replace_existing),
    ensures
        verify_plan(policy, confirmations, id, key, presented, Ok(records), Ok(openssh), now)
            == PlanView::Decided(
            Err(
                RejectionView::Changed {
                    identity: id,
                    presented,
                    expected: record_details(records, id),
                },
            ),
        ),
{
}

/// Strict mode never accepts a key nobody vouches for: with no app record
/// for the identity (records of other hosts, ports or routes do not count),
/// nothing in the OpenSSH file and no confirmation, the key is unknown.
pub proof fn law_strict_mode_rejects_unknown_keys(
    confirmations: Seq<ConfirmedView>,
    id: IdentityView,
    key: Seq<char>,
    presented: DetailsView,
    records: Seq<StoredView>,
    openssh: Seq<OpenSshView>,
    now: u64,
)
    requires
        !has_record(records, id),
        openssh_lookup(openssh, key) is Unknown,
        confirmation_from(confirmations, id, presented, 0) is None,
    ensures
        verify_plan(HostKeyPolicy::Strict, confirmations, id, key, presented, Ok(records), Ok(openssh), now)
            == PlanView::Decided(Err(RejectionView::Unknown { identity: id, presented })),
{
}

/// A record for the identity with exactly the key is found.
proof fn lemma_known_record_found(
    records: Seq<StoredView>,
    id: IdentityView,
    key: Seq<char>,
    i: int,
    found: Option<int>,
    j: int,
)
    requires
        0 <= i,
        (i <= j < records.len() && records[j].identity == id && records[j].public_key == key)
            || found is Some,
    ensures
        known_record_from(records, id, key, i, found) is Some,
    decreases records.len() - i,
{
    if i < records.len() {
        let next = if records[i].identity == id && records[i].public_key == key {
            Some(i)
        } else {
            found
        };
        lemma_known_record_found(records, id, key, i + 1, next, j);
    }
}

/// Whether a plan accepts the key as already known.
pub open spec fn known_again(plan: PlanView) -> bool {
    match plan {
        PlanView::Persist { acceptance, .. } => acceptance == HostKeyAcceptance::Known,
        _ => false,
    }
}

/// Trust is remembered: a key accepted and written in `AcceptNew` mode is
/// known the next time it is presented for the identity, in any mode that
/// checks keys and without any confirmation.
pub proof fn law_accepted_keys_are_known_afterwards(
    id: IdentityView,
    key: Seq<char>,
    presented: DetailsView,
    records: Seq<StoredView>,
    openssh: Seq<OpenSshView>,
    now: u64,
    policy: HostKeyPolicy,
    later: u64,
)
    requires
        !has_record(records, id),
        openssh_lookup(openssh, key) is Unknown,
        policy != HostKeyPolicy::Insecure,
    ensures
        verify_plan(
            HostKeyPolicy::AcceptNew,
            Seq::empty(),
            id,
            key,
            presented,
            Ok(records),
            Ok(openssh),
            now,
        ) == (PlanView::Persist {
            entries: records.push(new_record(id, key, presented, now)),
            acceptance: HostKeyAcceptance::AcceptedNew,
            required: true,
        }),
        known_again(
            verify_plan(
                policy,
                Seq::empty(),
                id,
                key,
                presented,
                Ok(records.push(new_record(id, key, presented, now))),
                Ok(openssh),
                later,
            ),
        ),
{
    let entries = records.push(new_record(id, key, presented, now));
    assert(confirmation_from(Seq::<ConfirmedView>::empty(), id, presented, 0) is None);
    assert(entries[records.len() as int].identity == id);
    assert(has_record(entries, id));
    lemma_known_record_found(entries, id, key, 0, None, records.len() as int);
}

/// Whether a `known_hosts` pattern is a concrete host naming an identity
/// on a direct route.
pub open spec fn names_identity(pattern: Seq<char>, id: IdentityView) -> bool {
    match pattern_identity(pattern) {
        Some((h, p)) => identity_of(h, p as u16, RouteView::Direct) == id,
        None => false,
    }
}

/// Whether a pattern list names an identity.
pub open spec fn patterns_name(patterns: Seq<Seq<char>>, id: IdentityView) -> bool {
    exists|j: int| 0 <= j < patterns.len() && #[trigger] names_identity(patterns[j], id)
}

/// Whether the import turns a line into a record for an identity: an
/// unmarked line with plain patterns, a readable key, and a concrete
/// pattern naming the identity.
pub open spec fn line_names(line: KnownHostsLineView, id: IdentityView) -> bool {
    &&& line.marker is None
    &&& match line.patterns {
        PatternsView::Plain(list) => openssh_key_parse(line.public_key) is Ok && patterns_name(list, id),
        _ => false,
    }
}

/// Whether some lines name an identity.
pub open spec fn lines_name(lines: Seq<KnownHostsLineView>, id: IdentityView) -> bool {
    exists|i: int| 0 <= i < lines.len() && #[trigger] line_names(lines[i], id)
}

/// Importing a pattern keeps every record and the count grows by what it
/// adds; afterwards the pattern's identity has a record.
proof fn lemma_import_pattern(
    records: Seq<StoredView>,
    count: nat,
    pattern: Seq<char>,
    key: Seq<char>,
    details: DetailsView,
    now: u64,
)
    ensures
        ({
            let (r, c) = import_pattern(records, count, pattern, key, details, now);
            &&& r.len() >= records.len()
            &&& r.subrange(0, records.len() as int) == records
            &&& c == count + (r.len() - records.len())
            &&& pattern_identity(pattern) matches Some((h, p)) ==> has_record(
                r,
                identity_of(h, p as u16, RouteView::Direct),
            )
        }),
{
    let (r, c) = import_pattern(records, count, pattern, key, details, now);
    assert(records.subrange(0, records.len() as int) =~= records);
    if r.len() > records.len() {
        assert(r.subrange(0, records.len() as int) =~= records);
        assert(r[records.len() as int].identity == r.last().identity);
    }
}

/// A record stays found when records are only added after it.
proof fn lemma_has_record_kept(before: Seq<StoredView>, after: Seq<StoredView>, id: IdentityView)
    requires
        has_record(before, id),
        after.len() >= before.len(),
        after.subrange(0, before.len() as int) == before,
    ensures
        has_record(after, id),
{
    let k = choose|k: int| 0 <= k < before.len() && before[k].identity == id;
    assert(after[k] == after.subrange(0, before.len() as int)[k]);
}

/// Importing patterns keeps every record, counts what it adds, and leaves
/// a record for each identity the patterns name.
#[verifier::rlimit(40)]
proof fn lemma_import_patterns(
    records: Seq<StoredView>,
    count: nat,
    patterns: Seq<Seq<char>>,
    key: Seq<char>,
    details: DetailsView,
    now: u64,
)
    ensures
        ({
            let (r, c) = import_patterns(records, count, patterns, key, details, now);
            &&& r.len() >= records.len()
            &&& r.subrange(0, records.len() as int) == records
            &&& c == count + (r.len() - records.len())
            &&& forall|id: IdentityView| patterns_name(patterns, id) ==> has_record(r, id)
        }),
    decreases patterns.len(),
{
    if patterns.len() == 0 {
        assert(records.subrange(0, records.len() as int) =~= records);
    } else {
        let init = patterns.drop_last();
        lemma_import_patterns(records, count, init, key, details, now);
        let (r0, c0) = import_patterns(records, count, init, key, details, now);
        lemma_import_pattern(r0, c0, patterns.last(), key, details, now);
        let (r, c) = import_pattern(r0, c0, patterns.last(), key, details, now);
        assert(r.subrange(0, records.len() as int) =~= r.subrange(0, r0.len() as int).subrange(
            0,
            records.len() as int,
        ));
        assert forall|id: IdentityView| patterns_name(patterns, id) implies has_record(r, id) by {
            let j = choose|j: int| 0 <= j < patterns.len() && #[trigger] names_identity(patterns[j], id);
            if j < init.len() {
                assert(init[j] == patterns[j]);
                assert(names_identity(init[j], id));
                assert(patterns_name(init, id));
                lemma_has_record_kept(r0, r, id);
            }
        }
    }
}

/// The import of the last line of some lines, after the others.
pub open spec fn import_last_line(records: Seq<StoredView>, count: nat, line: KnownHostsLineView, now: u64) -> (
    Seq<StoredView>,
    nat,
) {
    if line.marker is Some {
        (records, count)
    } else {
        match line.patterns {
            PatternsView::Plain(list) => match openssh_key_parse(line.public_key) {
                Ok(d) => import_patterns(records, count, list, line.public_key, d, now),
                Err(_) => (records, count),
            },
            PatternsView::Hashed { .. } => (records, count),
        }
    }
}

/// Importing one line keeps every record, counts what it adds, and leaves a
/// record for each identity the line names.
proof fn lemma_import_line(records: Seq<StoredView>, count: nat, line: KnownHostsLineView, now: u64)
    ensures
        ({
            let (r, c) = import_last_line(records, count, line, now);
            &&& r.len() >= records.len()
            &&& r.subrange(0, records.len() as int) == records
            &&& c == count + (r.len() - records.len())
            &&& forall|id: IdentityView| line_names(line, id) ==> has_record(r, id)
        }),
{
    if line.marker is None && line.patterns is Plain && openssh_key_parse(line.public_key) is Ok {
        let list = line.patterns->Plain_0;
        let d = openssh_key_parse(line.public_key)->Ok_0;
        lemma_import_patterns(records, count, list, line.public_key, d, now);
    } else {
        assert(records.subrange(0, records.len() as int) =~= records);
    }
}

/// Importing lines keeps every record, counts what it adds, and leaves a
/// record for each identity the lines name.
proof fn lemma_import_lines(records: Seq<StoredView>, count: nat, lines: Seq<KnownHostsLineView>, now: u64)
    ensures
        ({
            let (r, c) = import_lines(records, count, lines, now);
            &&& r.len() >= records.len()
            &&& r.subrange(0, records.len() as int) == records
            &&& c == count + (r.len() - records.len())
            &&& forall|id: IdentityView| lines_name(lines, id) ==> has_record(r, id)
        }),
    decreases lines.len(),
{
    if lines.len() == 0 {
        assert(records.subrange(0, records.len() as int) =~= records);
    } else {
        let init = lines.drop_last();
        lemma_import_lines(records, count, init, now);
        let (r0, c0) = import_lines(records, count, init, now);
        assert(import_lines(records, count, lines, now) == import_last_line(r0, c0, lines.last(), now));
        lemma_import_line(r0, c0, lines.last(), now);
        let (r, c) = import_lines(records, count, lines, now);
        assert(r.subrange(0, records.len() as int) =~= r.subrange(0, r0.len() as int).subrange(
            0,
            records.len() as int,
        ));
        assert forall|id: IdentityView| lines_name(lines, id) implies has_record(r, id) by {
            let i = choose|i: int| 0 <= i < lines.len() && #[trigger] line_names(lines[i], id);
            if i < init.len() {
                assert(init[i] == lines[i]);
                assert(line_names(init[i], id));
                assert(lines_name(init, id));
                lemma_has_record_kept(r0, r, id);
            }
        }
    }
}

/// Importing patterns whose identities all have records changes nothing.
proof fn lemma_import_patterns_stable(
    records: Seq<StoredView>,
    count: nat,
    patterns: Seq<Seq<char>>,
    key: Seq<char>,
    details: DetailsView,
    now: u64,
)
    requires
        forall|id: IdentityView| patterns_name(patterns, id) ==> has_record(records, id),
    ensures
        import_patterns(records, count, patterns, key, details, now) == (records, count),
    decreases patterns.len(),
{
    if patterns.len() > 0 {
        let init = patterns.drop_last();
        assert forall|id: IdentityView| patterns_name(init, id) implies has_record(records, id) by {
            let j = choose|j: int| 0 <= j < init.len() && #[trigger] names_identity(init[j], id);
            assert(patterns[j] == init[j]);
            assert(names_identity(patterns[j], id));
            assert(patterns_name(patterns, id));
        }
        lemma_import_patterns_stable(records, count, init, key, details, now);
        let last = patterns.last();
        if let Some((h, p)) = pattern_identity(last) {
            let id = identity_of(h, p as u16, RouteView::Direct);
            assert(names_identity(patterns[patterns.len() - 1], id));
            assert(patterns_name(patterns, id));
        }
    }
}

/// Importing lines whose identities all have records changes nothing.
proof fn lemma_import_lines_stable(records: Seq<StoredView>, count: nat, lines: Seq<KnownHostsLineView>, now: u64)
    requires
        forall|id: IdentityView| lines_name(lines, id) ==> has_record(records, id),
    ensures
        import_lines(records, count, lines, now) == (records, count),
    decreases lines.len(),
{
    if lines.len() > 0 {
        let init = lines.drop_last();
        assert forall|id: IdentityView| lines_name(init, id) implies has_record(records, id) by {
            let i = choose|i: int| 0 <= i < init.len() && #[trigger] line_names(init[i], id);
            assert(lines[i] == init[i]);
            assert(line_names(lines[i], id));
            assert(lines_name(lines, id));
        }
        lemma_import_lines_stable(records, count, init, now);
        let line = lines.last();
        if line.marker is None && line.patterns is Plain && openssh_key_parse(line.public_key) is Ok {
            let list = line.patterns->Plain_0;
            let d = openssh_key_parse(line.public_key)->Ok_0;
            assert forall|id: IdentityView| patterns_name(list, id) implies has_record(records, id) by {
                assert(lines[lines.len() - 1] == line);
                assert(line_names(lines[lines.len() - 1], id));
                assert(lines_name(lines, id));
            }
            lemma_import_patterns_stable(records, count, list, line.public_key, d, now);
        }
    }
}

/// Importing OpenSSH `known_hosts` can be repeated safely: the first import
/// keeps every record, counts exactly the records it adds and leaves one for
/// every concrete host it names, and importing the same lines again adds
/// nothing.
pub proof fn law_import_is_idempotent(
    records: Seq<StoredView>,
    lines: Seq<KnownHostsLineView>,
    now: u64,
    later: u64,
)
    ensures
        ({
            let (once, added) = import_lines(records, 0, lines, now);
            &&& once.subrange(0, records.len() as int) == records
            &&& added == once.len() - records.len()
            &&& forall|id: IdentityView| lines_name(lines, id) ==> has_record(once, id)
            &&& import_lines(once, 0, lines, later) == (once, 0nat)
        }),
{
    lemma_import_lines(records, 0, lines, now);
    let (once, added) = import_lines(records, 0, lines, now);
    lemma_import_lines_stable(once, 0, lines, later);
}

/// The outcome a plan leads to when any write it asks for succeeds.
pub open spec fn planned_outcome(p: PlanView) -> Result<HostKeyAcceptance, RejectionView> {
    match p {
        PlanView::Decided(r) => r,
        PlanView::Persist { acceptance, .. } => Ok(acceptance),
    }
}

/// Trust is kept per identity (host, port and route): app records of other
/// identities never change the decision for this one, which is the
/// decision an empty app store would give.
pub proof fn law_trust_is_per_identity(
    policy: HostKeyPolicy,
    confirmations: Seq<ConfirmedView>,
    id: IdentityView,
    key: Seq<char>,
    presented: DetailsView,
    records: Seq<StoredView>,
    openssh: Result<Seq<OpenSshView>, Seq<char>>,
    now: u64,
)
    requires
        forall|i: int| 0 <= i < records.len() ==> records[i].identity != id,
    ensures
        planned_outcome(verify_plan(policy, confirmations, id, key, presented, Ok(records), openssh, now))
            == planned_outcome(
            verify_plan(policy, confirmations, id, key, presented, Ok(Seq::empty()), openssh, now),
        ),
{
    assert(!has_record(records, id));
    assert(!has_record(Seq::<StoredView>::empty(), id));
}

/// The record a scan finds is one of the records.
proof fn lemma_known_record_in_range(records: Seq<StoredView>, id: IdentityView, key: Seq<char>, i: int, found: Option<int>)
    requires
        i >= 0,
        found matches Some(f) ==> 0 <= f < records.len(),
    ensures
        known_record_from(records, id, key, i, found) matches Some(f) ==> 0 <= f < records.len(),
    decreases records.len() - i,
{
    if i < records.len() {
        lemma_known_record_in_range(
            records,
            id,
            key,
            i + 1,
            if records[i].identity == id && records[i].public_key == key {
                Some(i)
            } else {
                found
            },
        );
    }
}

/// Reusing a known key keeps what was recorded: the records stay as they
/// were, in order, but for the last-seen time of the matching one.
pub proof fn law_reuse_keeps_what_was_recorded(
    policy: HostKeyPolicy,
    confirmations: Seq<ConfirmedView>,
    id: IdentityView,
    key: Seq<char>,
    presented: DetailsView,
    records: Seq<StoredView>,
    openssh: Result<Seq<OpenSshView>, Seq<char>>,
    now: u64,
)
    ensures
        verify_plan(policy, confirmations, id, key, presented, Ok(records), openssh, now) matches PlanView::Persist {
            entries,
            acceptance: HostKeyAcceptance::Known,
            ..
        } ==> entries.len() == records.len() && forall|j: int|
            0 <= j < records.len() ==> (#[trigger] entries[j]).identity == records[j].identity
                && entries[j].public_key == records[j].public_key && entries[j].details == records[j].details
                && entries[j].discovered_at == records[j].discovered_at,
{
    lemma_known_record_in_range(records, id, key, 0, None);
}

/// What an import added to `start` to make `r`: `start` stays as it was at
/// the front, and each record after it is new on a direct route, discovered
/// and last seen `now`, for an identity that no earlier record has.
pub open spec fn appended_fresh(start: Seq<StoredView>, r: Seq<StoredView>, now: u64) -> bool {
    &&& start.len() <= r.len()
    &&& r.subrange(0, start.len() as int) == start
    &&& forall|k: int|
        start.len() <= k < r.len() ==> (#[trigger] r[k]).identity.route == RouteView::Direct
            && r[k].discovered_at == Some(now) && r[k].last_seen == Some(now) && !has_record(
            r.subrange(0, k),
            r[k].identity,
        )
}

/// One pattern keeps what an import has added so far fresh.
proof fn lemma_pattern_appends_fresh(
    start: Seq<StoredView>,
    records: Seq<StoredView>,
    count: nat,
    pattern: Seq<char>,
    key: Seq<char>,
    details: DetailsView,
    now: u64,
)
    requires
        appended_fresh(start, records, now),
    ensures
        appended_fresh(start, import_pattern(records, count, pattern, key, details, now).0, now),
        import_pattern(records, count, pattern, key, details, now).0.len() - records.len() == import_pattern(
            records,
            count,
            pattern,
            key,
            details,
            now,
        ).1 - count,
{
    let (r, c) = import_pattern(records, count, pattern, key, details, now);
    if r.len() > records.len() {
        assert(r == records.push(r.last()));
        assert(r.subrange(0, start.len() as int) =~= records.subrange(0, start.len() as int));
        assert forall|k: int| start.len() <= k < r.len() implies (#[trigger] r[k]).identity.route
            == RouteView::Direct && r[k].discovered_at == Some(now) && r[k].last_seen == Some(now)
            && !has_record(r.subrange(0, k), r[k].identity) by {
            if k < records.len() {
                assert(r[k] == records[k]);
                assert(r.subrange(0, k) =~= records.subrange(0, k));
            } else {
                assert(r.subrange(0, k) =~= records);
            }
        }
    }
}

/// The patterns of a line keep what an import has added so far fresh.
proof fn lemma_patterns_append_fresh(
    start: Seq<StoredView>,
    records: Seq<StoredView>,
    count: nat,
    patterns: Seq<Seq<char>>,
    key: Seq<char>,
    details: DetailsView,
    now: u64,
)
    requires
        appended_fresh(start, records, now),
    ensures
        appended_fresh(start, import_patterns(records, count, patterns, key, details, now).0, now),
        import_patterns(records, count, patterns, key, details, now).0.len() - records.len() == import_patterns(
            records,
            count,
            patterns,
            key,
            details,
            now,
        ).1 - count,
    decreases patterns.len(),
{
    if patterns.len() > 0 {
        lemma_patterns_append_fresh(start, records, count, patterns.drop_last(), key, details, now);
        let (r, c) = import_patterns(records, count, patterns.drop_last(), key, details, now);
        lemma_pattern_appends_fresh(start, r, c, patterns.last(), key, details, now);
    }
}

/// The lines of a file keep what an import has added so far fresh.
proof fn lemma_lines_append_fresh(
    start: Seq<StoredView>,
    records: Seq<StoredView>,
    count: nat,
    lines: Seq<KnownHostsLineView>,
    now: u64,
)
    requires
        appended_fresh(start, records, now),
    ensures
        appended_fresh(start, import_lines(records, count, lines, now).0, now),
        import_lines(records, count, lines, now).0.len() - records.len() == import_lines(records, count, lines, now).1
            - count,
    decreases lines.len(),
{
    if lines.len() > 0 {
        lemma_lines_append_fresh(start, records, count, lines.drop_last(), now);
        let (r, c) = import_lines(records, count, lines.drop_last(), now);
        let line = lines.last();
        if line.marker is None {
            match line.patterns {
                PatternsView::Plain(list) => match openssh_key_parse(line.public_key) {
                    Ok(d) => lemma_patterns_append_fresh(start, r, c, list, line.public_key, d, now),
                    Err(_) => {},
                },
                PatternsView::Hashed { .. } => {},
            }
        }
    }
}

/// An import only appends: the records that were there stay, in order, and
/// after them come exactly as many records as it counts, each new on a
/// direct route, discovered and last seen at the import's time, for an
/// identity that no record before it has.
pub proof fn law_import_appends_one_record_per_new_host(
    records: Seq<StoredView>,
    lines: Seq<KnownHostsLineView>,
    now: u64,
)
    ensures
        appended_fresh(records, import_lines(records, 0, lines, now).0, now),
        import_lines(records, 0, lines, now).0.len() == records.len() + import_lines(records, 0, lines, now).1,
{
    assert(records.subrange(0, records.len() as int) =~= records);
    lemma_lines_append_fresh(records, records, 0, lines, now);
}

/// Adding without duplicates keeps a list free of them.
proof fn lemma_add_all_unique_no_duplicates(s: Seq<Seq<char>>, list: Seq<Seq<char>>)
    requires
        s.no_duplicates(),
    ensures
        crate::host_key_verifier::add_all_unique(s, list).no_duplicates(),
    decreases list.len(),
{
    if list.len() > 0 {
        lemma_add_all_unique_no_duplicates(s, list.drop_last());
        let before = crate::host_key_verifier::add_all_unique(s, list.drop_last());
        let a = list.last();
        if !before.contains(a) {
            let t = before.push(a);
            assert forall|i: int, j: int| 0 <= i < t.len() && 0 <= j < t.len() && i != j implies t[i] != t[j] by {
                if i < before.len() && j < before.len() {
                    assert(t[i] == before[i] && t[j] == before[j]);
                } else if i < before.len() {
                    assert(t[i] == before[i]);
                } else {
                    assert(t[j] == before[j]);
                }
            }
        }
    }
}

/// The algorithms offered before a handshake are listed once each.
pub proof fn law_known_algorithms_are_listed_once(
    policy: HostKeyPolicy,
    confirmations: Seq<ConfirmedView>,
    id: IdentityView,
    app: Result<Seq<StoredView>, Seq<char>>,
    openssh: Result<Seq<OpenSshView>, Seq<char>>,
)
    ensures
        crate::host_key_verifier::known_algorithms(policy, confirmations, id, app, openssh) matches Ok(a)
            ==> a.no_duplicates(),
{
    let empty = Seq::<Seq<char>>::empty();
    assert(empty.no_duplicates());
    let start = crate::host_key_verifier::add_all_unique(
        empty,
        crate::host_key_verifier::confirmation_algorithms(confirmations, id, true),
    );
    lemma_add_all_unique_no_duplicates(empty, crate::host_key_verifier::confirmation_algorithms(confirmations, id, true));
    if let Ok(records) = app {
        lemma_add_all_unique_no_duplicates(start, crate::host_key_verifier::record_algorithms(records, id));
        if let Ok(os) = openssh {
            lemma_add_all_unique_no_duplicates(start, crate::host_key_verifier::openssh_algorithms(os));
        }
        lemma_add_all_unique_no_duplicates(start, crate::host_key_verifier::confirmation_algorithms(confirmations, id, false));
    }
}

} // verus!
