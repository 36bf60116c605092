//! The host-key verifier: its configuration, the user's confirmations, and
//! the trust decision for a presented key.
//!
//! Reading and writing the trust files is done by the caller; the decision
//! is made here from what was read.  `plan_verification` tells the caller
//! either the outcome, or the records to write and the outcome that follows
//! from writing them (`finish_verification`).
use vstd::prelude::*;
use crate::host_key::{
    DetailsView, HostKeyAcceptance, HostKeyDetails, HostKeyIdentity, HostKeyPolicy,
    HostKeyRejection, IdentityView, RejectionView, details_views, outcome_view,
};
use crate::host_key_store::{
    LookupView, OpenSshHostKey, OpenSshLookup, OpenSshView, StoredHostKey, StoredView,
    duplicate_records, lookup_openssh, openssh_lookup, openssh_views, stored_views,
};
use crate::paths::{home_dir, join_path, path_join};

verus! {

/// A key the user explicitly confirmed for one identity.
#[derive(Clone)]
pub struct ConfirmedHostKey {
    pub identity: HostKeyIdentity,
    pub details: HostKeyDetails,
    /// Write the key to the app trust store once it is accepted.
    pub persist: bool,
    /// The user confirmed it as the replacement of a changed key.
    pub replace_existing: bool,
}

/// The mathematical value of a confirmation.
pub struct ConfirmedView {
    pub identity: IdentityView,
    pub details: DetailsView,
    pub persist: bool,
    pub replace_existing: bool,
}

impl View for ConfirmedHostKey {
    type V = ConfirmedView;

    open spec fn view(&self) -> ConfirmedView {
        ConfirmedView {
            identity: self.identity@,
            details: self.details@,
            persist: self.persist,
            replace_existing: self.replace_existing,
        }
    }
}

/// The views of a list of confirmations.
pub open spec fn confirmed_views(v: Seq<ConfirmedHostKey>) -> Seq<ConfirmedView> {
    Seq::new(v.len(), |i: int| v[i]@)
}

impl ConfirmedHostKey {
    /// A copy of the confirmation.
    pub fn duplicate(&self) -> (r: Self)
        ensures
            r@ == self@,
    {
        ConfirmedHostKey {
            identity: self.identity.duplicate(),
            details: self.details.duplicate(),
            persist: self.persist,
            replace_existing: self.replace_existing,
        }
    }
}

/// Shared verifier configuration.
#[derive(Clone)]
pub struct HostKeyVerifier {
    policy: HostKeyPolicy,
    trust_store_path: Option<std::path::PathBuf>,
    openssh_known_hosts_path: Option<std::path::PathBuf>,
    confirmed_keys: Vec<ConfirmedHostKey>,
}

/// The confirmations other than the one for exactly `id` and `d`.
pub open spec fn other_confirmations(c: Seq<ConfirmedView>, id: IdentityView, d: DetailsView) -> Seq<
    ConfirmedView,
>
    decreases c.len(),
{
    if c.len() == 0 {
        Seq::empty()
    } else {
        let before = other_confirmations(c.drop_last(), id, d);
        if c.last().identity == id && c.last().details == d {
            before
        } else {
            before.push(c.last())
        }
    }
}

/// The trust-store file under a home directory, if there is one:
/// `.config/navop/ssh-host-keys.json`.
pub open spec fn trust_store_path_under(home: Option<std::path::PathBuf>) -> Option<std::path::PathBuf> {
    match home {
        Some(h) => Some(
            path_join(path_join(path_join(h, ".config"@), "navop"@), crate::host_key_store::TRUST_STORE_FILE_NAME@),
        ),
        None => None,
    }
}

/// The OpenSSH `known_hosts` file under a home directory, if there is one:
/// `.ssh/known_hosts`.
pub open spec fn known_hosts_path_under(home: Option<std::path::PathBuf>) -> Option<std::path::PathBuf> {
    match home {
        Some(h) => Some(path_join(path_join(h, ".ssh"@), "known_hosts"@)),
        None => None,
    }
}

/// The trust-store file under a home directory: `.config/navop/ssh-host-keys.json`.
pub fn default_trust_store_path_in(home: Option<std::path::PathBuf>) -> (r: Option<
    std::path::PathBuf,
>)
    ensures
        r == trust_store_path_under(home),
{
    match home {
        Some(home) => {
            let config = join_path(&home, ".config");
            let app = join_path(&config, "navop");
            Some(join_path(&app, crate::host_key_store::TRUST_STORE_FILE_NAME))
        },
        None => None,
    }
}

/// The OpenSSH `known_hosts` file under a home directory: `.ssh/known_hosts`.
pub fn default_openssh_known_hosts_path_in(home: Option<std::path::PathBuf>) -> (r: Option<
    std::path::PathBuf,
>)
    ensures
        r == known_hosts_path_under(home),
{
    match home {
        Some(home) => {
            let ssh = join_path(&home, ".ssh");
            Some(join_path(&ssh, "known_hosts"))
        },
        None => None,
    }
}

impl HostKeyVerifier {
    pub closed spec fn spec_policy(&self) -> HostKeyPolicy {
        self.policy
    }

    pub closed spec fn spec_confirmed(&self) -> Seq<ConfirmedView> {
        confirmed_views(self.confirmed_keys@)
    }

    pub closed spec fn spec_trust_store_path(&self) -> Option<std::path::PathBuf> {
        self.trust_store_path
    }

    pub closed spec fn spec_openssh_known_hosts_path(&self) -> Option<std::path::PathBuf> {
        self.openssh_known_hosts_path
    }

    /// A verifier with the given policy and files and no confirmations.
    pub fn new(
        policy: HostKeyPolicy,
        trust_store_path: Option<std::path::PathBuf>,
        openssh_known_hosts_path: Option<std::path::PathBuf>,
    ) -> (r: Self)
        ensures
            r.spec_policy() == policy,
            r.spec_trust_store_path() == trust_store_path,
            r.spec_openssh_known_hosts_path() == openssh_known_hosts_path,
            r.spec_confirmed() == Seq::<ConfirmedView>::empty(),
    {
        let r = HostKeyVerifier {
            policy,
            trust_store_path,
            openssh_known_hosts_path,
            confirmed_keys: Vec::new(),
        };
        assert(r.spec_confirmed() =~= Seq::<ConfirmedView>::empty());
        r
    }

    /// Strict verification against the user's app trust store and OpenSSH
    /// `known_hosts` (both under the home directory, when there is one).
    pub fn strict() -> (r: Self)
        ensures
            r.spec_policy() == HostKeyPolicy::Strict,
            r.spec_confirmed() == Seq::<ConfirmedView>::empty(),
            exists|home: Option<std::path::PathBuf>| r.spec_trust_store_path() == trust_store_path_under(home),
            exists|home: Option<std::path::PathBuf>|
                r.spec_openssh_known_hosts_path() == known_hosts_path_under(home),
    {
        Self::new(
            HostKeyPolicy::Strict,
            default_trust_store_path_in(home_dir()),
            default_openssh_known_hosts_path_in(home_dir()),
        )
    }

    /// Trust-on-first-use against the user's default files.
    pub fn accept_new() -> (r: Self)
        ensures
            r.spec_policy() == HostKeyPolicy::AcceptNew,
            r.spec_confirmed() == Seq::<ConfirmedView>::empty(),
            exists|home: Option<std::path::PathBuf>| r.spec_trust_store_path() == trust_store_path_under(home),
            exists|home: Option<std::path::PathBuf>|
                r.spec_openssh_known_hosts_path() == known_hosts_path_under(home),
    {
        Self::new(
            HostKeyPolicy::AcceptNew,
            default_trust_store_path_in(home_dir()),
            default_openssh_known_hosts_path_in(home_dir()),
        )
    }

    /// Explicit insecure mode: every key is accepted and no file is used.
    pub fn insecure() -> (r: Self)
        ensures
            r.spec_policy() == HostKeyPolicy::Insecure,
            r.spec_trust_store_path() is None,
            r.spec_openssh_known_hosts_path() is None,
            r.spec_confirmed() == Seq::<ConfirmedView>::empty(),
    {
        Self::new(HostKeyPolicy::Insecure, None, None)
    }

    /// A verifier backed by a caller-chosen trust file, with OpenSSH
    /// `known_hosts` lookup disabled so no global entry is inherited.
    pub fn for_store(policy: HostKeyPolicy, path: std::path::PathBuf) -> (r: Self)
        ensures
            r.spec_policy() == policy,
            r.spec_trust_store_path() == Some(path),
            r.spec_openssh_known_hosts_path() is None,
            r.spec_confirmed() == Seq::<ConfirmedView>::empty(),
    {
        Self::new(policy, Some(path), None)
    }

    pub fn policy(&self) -> (r: HostKeyPolicy)
        ensures
            r == self.spec_policy(),
    {
        self.policy
    }

    pub fn trust_store_path(&self) -> (r: Option<&std::path::PathBuf>)
        ensures
            match self.spec_trust_store_path() {
                Some(p) => r == Some(&p),
                None => r is None,
            },
    {
        self.trust_store_path.as_ref()
    }

    pub fn openssh_known_hosts_path(&self) -> (r: Option<&std::path::PathBuf>)
        ensures
            match self.spec_openssh_known_hosts_path() {
                Some(p) => r == Some(&p),
                None => r is None,
            },
    {
        self.openssh_known_hosts_path.as_ref()
    }

    /// Adds a confirmation, replacing an earlier one for the same identity
    /// and key.
    fn with_confirmation(self, confirmation: ConfirmedHostKey) -> (r: Self)
        ensures
            r.spec_policy() == self.spec_policy(),
            r.spec_trust_store_path() == self.spec_trust_store_path(),
            r.spec_openssh_known_hosts_path() == self.spec_openssh_known_hosts_path(),
            r.spec_confirmed() == other_confirmations(
                self.spec_confirmed(),
                confirmation@.identity,
                confirmation@.details,
            ).push(confirmation@),
    {
        let ghost old_views = confirmed_views(self.confirmed_keys@);
        let mut kept: Vec<ConfirmedHostKey> = Vec::new();
        let mut i: usize = 0;
        assert(old_views.subrange(0, 0) =~= Seq::<ConfirmedView>::empty());
        assert(confirmed_views(kept@) =~= Seq::<ConfirmedView>::empty());
        while i < self.confirmed_keys.len()
            invariant
                i <= self.confirmed_keys@.len(),
                old_views == confirmed_views(self.confirmed_keys@),
                confirmed_views(kept@) == other_confirmations(
                    old_views.subrange(0, i as int),
                    confirmation@.identity,
                    confirmation@.details,
                ),
            decreases self.confirmed_keys.len() - i,
        {
            let entry = &self.confirmed_keys[i];
            let ghost next = old_views.subrange(0, i + 1);
            assert(next.drop_last() == old_views.subrange(0, i as int));
            assert(next.last() == entry@);
            if !(entry.identity.same_as(&confirmation.identity) && entry.details.same_as(
                &confirmation.details,
            )) {
                let ghost before = kept@;
                kept.push(entry.duplicate());
                assert(confirmed_views(kept@) =~= confirmed_views(before).push(entry@));
            }
            i = i + 1;
        }
        assert(old_views.subrange(0, self.confirmed_keys@.len() as int) == old_views);
        let ghost before = kept@;
        kept.push(confirmation);
        assert(confirmed_views(kept@) =~= confirmed_views(before).push(kept@.last()@));
        HostKeyVerifier {
            policy: self.policy,
            trust_store_path: self.trust_store_path,
            openssh_known_hosts_path: self.openssh_known_hosts_path,
            confirmed_keys: kept,
        }
    }

    /// A verifier that also accepts exactly the key the user confirmed for
    /// an identity; unknown keys that were not shown stay rejected.
    pub fn with_confirmed_key(self, identity: HostKeyIdentity, details: HostKeyDetails, persist: bool) -> (r:
        Self)
        ensures
            r.spec_policy() == self.spec_policy(),
            r.spec_trust_store_path() == self.spec_trust_store_path(),
            r.spec_openssh_known_hosts_path() == self.spec_openssh_known_hosts_path(),
            r.spec_confirmed() == other_confirmations(self.spec_confirmed(), identity@, details@).push(
                ConfirmedView {
                    identity: identity@,
                    details: details@,
                    persist,
                    replace_existing: false,
                },
            ),
    {
        self.with_confirmation(ConfirmedHostKey { identity, details, persist, replace_existing: false })
    }

    /// A verifier that accepts a changed key only because the user confirmed
    /// the presented replacement.
    pub fn with_confirmed_changed_key(
        self,
        identity: HostKeyIdentity,
        details: HostKeyDetails,
        persist: bool,
    ) -> (r: Self)
        ensures
            r.spec_policy() == self.spec_policy(),
            r.spec_trust_store_path() == self.spec_trust_store_path(),
            r.spec_openssh_known_hosts_path() == self.spec_openssh_known_hosts_path(),
            r.spec_confirmed() == other_confirmations(self.spec_confirmed(), identity@, details@).push(
                ConfirmedView {
                    identity: identity@,
                    details: details@,
                    persist,
                    replace_existing: true,
                },
            ),
    {
        self.with_confirmation(ConfirmedHostKey { identity, details, persist, replace_existing: true })
    }
}

/// A presented server key: its OpenSSH text and its metadata.
pub struct PresentedKey {
    pub public_key: String,
    pub details: HostKeyDetails,
}

impl PresentedKey {
    /// A key from its OpenSSH text, with the algorithm and fingerprint that
    /// parsing it gives; the parser's message where it does not parse.
    pub fn from_openssh(public_key: String) -> (r: Result<PresentedKey, String>)
        ensures
            match crate::host_key_store::openssh_key_parse(public_key@) {
                Ok(d) => r matches Ok(k) && k.public_key@ == public_key@ && k.details@ == d,
                Err(m) => r matches Err(e) && e@ == m,
            },
    {
        match crate::host_key_store::parse_key_details(public_key.as_str()) {
            Ok(details) => Ok(PresentedKey { public_key, details }),
            Err(message) => Err(message),
        }
    }
}

/// What to do with a presented key.
pub enum VerifyPlan {
    /// The outcome is known without writing anything.
    Decided(Result<HostKeyAcceptance, HostKeyRejection>),
    /// Write these records to the app trust store; the outcome is
    /// `acceptance`, unless the write fails and `required` is set.
    Persist { entries: Vec<StoredHostKey>, acceptance: HostKeyAcceptance, required: bool },
}

/// The mathematical value of a plan.
pub enum PlanView {
    Decided(Result<HostKeyAcceptance, RejectionView>),
    Persist { entries: Seq<StoredView>, acceptance: HostKeyAcceptance, required: bool },
}

impl View for VerifyPlan {
    type V = PlanView;

    open spec fn view(&self) -> PlanView {
        match self {
            VerifyPlan::Decided(r) => PlanView::Decided(outcome_view(*r)),
            VerifyPlan::Persist { entries, acceptance, required } => PlanView::Persist {
                entries: stored_views(entries@),
                acceptance: *acceptance,
                required: *required,
            },
        }
    }
}

/// The first confirmation for exactly this identity and key, scanning from `i`.
pub open spec fn confirmation_from(
    c: Seq<ConfirmedView>,
    id: IdentityView,
    d: DetailsView,
    i: int,
) -> Option<ConfirmedView>
    decreases c.len() - i,
{
    if i < 0 || i >= c.len() {
        None
    } else if c[i].identity == id && c[i].details == d {
        Some(c[i])
    } else {
        confirmation_from(c, id, d, i + 1)
    }
}

/// Whether the app trust store holds a record for an identity.
pub open spec fn has_record(records: Seq<StoredView>, id: IdentityView) -> bool {
    exists|i: int| 0 <= i < records.len() && records[i].identity == id
}

/// The last record for an identity holding exactly the presented key,
/// scanning from `i` with `found` the last one seen before `i`.
pub open spec fn known_record_from(
    records: Seq<StoredView>,
    id: IdentityView,
    key: Seq<char>,
    i: int,
    found: Option<int>,
) -> Option<int>
    decreases records.len() - i,
{
    if i < 0 || i >= records.len() {
        found
    } else {
        known_record_from(
            records,
            id,
            key,
            i + 1,
            if records[i].identity == id && records[i].public_key == key {
                Some(i)
            } else {
                found
            },
        )
    }
}

/// The details of the records for an identity, in store order.
pub open spec fn record_details(records: Seq<StoredView>, id: IdentityView) -> Seq<DetailsView>
    decreases records.len(),
{
    if records.len() == 0 {
        Seq::empty()
    } else {
        let before = record_details(records.drop_last(), id);
        if records.last().identity == id {
            before.push(records.last().details)
        } else {
            before
        }
    }
}

/// The records for other identities, in store order.
pub open spec fn records_without(records: Seq<StoredView>, id: IdentityView) -> Seq<StoredView>
    decreases records.len(),
{
    if records.len() == 0 {
        Seq::empty()
    } else {
        let before = records_without(records.drop_last(), id);
        if records.last().identity == id {
            before
        } else {
            before.push(records.last())
        }
    }
}

/// A fresh record for a presented key, discovered and last seen `now`.
pub open spec fn new_record(id: IdentityView, key: Seq<char>, presented: DetailsView, now: u64) -> StoredView {
    StoredView {
        identity: id,
        public_key: key,
        details: presented,
        discovered_at: Some(now),
        last_seen: Some(now),
    }
}

/// Accepting a confirmed key: once without writing, or written (replacing
/// the identity's records when it confirms a changed key).
pub open spec fn accept_plan(
    c: ConfirmedView,
    records: Seq<StoredView>,
    id: IdentityView,
    key: Seq<char>,
    presented: DetailsView,
    now: u64,
) -> PlanView {
    if !c.persist {
        PlanView::Decided(Ok(HostKeyAcceptance::AcceptedOnce))
    } else {
        PlanView::Persist {
            entries: (if c.replace_existing {
                records_without(records, id)
            } else {
                records
            }).push(new_record(id, key, presented, now)),
            acceptance: HostKeyAcceptance::AcceptedNew,
            required: true,
        }
    }
}

/// The trust decision for a presented key.
///
/// Insecure mode accepts everything.  Otherwise an unreadable store fails
/// closed, and a key the OpenSSH file revokes is rejected before anything
/// else.  App trust records for the identity come next: the exact key is
/// known (its last-seen time is refreshed, best effort), any other key is a
/// change, accepted only if the user confirmed it as a replacement.  With no
/// app record, the OpenSSH file decides a known or changed key the same way.
/// An unknown key is accepted if the user confirmed it, is written in
/// `AcceptNew` mode, and is rejected otherwise.
pub open spec fn verify_plan(
    policy: HostKeyPolicy,
    confirmations: Seq<ConfirmedView>,
    id: IdentityView,
    key: Seq<char>,
    presented: DetailsView,
    app: Result<Seq<StoredView>, Seq<char>>,
    openssh: Result<Seq<OpenSshView>, Seq<char>>,
    now: u64,
) -> PlanView {
    if policy == HostKeyPolicy::Insecure {
        PlanView::Decided(Ok(HostKeyAcceptance::Insecure))
    } else {
        match app {
            Err(reason) => PlanView::Decided(
                Err(RejectionView::StoreUnavailable { identity: id, presented, reason }),
            ),
            Ok(records) => match openssh {
                Err(reason) => PlanView::Decided(
                    Err(RejectionView::StoreUnavailable { identity: id, presented, reason }),
                ),
                Ok(os) => {
                    let lookup = openssh_lookup(os, key);
                    let confirmation = confirmation_from(confirmations, id, presented, 0);
                    if lookup is Revoked {
                        PlanView::Decided(Err(RejectionView::Revoked { identity: id, presented }))
                    } else if has_record(records, id) {
                        match known_record_from(records, id, key, 0, None) {
                            Some(i) => PlanView::Persist {
                                entries: records.update(
                                    i,
                                    StoredView { last_seen: Some(now), ..records[i] },
                                ),
                                acceptance: HostKeyAcceptance::Known,
                                required: false,
                            },
                            None => match confirmation {
                                Some(c) if c.replace_existing => accept_plan(
                                    c,
                                    records,
                                    id,
                                    key,
                                    presented,
                                    now,
                                ),
                                _ => PlanView::Decided(
                                    Err(
                                        RejectionView::Changed {
                                            identity: id,
                                            presented,
                                            expected: record_details(records, id),
                                        },
                                    ),
                                ),
                            },
                        }
                    } else {
                        match lookup {
                            LookupView::Known => PlanView::Decided(Ok(HostKeyAcceptance::Known)),
                            LookupView::Changed(expected) => match confirmation {
                                Some(c) if c.replace_existing => accept_plan(
                                    c,
                                    records,
                                    id,
                                    key,
                                    presented,
                                    now,
                                ),
                                _ => PlanView::Decided(
                                    Err(RejectionView::Changed { identity: id, presented, expected }),
                                ),
                            },
                            _ => match confirmation {
                                Some(c) if !c.replace_existing => accept_plan(
                                    c,
                                    records,
                                    id,
                                    key,
                                    presented,
                                    now,
                                ),
                                _ => if policy == HostKeyPolicy::AcceptNew {
                                    PlanView::Persist {
                                        entries: records.push(new_record(id, key, presented, now)),
                                        acceptance: HostKeyAcceptance::AcceptedNew,
                                        required: true,
                                    }
                                } else {
                                    PlanView::Decided(
                                        Err(RejectionView::Unknown { identity: id, presented }),
                                    )
                                },
                            },
                        }
                    }
                },
            },
        }
    }
}

/// The view of loaded trust records, or of why they could not be loaded.
pub open spec fn records_view(r: Result<Vec<StoredHostKey>, String>) -> Result<Seq<StoredView>, Seq<char>> {
    match r {
        Ok(v) => Ok(stored_views(v@)),
        Err(m) => Err(m@),
    }
}

/// The view of loaded OpenSSH entries, or of why they could not be loaded.
pub open spec fn openssh_result_view(r: Result<Vec<OpenSshHostKey>, String>) -> Result<
    Seq<OpenSshView>,
    Seq<char>,
> {
    match r {
        Ok(v) => Ok(openssh_views(v@)),
        Err(m) => Err(m@),
    }
}

/// The outcome once the planned write has been attempted.
pub open spec fn finished_outcome(
    id: IdentityView,
    presented: DetailsView,
    acceptance: HostKeyAcceptance,
    required: bool,
    saved: Result<(), Seq<char>>,
) -> Result<HostKeyAcceptance, RejectionView> {
    match saved {
        Ok(()) => Ok(acceptance),
        Err(reason) => if required {
            Err(RejectionView::StoreUnavailable { identity: id, presented, reason })
        } else {
            Ok(acceptance)
        },
    }
}

/// The first confirmation for exactly this identity and key.
fn find_confirmation(c: &Vec<ConfirmedHostKey>, id: &HostKeyIdentity, d: &HostKeyDetails) -> (r:
    Option<usize>)
    ensures
        match confirmation_from(confirmed_views(c@), id@, d@, 0) {
            Some(v) => r matches Some(i) && i < c@.len() && c@[i as int]@ == v,
            None => r is None,
        },
{
    let ghost views = confirmed_views(c@);
    let mut i: usize = 0;
    while i < c.len()
        invariant
            i <= c@.len(),
            views == confirmed_views(c@),
            confirmation_from(views, id@, d@, 0) == confirmation_from(views, id@, d@, i as int),
        decreases c.len() - i,
    {
        assert(views[i as int] == c@[i as int]@);
        if c[i].identity.same_as(id) && c[i].details.same_as(d) {
            return Some(i);
        }
        i = i + 1;
    }
    None
}

/// The details of the records for an identity.
fn collect_record_details(records: &Vec<StoredHostKey>, id: &HostKeyIdentity) -> (r: Vec<HostKeyDetails>)
    ensures
        details_views(r@) == record_details(stored_views(records@), id@),
{
    let ghost views = stored_views(records@);
    let mut r: Vec<HostKeyDetails> = Vec::new();
    let mut i: usize = 0;
    assert(views.subrange(0, 0) =~= Seq::<StoredView>::empty());
    assert(details_views(r@) =~= Seq::<DetailsView>::empty());
    while i < records.len()
        invariant
            i <= records@.len(),
            views == stored_views(records@),
            details_views(r@) == record_details(views.subrange(0, i as int), id@),
        decreases records.len() - i,
    {
        let ghost next = views.subrange(0, i + 1);
        assert(next.drop_last() == views.subrange(0, i as int));
        assert(next.last() == records@[i as int]@);
        if records[i].identity.same_as(id) {
            let ghost before = r@;
            r.push(records[i].details.duplicate());
            assert(details_views(r@) =~= details_views(before).push(records@[i as int]@.details));
        }
        i = i + 1;
    }
    assert(views.subrange(0, records@.len() as int) == views);
    r
}

/// The records for other identities.
pub fn remove_records_for(records: &Vec<StoredHostKey>, id: &HostKeyIdentity) -> (r: Vec<StoredHostKey>)
    ensures
        stored_views(r@) == records_without(stored_views(records@), id@),
{
    let ghost views = stored_views(records@);
    let mut r: Vec<StoredHostKey> = Vec::new();
    let mut i: usize = 0;
    assert(views.subrange(0, 0) =~= Seq::<StoredView>::empty());
    assert(stored_views(r@) =~= Seq::<StoredView>::empty());
    while i < records.len()
        invariant
            i <= records@.len(),
            views == stored_views(records@),
            stored_views(r@) == records_without(views.subrange(0, i as int), id@),
        decreases records.len() - i,
    {
        let ghost next = views.subrange(0, i + 1);
        assert(next.drop_last() == views.subrange(0, i as int));
        assert(next.last() == records@[i as int]@);
        if !records[i].identity.same_as(id) {
            let ghost before = r@;
            r.push(records[i].duplicate());
            assert(stored_views(r@) =~= stored_views(before).push(records@[i as int]@));
        }
        i = i + 1;
    }
    assert(views.subrange(0, records@.len() as int) == views);
    r
}

/// A fresh record for a presented key.
fn fresh_record(id: &HostKeyIdentity, presented: &PresentedKey, now: u64) -> (r: StoredHostKey)
    ensures
        r@ == new_record(id@, presented.public_key@, presented.details@, now),
{
    StoredHostKey {
        identity: id.duplicate(),
        public_key: presented.public_key.clone(),
        details: presented.details.duplicate(),
        discovered_at: Some(now),
        last_seen: Some(now),
    }
}

impl HostKeyVerifier {
    /// Accepting a confirmed key.
    fn accept_confirmation(
        confirmation: &ConfirmedHostKey,
        records: &Vec<StoredHostKey>,
        id: &HostKeyIdentity,
        presented: &PresentedKey,
        now: u64,
    ) -> (r: VerifyPlan)
        ensures
            r@ == accept_plan(
                confirmation@,
                stored_views(records@),
                id@,
                presented.public_key@,
                presented.details@,
                now,
            ),
    {
        if !confirmation.persist {
            return VerifyPlan::Decided(Ok(HostKeyAcceptance::AcceptedOnce));
        }
        let mut entries = if confirmation.replace_existing {
            remove_records_for(records, id)
        } else {
            duplicate_records(records)
        };
        let ghost before = entries@;
        entries.push(fresh_record(id, presented, now));
        assert(stored_views(entries@) =~= stored_views(before).push(entries@.last()@));
        VerifyPlan::Persist { entries, acceptance: HostKeyAcceptance::AcceptedNew, required: true }
    }

    /// The trust decision for a presented key, from the app trust records
    /// and the OpenSSH entries for the identity as read by the caller (read
    /// them only when the policy is not `Insecure`).
    pub fn plan_verification(
        &self,
        identity: &HostKeyIdentity,
        presented: &PresentedKey,
        app_entries: Result<Vec<StoredHostKey>, String>,
        openssh_entries: Result<Vec<OpenSshHostKey>, String>,
        now: u64,
    ) -> (r: VerifyPlan)
        ensures
            r@ == verify_plan(
                self.spec_policy(),
                self.spec_confirmed(),
                identity@,
                presented.public_key@,
                presented.details@,
                records_view(app_entries),
                openssh_result_view(openssh_entries),
                now,
            ),
    {
        if self.policy == HostKeyPolicy::Insecure {
            return VerifyPlan::Decided(Ok(HostKeyAcceptance::Insecure));
        }
        let records = match app_entries {
            Ok(records) => records,
            Err(reason) => {
                return VerifyPlan::Decided(
                    Err(
                        HostKeyRejection::StoreUnavailable {
                            identity: identity.duplicate(),
                            presented: presented.details.duplicate(),
                            reason,
                        },
                    ),
                );
            },
        };
        let openssh = match openssh_entries {
            Ok(entries) => entries,
            Err(reason) => {
                return VerifyPlan::Decided(
                    Err(
                        HostKeyRejection::StoreUnavailable {
                            identity: identity.duplicate(),
                            presented: presented.details.duplicate(),
                            reason,
                        },
                    ),
                );
            },
        };
        let ghost views = stored_views(records@);
        let lookup = lookup_openssh(&openssh, &presented.public_key);
        let confirmation = find_confirmation(&self.confirmed_keys, identity, &presented.details);
        if let OpenSshLookup::Revoked = lookup {
            return VerifyPlan::Decided(
                Err(
                    HostKeyRejection::Revoked {
                        identity: identity.duplicate(),
                        presented: presented.details.duplicate(),
                    },
                ),
            );
        }
        // Scan the app records for the identity.
        let mut has_entry = false;
        let mut known_index: Option<usize> = None;
        let mut i: usize = 0;
        while i < records.len()
            invariant
                i <= records@.len(),
                views == stored_views(records@),
                has_entry == exists|j: int| 0 <= j < i && views[j].identity == identity@,
                known_record_from(views, identity@, presented.public_key@, 0, None)
                    == known_record_from(
                    views,
                    identity@,
                    presented.public_key@,
                    i as int,
                    match known_index {
                        Some(k) => Some(k as int),
                        None => None,
                    },
                ),
                known_index matches Some(k) ==> k < records@.len(),
            decreases records.len() - i,
        {
            assert(views[i as int] == records@[i as int]@);
            if records[i].identity.same_as(identity) {
                has_entry = true;
                if records[i].public_key == presented.public_key {
                    known_index = Some(i);
                }
            }
            i = i + 1;
        }
        assert(has_entry == has_record(views, identity@));
        if has_entry {
            match known_index {
                Some(k) => {
                    let mut entries = records;
                    let mut entry = entries[k].duplicate();
                    entry.last_seen = Some(now);
                    let ghost before = entries@;
                    entries.set(k, entry);
                    assert(stored_views(entries@) =~= views.update(
                        k as int,
                        StoredView { last_seen: Some(now), ..views[k as int] },
                    ));
                    return VerifyPlan::Persist {
                        entries,
                        acceptance: HostKeyAcceptance::Known,
                        required: false,
                    };
                },
                None => {
                    if let Some(c) = confirmation {
                        if self.confirmed_keys[c].replace_existing {
                            return Self::accept_confirmation(
                                &self.confirmed_keys[c],
                                &records,
                                identity,
                                presented,
                                now,
                            );
                        }
                    }
                    return VerifyPlan::Decided(
                        Err(
                            HostKeyRejection::Changed {
                                identity: identity.duplicate(),
                                presented: presented.details.duplicate(),
                                expected: collect_record_details(&records, identity),
                            },
                        ),
                    );
                },
            }
        }
        match lookup {
            OpenSshLookup::Known => VerifyPlan::Decided(Ok(HostKeyAcceptance::Known)),
            OpenSshLookup::Changed(expected) => {
                if let Some(c) = confirmation {
                    if self.confirmed_keys[c].replace_existing {
                        return Self::accept_confirmation(
                            &self.confirmed_keys[c],
                            &records,
                            identity,
                            presented,
                            now,
                        );
                    }
                }
                VerifyPlan::Decided(
                    Err(
                        HostKeyRejection::Changed {
                            identity: identity.duplicate(),
                            presented: presented.details.duplicate(),
                            expected,
                        },
                    ),
                )
            },
            _ => {
                if let Some(c) = confirmation {
                    if !self.confirmed_keys[c].replace_existing {
                        return Self::accept_confirmation(
                            &self.confirmed_keys[c],
                            &records,
                            identity,
                            presented,
                            now,
                        );
                    }
                }
                if self.policy == HostKeyPolicy::AcceptNew {
                    let mut entries = records;
                    let ghost before = entries@;
                    entries.push(fresh_record(identity, presented, now));
                    assert(stored_views(entries@) =~= stored_views(before).push(entries@.last()@));
                    return VerifyPlan::Persist {
                        entries,
                        acceptance: HostKeyAcceptance::AcceptedNew,
                        required: true,
                    };
                }
                VerifyPlan::Decided(
                    Err(
                        HostKeyRejection::Unknown {
                            identity: identity.duplicate(),
                            presented: presented.details.duplicate(),
                        },
                    ),
                )
            },
        }
    }

    /// The outcome once the planned write was attempted: a failed write
    /// fails the verification when it was required, and is ignored when it
    /// only refreshed a last-seen time.
    pub fn finish_verification(
        identity: &HostKeyIdentity,
        presented: &PresentedKey,
        acceptance: HostKeyAcceptance,
        required: bool,
        saved: Result<(), String>,
    ) -> (r: Result<HostKeyAcceptance, HostKeyRejection>)
        ensures
            outcome_view(r) == finished_outcome(
                identity@,
                presented.details@,
                acceptance,
                required,
                match saved {
                    Ok(()) => Ok(()),
                    Err(m) => Err(m@),
                },
            ),
    {
        match saved {
            Ok(()) => Ok(acceptance),
            Err(reason) => if required {
                Err(
                    HostKeyRejection::StoreUnavailable {
                        identity: identity.duplicate(),
                        presented: presented.details.duplicate(),
                        reason,
                    },
                )
            } else {
                Ok(acceptance)
            },
        }
    }
}

/// `s` with `a` appended unless it already holds it.
pub open spec fn add_unique(s: Seq<Seq<char>>, a: Seq<char>) -> Seq<Seq<char>> {
    if s.contains(a) {
        s
    } else {
        s.push(a)
    }
}

/// `s` extended by each element of `list` in turn, without duplicates.
pub open spec fn add_all_unique(s: Seq<Seq<char>>, list: Seq<Seq<char>>) -> Seq<Seq<char>>
    decreases list.len(),
{
    if list.len() == 0 {
        s
    } else {
        add_unique(add_all_unique(s, list.drop_last()), list.last())
    }
}

/// Algorithms of the confirmations for an identity (replacements only, when
/// `replacing_only`), in order.
pub open spec fn confirmation_algorithms(c: Seq<ConfirmedView>, id: IdentityView, replacing_only: bool) -> Seq<
    Seq<char>,
>
    decreases c.len(),
{
    if c.len() == 0 {
        Seq::empty()
    } else {
        let before = confirmation_algorithms(c.drop_last(), id, replacing_only);
        if c.last().identity == id && (!replacing_only || c.last().replace_existing) {
            before.push(c.last().details.algorithm)
        } else {
            before
        }
    }
}

/// Algorithms of the app records for an identity, in order.
pub open spec fn record_algorithms(records: Seq<StoredView>, id: IdentityView) -> Seq<Seq<char>>
    decreases records.len(),
{
    if records.len() == 0 {
        Seq::empty()
    } else {
        let before = record_algorithms(records.drop_last(), id);
        if records.last().identity == id {
            before.push(records.last().details.algorithm)
        } else {
            before
        }
    }
}

/// Algorithms of the OpenSSH entries that are not revoked, in order.
pub open spec fn openssh_algorithms(os: Seq<OpenSshView>) -> Seq<Seq<char>>
    decreases os.len(),
{
    if os.len() == 0 {
        Seq::empty()
    } else {
        let before = openssh_algorithms(os.drop_last());
        if !os.last().revoked {
            before.push(os.last().details.algorithm)
        } else {
            before
        }
    }
}

/// The key algorithms already trusted for an identity, offered first in
/// the handshake: confirmed replacements, then the app records for the
/// identity; failing those the OpenSSH entries; failing those every
/// confirmation for the identity.  Insecure mode reads nothing and offers
/// nothing.
pub open spec fn known_algorithms(
    policy: HostKeyPolicy,
    c: Seq<ConfirmedView>,
    id: IdentityView,
    app: Result<Seq<StoredView>, Seq<char>>,
    openssh: Result<Seq<OpenSshView>, Seq<char>>,
) -> Result<Seq<Seq<char>>, Seq<char>> {
    if policy == HostKeyPolicy::Insecure {
        Ok(Seq::empty())
    } else {
        match app {
            Err(m) => Err(m),
            Ok(records) => {
                let start = add_all_unique(Seq::empty(), confirmation_algorithms(c, id, true));
                let from_records = record_algorithms(records, id);
                if from_records.len() > 0 {
                    Ok(add_all_unique(start, from_records))
                } else {
                    match openssh {
                        Err(m) => Err(m),
                        Ok(os) => if os.len() > 0 {
                            Ok(add_all_unique(start, openssh_algorithms(os)))
                        } else {
                            Ok(add_all_unique(start, confirmation_algorithms(c, id, false)))
                        },
                    }
                }
            },
        }
    }
}

/// Appends an algorithm unless it is already listed.
pub fn push_unique_algorithm(algorithms: &mut Vec<String>, algorithm: &str)
    ensures
        crate::host_patterns::string_views(final(algorithms)@) == add_unique(
            crate::host_patterns::string_views(old(algorithms)@),
            algorithm@,
        ),
{
    let ghost views = crate::host_patterns::string_views(algorithms@);
    let mut i: usize = 0;
    while i < algorithms.len()
        invariant
            i <= algorithms@.len(),
            views == crate::host_patterns::string_views(algorithms@),
            forall|j: int| 0 <= j < i ==> views[j] != algorithm@,
        decreases algorithms.len() - i,
    {
        if crate::text::text_eq(algorithms[i].as_str(), algorithm) {
            assert(views[i as int] == algorithm@);
            return;
        }
        i = i + 1;
    }
    let ghost before = algorithms@;
    algorithms.push(crate::text::owned(algorithm));
    assert(crate::host_patterns::string_views(algorithms@) =~= views.push(algorithm@));
}

impl HostKeyVerifier {
    /// Adds the algorithms of the confirmations for an identity.
    fn add_confirmation_algorithms(
        &self,
        algorithms: &mut Vec<String>,
        identity: &HostKeyIdentity,
        replacing_only: bool,
    )
        ensures
            crate::host_patterns::string_views(final(algorithms)@) == add_all_unique(
                crate::host_patterns::string_views(old(algorithms)@),
                confirmation_algorithms(self.spec_confirmed(), identity@, replacing_only),
            ),
    {
        let ghost start = crate::host_patterns::string_views(algorithms@);
        let ghost c = self.spec_confirmed();
        let mut i: usize = 0;
        assert(c.subrange(0, 0) =~= Seq::<ConfirmedView>::empty());
        while i < self.confirmed_keys.len()
            invariant
                i <= self.confirmed_keys@.len(),
                c == confirmed_views(self.confirmed_keys@),
                crate::host_patterns::string_views(algorithms@) == add_all_unique(
                    start,
                    confirmation_algorithms(c.subrange(0, i as int), identity@, replacing_only),
                ),
            decreases self.confirmed_keys.len() - i,
        {
            let entry = &self.confirmed_keys[i];
            let ghost next = c.subrange(0, i + 1);
            assert(next.drop_last() == c.subrange(0, i as int));
            assert(next.last() == entry@);
            if entry.identity.same_as(identity) && (!replacing_only || entry.replace_existing) {
                let ghost prior = confirmation_algorithms(c.subrange(0, i as int), identity@, replacing_only);
                push_unique_algorithm(algorithms, entry.details.algorithm.as_str());
                assert(prior.push(entry@.details.algorithm).drop_last() == prior);
            }
            i = i + 1;
        }
        assert(c.subrange(0, self.confirmed_keys@.len() as int) == c);
    }

    /// The key algorithms already trusted for an identity, from the app
    /// records and OpenSSH entries read by the caller.  The final decision
    /// still compares the whole key; this never authorizes another key.
    pub fn known_host_key_algorithms(
        &self,
        identity: &HostKeyIdentity,
        app_entries: Result<Vec<StoredHostKey>, String>,
        openssh_entries: Result<Vec<OpenSshHostKey>, String>,
    ) -> (r: Result<Vec<String>, String>)
        ensures
            match known_algorithms(
                self.spec_policy(),
                self.spec_confirmed(),
                identity@,
                records_view(app_entries),
                openssh_result_view(openssh_entries),
            ) {
                Ok(a) => r matches Ok(x) && crate::host_patterns::string_views(x@) == a,
                Err(m) => r matches Err(e) && e@ == m,
            },
    {
        let mut algorithms: Vec<String> = Vec::new();
        assert(crate::host_patterns::string_views(algorithms@) =~= Seq::<Seq<char>>::empty());
        if self.policy == HostKeyPolicy::Insecure {
            return Ok(algorithms);
        }
        let records = match app_entries {
            Ok(records) => records,
            Err(reason) => {
                return Err(reason);
            },
        };
        self.add_confirmation_algorithms(&mut algorithms, identity, true);
        let ghost start = crate::host_patterns::string_views(algorithms@);
        let ghost views = stored_views(records@);
        let mut i: usize = 0;
        assert(views.subrange(0, 0) =~= Seq::<StoredView>::empty());
        while i < records.len()
            invariant
                i <= records@.len(),
                views == stored_views(records@),
                crate::host_patterns::string_views(algorithms@) == add_all_unique(
                    start,
                    record_algorithms(views.subrange(0, i as int), identity@),
                ),
            decreases records.len() - i,
        {
            let ghost next = views.subrange(0, i + 1);
            assert(next.drop_last() == views.subrange(0, i as int));
            assert(next.last() == records@[i as int]@);
            if records[i].identity.same_as(identity) {
                let ghost prior = record_algorithms(views.subrange(0, i as int), identity@);
                push_unique_algorithm(&mut algorithms, records[i].details.algorithm.as_str());
                assert(prior.push(records@[i as int]@.details.algorithm).drop_last() == prior);
            }
            i = i + 1;
        }
        assert(views.subrange(0, records@.len() as int) == views);
        if self.has_any_record(&records, identity) {
            return Ok(algorithms);
        }
        assert(record_algorithms(views, identity@).len() == 0);
        assert(add_all_unique(start, Seq::<Seq<char>>::empty()) == start);
        let os = match openssh_entries {
            Ok(os) => os,
            Err(reason) => {
                return Err(reason);
            },
        };
        if os.len() > 0 {
            let ghost oviews = openssh_views(os@);
            let mut k: usize = 0;
            assert(oviews.subrange(0, 0) =~= Seq::<OpenSshView>::empty());
            while k < os.len()
                invariant
                    k <= os@.len(),
                    oviews == openssh_views(os@),
                    crate::host_patterns::string_views(algorithms@) == add_all_unique(
                        start,
                        openssh_algorithms(oviews.subrange(0, k as int)),
                    ),
                decreases os.len() - k,
            {
                let ghost next = oviews.subrange(0, k + 1);
                assert(next.drop_last() == oviews.subrange(0, k as int));
                assert(next.last() == os@[k as int]@);
                if !os[k].revoked {
                    let ghost prior = openssh_algorithms(oviews.subrange(0, k as int));
                    push_unique_algorithm(&mut algorithms, os[k].details.algorithm.as_str());
                    assert(prior.push(os@[k as int]@.details.algorithm).drop_last() == prior);
                }
                k = k + 1;
            }
            assert(oviews.subrange(0, os@.len() as int) == oviews);
            return Ok(algorithms);
        }
        self.add_confirmation_algorithms(&mut algorithms, identity, false);
        Ok(algorithms)
    }

    /// Whether any record is for an identity; equivalently, whether the
    /// identity has record algorithms.
    fn has_any_record(&self, records: &Vec<StoredHostKey>, identity: &HostKeyIdentity) -> (r: bool)
        ensures
            r == (record_algorithms(stored_views(records@), identity@).len() > 0),
    {
        let ghost views = stored_views(records@);
        let mut i: usize = 0;
        assert(views.subrange(0, 0) =~= Seq::<StoredView>::empty());
        while i < records.len()
            invariant
                i <= records@.len(),
                views == stored_views(records@),
                record_algorithms(views.subrange(0, i as int), identity@).len() == 0,
            decreases records.len() - i,
        {
            let ghost next = views.subrange(0, i + 1);
            assert(next.drop_last() == views.subrange(0, i as int));
            assert(next.last() == records@[i as int]@);
            if records[i].identity.same_as(identity) {
                proof {
                    lemma_record_algorithms_nonempty(views, i as int + 1, identity@);
                }
                return true;
            }
            i = i + 1;
        }
        assert(views.subrange(0, records@.len() as int) == views);
        false
    }
}

/// Once a prefix lists an algorithm, so does the whole sequence.
proof fn lemma_record_algorithms_nonempty(views: Seq<StoredView>, k: int, id: IdentityView)
    requires
        0 <= k <= views.len(),
        record_algorithms(views.subrange(0, k), id).len() > 0,
    ensures
        record_algorithms(views, id).len() > 0,
    decreases views.len() - k,
{
    if k < views.len() {
        let next = views.subrange(0, k + 1);
        assert(next.drop_last() == views.subrange(0, k));
        lemma_record_algorithms_nonempty(views, k + 1, id);
    } else {
        assert(views.subrange(0, k) == views);
    }
}

} // verus!
