use base64::Engine as _;
use hmac::{Hmac, Mac};

use navop_core::host_key::{
    format_details, normalize_host, HostKeyAcceptance, HostKeyDetails, HostKeyIdentity,
    HostKeyPolicy, HostKeyRejection, HostKeyRoute,
};
use navop_core::host_key_store::{
    lookup_openssh, openssh_entries_for, openssh_entries_in, KnownHostMarker, KnownHostsLine, OpenSshHostKey,
    OpenSshLookup,
    PersistedHostKey, StoredHostKey,
};
use navop_core::host_key_verifier::{
    default_openssh_known_hosts_path_in, default_trust_store_path_in, HostKeyVerifier, PresentedKey, VerifyPlan,
};
use navop_core::host_patterns::{glob_matches, known_host_pattern_to_identity, known_hosts_match, KnownHostPatterns};

type HmacSha1 = Hmac<sha1::Sha1>;

fn identity(host: &str, port: u16) -> HostKeyIdentity {
    HostKeyIdentity::new(host, port, HostKeyRoute::Direct)
}

/// An OpenSSH ed25519 public key whose 32 key bytes are all `fill`.
fn ed25519_key(fill: u8) -> String {
    let mut blob = Vec::new();
    blob.extend_from_slice(&11u32.to_be_bytes());
    blob.extend_from_slice(b"ssh-ed25519");
    blob.extend_from_slice(&32u32.to_be_bytes());
    blob.extend_from_slice(&[fill; 32]);
    format!(
        "ssh-ed25519 {}",
        base64::engine::general_purpose::STANDARD.encode(blob)
    )
}

fn presented(fill: u8) -> PresentedKey {
    PresentedKey::from_openssh(ed25519_key(fill)).expect("test key parses")
}

fn trust_verifier(policy: HostKeyPolicy) -> HostKeyVerifier {
    HostKeyVerifier::for_store(policy, std::path::PathBuf::from("/nonexistent/keys.json"))
}

fn stored(identity: HostKeyIdentity, key: &PresentedKey, seen: u64) -> StoredHostKey {
    StoredHostKey {
        identity,
        public_key: key.public_key.clone(),
        details: key.details.clone(),
        discovered_at: Some(seen),
        last_seen: Some(seen),
    }
}

#[test]
fn glob_patterns_honor_negation() {
    let patterns = KnownHostPatterns::Patterns(vec![
        "*.example.com".to_owned(),
        "!blocked.example.com".to_owned(),
    ]);
    assert!(known_hosts_match(&patterns, "ok.example.com"));
    assert!(!known_hosts_match(&patterns, "blocked.example.com"));
}

#[test]
fn hashed_hostname_matches_openssh_hmac() {
    let salt = b"01234567890123456789".to_vec();
    let mut mac = HmacSha1::new_from_slice(&salt).expect("valid HMAC key");
    mac.update(b"hashed.example");
    let hash = mac.finalize().into_bytes().to_vec();
    let patterns = KnownHostPatterns::HashedName { salt, hash };

    assert!(known_hosts_match(&patterns, "hashed.example"));
    assert!(!known_hosts_match(&patterns, "other.example"));
}

#[test]
fn glob_wildcards_match_any_run_and_single_characters() {
    assert!(glob_matches("*", ""));
    assert!(glob_matches("h?st", "host"));
    assert!(!glob_matches("h?st", "hst"));
    assert!(glob_matches("*.example.*", "a.example.org"));
    assert!(!glob_matches("*.example.com", "example.com"));
}

#[test]
fn identities_are_normalized_lowercase_without_trailing_dots() {
    let id = identity("Example.COM.", 22);
    assert_eq!("example.com", id.host());
    assert_eq!(22, id.port());
    assert_eq!("example.com", normalize_host(" Example.COM.. "));
    assert_eq!("example.com", id.openssh_host());
    assert_eq!("[example.com]:2222", identity("example.com", 2222).openssh_host());
}

#[test]
fn concrete_known_hosts_patterns_become_identities() {
    assert_eq!(
        Some(("plain.example".to_string(), 22)),
        known_host_pattern_to_identity("plain.example")
    );
    assert_eq!(
        Some(("port.example".to_string(), 2200)),
        known_host_pattern_to_identity("[port.example]:2200")
    );
    assert_eq!(None, known_host_pattern_to_identity("*.example"));
    assert_eq!(None, known_host_pattern_to_identity("!blocked.example"));
    assert_eq!(None, known_host_pattern_to_identity("|1|c2FsdA==|aGFzaA=="));
}

#[test]
fn accept_new_persists_the_key_and_then_knows_it() {
    let key = presented(2);
    let id = identity("host.example", 22);
    let accept_new = trust_verifier(HostKeyPolicy::AcceptNew);
    let entries = match accept_new.plan_verification(&id, &key, Ok(Vec::new()), Ok(Vec::new()), 100) {
        VerifyPlan::Persist { entries, acceptance, required } => {
            assert_eq!(HostKeyAcceptance::AcceptedNew, acceptance);
            assert!(required);
            entries
        }
        _ => panic!("accept-new must persist an unknown key"),
    };
    assert_eq!(1, entries.len());
    assert_eq!(Some(100), entries[0].discovered_at);

    let strict = trust_verifier(HostKeyPolicy::Strict);
    match strict.plan_verification(&id, &key, Ok(entries), Ok(Vec::new()), 200) {
        VerifyPlan::Persist { entries, acceptance, required } => {
            assert_eq!(HostKeyAcceptance::Known, acceptance);
            assert!(!required);
            assert_eq!(Some(100), entries[0].discovered_at);
            assert_eq!(Some(200), entries[0].last_seen);
        }
        _ => panic!("a known key must be accepted"),
    }
}

#[test]
fn a_changed_key_is_rejected_even_in_accept_new_mode() {
    let old = presented(3);
    let new = presented(4);
    let id = identity("host.example", 22);
    let records = vec![stored(id.clone(), &old, 1)];
    match trust_verifier(HostKeyPolicy::AcceptNew).plan_verification(&id, &new, Ok(records), Ok(Vec::new()), 5) {
        VerifyPlan::Decided(Err(HostKeyRejection::Changed { expected, .. })) => {
            assert_eq!(vec![old.details.clone()], expected);
        }
        _ => panic!("a changed key must be rejected"),
    }
}

#[test]
fn insecure_mode_accepts_without_reading_or_writing() {
    let key = presented(5);
    let id = identity("host.example", 22);
    match trust_verifier(HostKeyPolicy::Insecure).plan_verification(
        &id,
        &key,
        Err("not read".to_string()),
        Err("not read".to_string()),
        5,
    ) {
        VerifyPlan::Decided(Ok(acceptance)) => assert_eq!(HostKeyAcceptance::Insecure, acceptance),
        _ => panic!("insecure mode must accept"),
    }
}

#[test]
fn an_unreadable_store_fails_closed() {
    let key = presented(6);
    let id = identity("host.example", 22);
    match trust_verifier(HostKeyPolicy::AcceptNew).plan_verification(
        &id,
        &key,
        Err("disk on fire".to_string()),
        Ok(Vec::new()),
        5,
    ) {
        VerifyPlan::Decided(Err(HostKeyRejection::StoreUnavailable { reason, .. })) => {
            assert_eq!("disk on fire", reason);
        }
        _ => panic!("an unreadable store must reject"),
    }
}

#[test]
fn openssh_revocation_wins_over_app_trust() {
    let key = presented(7);
    let id = identity("revoked.example", 22);
    let records = vec![stored(id.clone(), &key, 1)];
    let openssh = vec![OpenSshHostKey {
        public_key: key.public_key.clone(),
        details: key.details.clone(),
        revoked: true,
    }];
    match trust_verifier(HostKeyPolicy::Strict).plan_verification(&id, &key, Ok(records), Ok(openssh), 5) {
        VerifyPlan::Decided(Err(rejection)) => {
            assert!(matches!(rejection, HostKeyRejection::Revoked { .. }))
        }
        _ => panic!("a revoked key must be rejected"),
    }
}

#[test]
fn openssh_known_hosts_lines_are_matched_by_host_and_port() {
    let key = presented(11);
    let text = format!("[known.example]:2200 {}\n@revoked revoked.example {}\n", key.public_key, key.public_key);
    let entries = openssh_entries_for(&text, &identity("known.example", 2200));
    assert_eq!(1, entries.len());
    assert!(matches!(lookup_openssh(&entries, &key.public_key), OpenSshLookup::Known));
    let other = presented(12);
    assert!(matches!(lookup_openssh(&entries, &other.public_key), OpenSshLookup::Changed(_)));
    assert!(openssh_entries_for(&text, &identity("known.example", 22)).is_empty());
    let revoked = openssh_entries_for(&text, &identity("revoked.example", 22));
    assert!(matches!(lookup_openssh(&revoked, &key.public_key), OpenSshLookup::Revoked));
}

#[test]
fn listing_skips_a_corrupt_record_and_shows_the_newest_first() {
    let good = presented(13);
    let newer = presented(14);
    let a = stored(identity("good.example", 22), &good, 10).to_persisted();
    let b = stored(identity("newer.example", 22), &newer, 20).to_persisted();
    let mut corrupt = stored(identity("bad.example", 22), &good, 30).to_persisted();
    corrupt.fingerprint = "SHA256:corrupt".to_string();
    let hosts = trust_verifier(HostKeyPolicy::Strict)
        .list_known_hosts(Ok(Some(vec![a, corrupt, b])))
        .expect("listing tolerates a corrupt entry");
    let names: Vec<&str> = hosts.iter().map(|h| h.identity.host()).collect();
    assert_eq!(vec!["newer.example", "good.example"], names);
    assert_eq!(Some(20), hosts[0].last_seen);
    assert_eq!("ssh-ed25519", hosts[0].algorithm);
    let empty = trust_verifier(HostKeyPolicy::Strict).list_known_hosts(Ok(None)).expect("missing store");
    assert!(empty.is_empty());
}

#[test]
fn removing_a_host_drops_only_its_records() {
    let key = presented(15);
    let keep = stored(identity("keep.example", 22), &key, 1);
    let drop = stored(identity("drop.example", 22), &key, 1);
    let v = trust_verifier(HostKeyPolicy::Strict);
    let rest = v
        .remove_known_host(&vec![keep.clone(), drop.clone()], &identity("drop.example", 22))
        .expect("the host was trusted");
    assert_eq!(1, rest.len());
    assert_eq!("keep.example", rest[0].identity.host());
    assert!(v.remove_known_host(&rest, &identity("drop.example", 22)).is_none());
}

#[test]
fn persisted_records_read_back_only_when_they_match_their_key() {
    let key = presented(16);
    let record = stored(identity("host.example", 22), &key, 3);
    let persisted: PersistedHostKey = record.to_persisted();
    let back = StoredHostKey::try_from_persisted(persisted.clone()).expect("round trip");
    assert_eq!(record.public_key, back.public_key);
    let mut wrong = persisted;
    wrong.algorithm = "ssh-rsa".to_string();
    assert!(StoredHostKey::try_from_persisted(wrong).is_err());
}

#[test]
fn details_are_listed_with_their_fingerprints() {
    let a = HostKeyDetails { algorithm: "ssh-ed25519".to_string(), fingerprint: "SHA256:a".to_string() };
    let b = HostKeyDetails { algorithm: "ssh-rsa".to_string(), fingerprint: "SHA256:b".to_string() };
    let text = format_details(&[a, b]);
    assert!(text.contains("ssh-ed25519"));
    assert!(text.contains("SHA256:a"));
    assert!(text.contains("SHA256:b"));
}

#[test]
fn presented_keys_carry_their_algorithm_and_fingerprint() {
    let key = presented(17);
    assert_eq!("ssh-ed25519", key.details.algorithm);
    assert!(key.details.fingerprint.starts_with("SHA256:"));
    assert_ne!(presented(18).details.fingerprint, key.details.fingerprint);
    assert!(PresentedKey::from_openssh("ssh-ed25519 not-base64!".to_string()).is_err());
}

#[test]
fn default_files_live_under_the_home_directory() {
    let home = Some(std::path::PathBuf::from("/home/ada"));
    assert_eq!(
        Some(std::path::PathBuf::from("/home/ada/.config/navop/ssh-host-keys.json")),
        default_trust_store_path_in(home.clone())
    );
    assert_eq!(Some(std::path::PathBuf::from("/home/ada/.ssh/known_hosts")), default_openssh_known_hosts_path_in(home));
    assert_eq!(None, default_trust_store_path_in(None));
}

fn line(marker: Option<KnownHostMarker>, patterns: &[&str], key: &PresentedKey) -> KnownHostsLine {
    KnownHostsLine {
        marker,
        patterns: KnownHostPatterns::Patterns(patterns.iter().map(|p| p.to_string()).collect()),
        public_key: key.public_key.clone(),
    }
}

#[test]
fn parsed_lines_give_the_keys_for_an_identity() {
    let known = presented(19);
    let ca = presented(20);
    let lines = vec![
        line(None, &["*.example", "!other.example"], &known),
        line(Some(KnownHostMarker::CertAuthority), &["host.example"], &ca),
        line(Some(KnownHostMarker::Revoked), &["host.example"], &ca),
        line(None, &["other.example"], &ca),
    ];
    let entries = openssh_entries_in(&lines, &identity("host.example", 22));
    assert_eq!(2, entries.len());
    assert_eq!((known.public_key.as_str(), false), (entries[0].public_key.as_str(), entries[0].revoked));
    assert_eq!((ca.public_key.as_str(), true), (entries[1].public_key.as_str(), entries[1].revoked));
    assert!(openssh_entries_in(&lines, &identity("other.example", 22)).len() == 1);
}

#[test]
fn parsed_lines_import_plain_hosts_once() {
    let key = presented(21);
    let lines = vec![
        line(None, &["plain.example", "[port.example]:2200", "*.wild"], &key),
        line(None, &["plain.example"], &key),
        line(Some(KnownHostMarker::Revoked), &["revoked.example"], &key),
    ];
    let (records, added) = trust_verifier(HostKeyPolicy::Strict).import_known_hosts_lines(Vec::new(), &lines, 9);
    assert_eq!(2, added);
    let names: Vec<(&str, u16)> = records.iter().map(|r| (r.identity.host(), r.identity.port())).collect();
    assert_eq!(vec![("plain.example", 22), ("port.example", 2200)], names);
    assert!(records.iter().all(|r| r.discovered_at == Some(9) && r.last_seen == Some(9)));
}

#[test]
fn hosts_seen_at_the_same_time_keep_store_order() {
    let key = presented(22);
    let entries = vec![
        stored(identity("b.example", 22), &key, 5).to_persisted(),
        stored(identity("a.example", 22), &key, 7).to_persisted(),
        stored(identity("c.example", 22), &key, 5).to_persisted(),
    ];
    let hosts = trust_verifier(HostKeyPolicy::Strict).list_known_hosts(Ok(Some(entries))).expect("lists");
    let names: Vec<&str> = hosts.iter().map(|h| h.identity.host()).collect();
    assert_eq!(vec!["a.example", "b.example", "c.example"], names);
}
