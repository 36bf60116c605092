use base64::Engine as _;
use hmac::{Hmac, Mac};

use navop_core::host_key::{
    HostKeyAcceptance, HostKeyDetails, HostKeyIdentity, HostKeyPolicy, HostKeyProxyType,
    HostKeyRejection, HostKeyRoute, KnownHost,
};
use navop_core::host_key_store::{
    load_records, openssh_entries_for, PersistedHostKey, StoredHostKey,
};
use navop_core::host_key_verifier::{HostKeyVerifier, PresentedKey, VerifyPlan};

type HmacSha1 = Hmac<sha1::Sha1>;

/// The two stores a verifier reads, held in memory: the app trust store
/// (`None` while it was never written) and the OpenSSH `known_hosts` file
/// (`None` when there is none; `Some(Err(..))` when it cannot be read).
struct Stores {
    app: Option<Vec<PersistedHostKey>>,
    known_hosts: Option<Result<String, String>>,
    clock: u64,
}

impl Stores {
    fn empty() -> Stores {
        Stores { app: None, known_hosts: None, clock: 1_700_000_000 }
    }

    fn with_known_hosts(text: String) -> Stores {
        Stores { app: None, known_hosts: Some(Ok(text)), clock: 1_700_000_000 }
    }

    fn records(&self) -> Result<Vec<StoredHostKey>, String> {
        load_records(Ok(self.app.clone()))
    }

    fn openssh(&self, id: &HostKeyIdentity) -> Result<Vec<navop_core::host_key_store::OpenSshHostKey>, String> {
        match &self.known_hosts {
            None => Ok(Vec::new()),
            Some(Ok(text)) => Ok(openssh_entries_for(text, id)),
            Some(Err(reason)) => Err(reason.clone()),
        }
    }

    fn save(&mut self, entries: &[StoredHostKey]) {
        self.app = Some(entries.iter().map(|entry| entry.to_persisted()).collect());
    }

    /// One verification: read both stores, decide, write what the plan asks.
    fn verify(
        &mut self,
        verifier: &HostKeyVerifier,
        id: &HostKeyIdentity,
        key: &PresentedKey,
    ) -> Result<HostKeyAcceptance, HostKeyRejection> {
        self.clock += 1;
        let plan = verifier.plan_verification(id, key, self.records(), self.openssh(id), self.clock);
        match plan {
            VerifyPlan::Decided(outcome) => outcome,
            VerifyPlan::Persist { entries, acceptance, required } => {
                self.save(&entries);
                HostKeyVerifier::finish_verification(id, key, acceptance, required, Ok(()))
            }
        }
    }

    fn algorithms(&self, verifier: &HostKeyVerifier, id: &HostKeyIdentity) -> Result<Vec<String>, String> {
        verifier.known_host_key_algorithms(id, self.records(), self.openssh(id))
    }

    fn list(&self, verifier: &HostKeyVerifier) -> Result<Vec<KnownHost>, String> {
        verifier.list_known_hosts(Ok(self.app.clone()))
    }

    fn import(&mut self, verifier: &HostKeyVerifier, known_hosts: Option<&str>) -> Result<usize, String> {
        let Some(input) = known_hosts else {
            return Ok(0);
        };
        let records = self.records()?;
        self.clock += 1;
        let (records, imported) = verifier.import_system_known_hosts(records, input, self.clock);
        if imported > 0 {
            self.save(&records);
        }
        Ok(imported)
    }
}

fn ssh_string(blob: &mut Vec<u8>, bytes: &[u8]) {
    blob.extend_from_slice(&(bytes.len() as u32).to_be_bytes());
    blob.extend_from_slice(bytes);
}

fn openssh_text(algorithm: &str, blob: Vec<u8>) -> String {
    format!("{} {}", algorithm, base64::engine::general_purpose::STANDARD.encode(blob))
}

/// An ed25519 host key whose 32 key bytes are all `fill`.
fn ed25519(fill: u8) -> PresentedKey {
    let mut blob = Vec::new();
    ssh_string(&mut blob, b"ssh-ed25519");
    ssh_string(&mut blob, &[fill; 32]);
    presented(openssh_text("ssh-ed25519", blob))
}

fn hex(text: &str) -> Vec<u8> {
    (0..text.len())
        .step_by(2)
        .map(|i| u8::from_str_radix(&text[i..i + 2], 16).expect("hex digit pair"))
        .collect()
}

/// An ECDSA P-256 host key: the curve's generator point.
fn ecdsa_p256() -> PresentedKey {
    let mut point = vec![4u8];
    point.extend(hex("6B17D1F2E12C4247F8BCE6E563A440F277037D812DEB33A0F4A13945D898C296"));
    point.extend(hex("4FE342E2FE1A7F9B8EE7EB4A7C0F9E162BCE33576B315ECECBB6406837BF51F5"));
    let mut blob = Vec::new();
    ssh_string(&mut blob, b"ecdsa-sha2-nistp256");
    ssh_string(&mut blob, b"nistp256");
    ssh_string(&mut blob, &point);
    presented(openssh_text("ecdsa-sha2-nistp256", blob))
}

fn presented(public_key: String) -> PresentedKey {
    PresentedKey::from_openssh(public_key).expect("test host key should parse")
}

fn identity(host: &str, port: u16) -> HostKeyIdentity {
    HostKeyIdentity::new(host, port, HostKeyRoute::Direct)
}

fn proxied(host: &str, port: u16) -> HostKeyIdentity {
    HostKeyIdentity::new(
        host,
        port,
        HostKeyRoute::Proxy {
            proxy_type: HostKeyProxyType::Socks5,
            host: "proxy.example".to_owned(),
            port: 1080,
        },
    )
}

fn store_verifier(policy: HostKeyPolicy) -> HostKeyVerifier {
    HostKeyVerifier::for_store(policy, std::path::PathBuf::from("/home/user/.config/keys.json"))
}

fn full_verifier(policy: HostKeyPolicy) -> HostKeyVerifier {
    HostKeyVerifier::new(
        policy,
        Some(std::path::PathBuf::from("/home/user/.config/keys.json")),
        Some(std::path::PathBuf::from("/home/user/.ssh/known_hosts")),
    )
}

fn hashed_known_hosts_line(host: &str) -> String {
    let salt = b"01234567890123456789".to_vec();
    let mut mac = HmacSha1::new_from_slice(&salt).expect("valid HMAC key");
    mac.update(host.as_bytes());
    let hash = mac.finalize().into_bytes();
    let encode = base64::engine::general_purpose::STANDARD;
    format!("|1|{}|{}", encode.encode(salt), encode.encode(hash))
}

#[test]
fn strict_rejects_unknown_key_with_fingerprint() {
    let mut stores = Stores::empty();
    let presented = ed25519(1);
    let error = stores
        .verify(&store_verifier(HostKeyPolicy::Strict), &identity("Example.COM.", 22), &presented)
        .expect_err("unknown key must be rejected");
    let HostKeyRejection::Unknown { identity, presented: details } = error else {
        panic!("expected unknown rejection");
    };
    assert_eq!(identity.host(), "example.com");
    assert!(details.fingerprint.starts_with("SHA256:"));
}

#[test]
fn accept_new_persists_and_strict_reuses_known_key() {
    let mut stores = Stores::empty();
    let first = ed25519(2);
    let id = identity("host.example", 2200);
    assert_eq!(
        stores
            .verify(&store_verifier(HostKeyPolicy::AcceptNew), &id, &first)
            .expect("accept-new should persist"),
        HostKeyAcceptance::AcceptedNew
    );
    assert!(stores.app.is_some());
    assert_eq!(
        stores
            .verify(&store_verifier(HostKeyPolicy::Strict), &id, &first)
            .expect("persisted key should be known"),
        HostKeyAcceptance::Known
    );
}

#[test]
fn confirmed_once_accepts_only_exact_key_without_persisting() {
    let mut stores = Stores::empty();
    let id = identity("host.example", 22);
    let presented = ed25519(3);
    let verifier = store_verifier(HostKeyPolicy::Strict).with_confirmed_key(
        id.clone(),
        presented.details.clone(),
        false,
    );
    assert_eq!(
        stores
            .verify(&verifier, &id, &presented)
            .expect("the explicitly confirmed key should be accepted once"),
        HostKeyAcceptance::AcceptedOnce
    );
    assert!(stores.app.is_none());
    assert!(matches!(
        stores.verify(&store_verifier(HostKeyPolicy::Strict), &id, &presented),
        Err(HostKeyRejection::Unknown { .. })
    ));
}

#[test]
fn confirmed_and_saved_key_is_reused_by_strict_verifier() {
    let mut stores = Stores::empty();
    let id = identity("host.example", 22);
    let presented = ed25519(4);
    let verifier = store_verifier(HostKeyPolicy::Strict).with_confirmed_key(
        id.clone(),
        presented.details.clone(),
        true,
    );
    assert_eq!(
        stores
            .verify(&verifier, &id, &presented)
            .expect("the explicitly confirmed key should be persisted"),
        HostKeyAcceptance::AcceptedNew
    );
    assert_eq!(
        stores
            .verify(&store_verifier(HostKeyPolicy::Strict), &id, &presented)
            .expect("the persisted key should be trusted"),
        HostKeyAcceptance::Known
    );
}

#[test]
fn confirmation_does_not_accept_another_unknown_key() {
    let mut stores = Stores::empty();
    let confirmed_id = identity("confirmed.example", 22);
    let other_id = identity("other.example", 22);
    let confirmed_key = ed25519(5);
    let other_key = ed25519(6);
    let verifier = store_verifier(HostKeyPolicy::Strict).with_confirmed_key(
        confirmed_id,
        confirmed_key.details.clone(),
        false,
    );
    assert!(matches!(
        stores.verify(&verifier, &other_id, &other_key),
        Err(HostKeyRejection::Unknown { .. })
    ));
}

#[test]
fn confirmations_are_additive_for_jump_and_target_hosts() {
    let mut stores = Stores::empty();
    let jump_id = identity("jump.example", 22);
    let target_id = identity("target.example", 22);
    let jump_key = ed25519(7);
    let target_key = ed25519(8);
    let verifier = store_verifier(HostKeyPolicy::Strict)
        .with_confirmed_key(jump_id.clone(), jump_key.details.clone(), false)
        .with_confirmed_key(target_id.clone(), target_key.details.clone(), false);
    assert_eq!(
        stores.verify(&verifier, &jump_id, &jump_key).expect("jump key"),
        HostKeyAcceptance::AcceptedOnce
    );
    assert_eq!(
        stores.verify(&verifier, &target_id, &target_key).expect("target key"),
        HostKeyAcceptance::AcceptedOnce
    );
}

#[test]
fn changed_key_is_rejected_even_in_accept_new_mode() {
    let mut stores = Stores::empty();
    let id = identity("host.example", 22);
    let first = ed25519(9);
    let changed = ed25519(10);
    let verifier = store_verifier(HostKeyPolicy::AcceptNew);
    stores.verify(&verifier, &id, &first).expect("seed key");
    let error = stores
        .verify(&verifier, &id, &changed)
        .expect_err("changed key must remain blocked");
    assert!(matches!(error, HostKeyRejection::Changed { .. }));
}

#[test]
fn changed_algorithm_is_rejected() {
    let mut stores = Stores::empty();
    let id = identity("host.example", 22);
    let first = ed25519(11);
    let changed = ecdsa_p256();
    stores
        .verify(&store_verifier(HostKeyPolicy::AcceptNew), &id, &first)
        .expect("seed key");
    let error = stores
        .verify(&store_verifier(HostKeyPolicy::Strict), &id, &changed)
        .expect_err("algorithm changes must remain blocked");
    let HostKeyRejection::Changed { presented, expected, .. } = error else {
        panic!("expected changed rejection");
    };
    assert_ne!(presented.algorithm, expected[0].algorithm);
}

#[test]
fn confirmed_changed_key_is_accepted_once_without_replacing_trust() {
    let mut stores = Stores::empty();
    let id = identity("host.example", 22);
    let original = ed25519(12);
    let changed = ed25519(13);
    stores
        .verify(&store_verifier(HostKeyPolicy::AcceptNew), &id, &original)
        .expect("seed original key");
    let verifier = store_verifier(HostKeyPolicy::Strict).with_confirmed_changed_key(
        id.clone(),
        changed.details.clone(),
        false,
    );
    assert_eq!(
        stores
            .verify(&verifier, &id, &changed)
            .expect("explicitly confirmed changed key should be accepted once"),
        HostKeyAcceptance::AcceptedOnce
    );
    assert_eq!(
        stores
            .verify(&store_verifier(HostKeyPolicy::Strict), &id, &original)
            .expect("accept-once must preserve the original trust entry"),
        HostKeyAcceptance::Known
    );
    assert!(matches!(
        stores.verify(&store_verifier(HostKeyPolicy::Strict), &id, &changed),
        Err(HostKeyRejection::Changed { .. })
    ));
}

#[test]
fn confirmed_changed_key_replaces_app_trust_when_saved() {
    let mut stores = Stores::empty();
    let id = identity("host.example", 22);
    let original = ed25519(14);
    let changed = ed25519(15);
    stores
        .verify(&store_verifier(HostKeyPolicy::AcceptNew), &id, &original)
        .expect("seed original key");
    let verifier = store_verifier(HostKeyPolicy::Strict).with_confirmed_changed_key(
        id.clone(),
        changed.details.clone(),
        true,
    );
    assert_eq!(
        stores
            .verify(&verifier, &id, &changed)
            .expect("explicitly confirmed changed key should replace app trust"),
        HostKeyAcceptance::AcceptedNew
    );
    assert_eq!(
        stores
            .verify(&store_verifier(HostKeyPolicy::Strict), &id, &changed)
            .expect("replacement key should be trusted"),
        HostKeyAcceptance::Known
    );
    assert!(matches!(
        stores.verify(&store_verifier(HostKeyPolicy::Strict), &id, &original),
        Err(HostKeyRejection::Changed { .. })
    ));
    let entries = stores.records().expect("trust store should load");
    assert_eq!(1, entries.iter().filter(|entry| entry.identity == id).count());
}

#[test]
fn confirmed_changed_key_cannot_bypass_openssh_revocation() {
    let mut stores = Stores::empty();
    let id = identity("host.example", 22);
    let original = ed25519(16);
    let changed = ed25519(17);
    stores
        .verify(&store_verifier(HostKeyPolicy::AcceptNew), &id, &original)
        .expect("seed original app trust");
    stores.known_hosts = Some(Ok(format!("@revoked {} {}\n", id.openssh_host(), changed.public_key)));

    let verifier = full_verifier(HostKeyPolicy::Strict).with_confirmed_changed_key(
        id.clone(),
        changed.details.clone(),
        false,
    );
    let error = stores
        .verify(&verifier, &id, &changed)
        .expect_err("changed-key confirmation must not bypass OpenSSH revocation");
    assert!(matches!(
        error,
        HostKeyRejection::Revoked { identity, presented }
            if identity == id && presented == changed.details
    ));
}

#[test]
fn app_trust_cannot_bypass_openssh_revocation() {
    let mut stores = Stores::empty();
    let id = identity("host.example", 22);
    let presented = ed25519(18);
    stores
        .verify(&store_verifier(HostKeyPolicy::AcceptNew), &id, &presented)
        .expect("seed app trust");
    stores.known_hosts = Some(Ok(format!("@revoked {} {}\n", id.openssh_host(), presented.public_key)));

    let error = stores
        .verify(&full_verifier(HostKeyPolicy::Strict), &id, &presented)
        .expect_err("app trust must not bypass OpenSSH revocation");
    assert!(matches!(
        error,
        HostKeyRejection::Revoked { identity, presented: details }
            if identity == id && details == presented.details
    ));
}

#[test]
fn changed_confirmation_cannot_bypass_openssh_store_error() {
    let mut stores = Stores::empty();
    let id = identity("host.example", 22);
    let original = ed25519(19);
    let changed = ed25519(20);
    stores
        .verify(&store_verifier(HostKeyPolicy::AcceptNew), &id, &original)
        .expect("seed original app trust");
    stores.known_hosts = Some(Err(
        "read OpenSSH known_hosts /home/user/.ssh/known_hosts: stream did not contain valid UTF-8".to_owned(),
    ));

    let verifier = full_verifier(HostKeyPolicy::Strict).with_confirmed_changed_key(
        id.clone(),
        changed.details.clone(),
        false,
    );
    let error = stores
        .verify(&verifier, &id, &changed)
        .expect_err("changed-key confirmation must not bypass known_hosts read errors");
    assert!(matches!(
        error,
        HostKeyRejection::StoreUnavailable { identity, presented, .. }
            if identity == id && presented == changed.details
    ));
}

#[test]
fn confirmed_openssh_changed_key_persists_without_rewriting_known_hosts() {
    let id = identity("host.example", 22);
    let original = ed25519(21);
    let changed = ed25519(22);
    let original_line = format!("{} {}\n", id.openssh_host(), original.public_key);
    let mut stores = Stores::with_known_hosts(original_line.clone());

    assert!(matches!(
        stores.verify(&full_verifier(HostKeyPolicy::Strict), &id, &changed),
        Err(HostKeyRejection::Changed { .. })
    ));
    let verifier = full_verifier(HostKeyPolicy::Strict).with_confirmed_changed_key(
        id.clone(),
        changed.details.clone(),
        true,
    );
    assert_eq!(
        stores.verify(&verifier, &id, &changed).expect("confirmed replacement should persist"),
        HostKeyAcceptance::AcceptedNew
    );
    assert!(matches!(&stores.known_hosts, Some(Ok(text)) if *text == original_line));
    assert_eq!(
        stores
            .verify(&full_verifier(HostKeyPolicy::Strict), &id, &changed)
            .expect("persisted replacement should be known"),
        HostKeyAcceptance::Known
    );
}

#[test]
fn changed_confirmation_is_bound_to_exact_identity_and_key() {
    let mut stores = Stores::empty();
    let id = identity("host.example", 22);
    let other_id = identity("other.example", 22);
    let original = ed25519(23);
    let confirmed = ed25519(24);
    let other = ed25519(25);
    stores
        .verify(&store_verifier(HostKeyPolicy::AcceptNew), &id, &original)
        .expect("seed original key");
    let verifier = store_verifier(HostKeyPolicy::Strict).with_confirmed_changed_key(
        id.clone(),
        confirmed.details.clone(),
        false,
    );
    assert!(matches!(stores.verify(&verifier, &id, &other), Err(HostKeyRejection::Changed { .. })));
    assert!(matches!(
        stores.verify(&verifier, &other_id, &confirmed),
        Err(HostKeyRejection::Unknown { .. })
    ));
}

#[test]
fn known_algorithms_follow_app_identity_and_route_isolation() {
    let mut stores = Stores::empty();
    let direct = identity("host.example", 22);
    let proxy = proxied("host.example", 22);
    let ecdsa = ecdsa_p256();
    stores
        .verify(&store_verifier(HostKeyPolicy::AcceptNew), &direct, &ecdsa)
        .expect("seed direct key");
    let verifier = store_verifier(HostKeyPolicy::Strict);
    assert_eq!(
        stores.algorithms(&verifier, &direct).expect("known algorithms should load"),
        vec!["ecdsa-sha2-nistp256"]
    );
    assert!(stores
        .algorithms(&verifier, &proxy)
        .expect("proxy identity lookup should load")
        .is_empty());
}

#[test]
fn app_algorithms_keep_precedence_over_openssh_algorithms() {
    let mut stores = Stores::empty();
    let id = identity("host.example", 22);
    let ecdsa = ecdsa_p256();
    let ed = ed25519(26);
    stores
        .verify(&store_verifier(HostKeyPolicy::AcceptNew), &id, &ecdsa)
        .expect("seed app key");
    stores.known_hosts = Some(Ok(format!("host.example {}\n", ed.public_key)));
    assert_eq!(
        stores
            .algorithms(&full_verifier(HostKeyPolicy::Strict), &id)
            .expect("known algorithms should load"),
        vec!["ecdsa-sha2-nistp256"]
    );
}

#[test]
fn confirmed_key_algorithm_is_known_before_handshake() {
    let stores = Stores::empty();
    let id = identity("host.example", 22);
    let verifier = store_verifier(HostKeyPolicy::Strict).with_confirmed_key(
        id.clone(),
        HostKeyDetails {
            algorithm: "ecdsa-sha2-nistp384".to_owned(),
            fingerprint: "SHA256:test".to_owned(),
        },
        false,
    );
    assert_eq!(
        stores.algorithms(&verifier, &id).expect("confirmed algorithm should be available"),
        vec!["ecdsa-sha2-nistp384"]
    );
}

#[test]
fn confirmed_changed_algorithm_is_preferred_before_handshake() {
    let mut stores = Stores::empty();
    let id = identity("host.example", 22);
    let original = ed25519(27);
    stores
        .verify(&store_verifier(HostKeyPolicy::AcceptNew), &id, &original)
        .expect("seed original key");
    let verifier = store_verifier(HostKeyPolicy::Strict).with_confirmed_changed_key(
        id.clone(),
        HostKeyDetails {
            algorithm: "ecdsa-sha2-nistp384".to_owned(),
            fingerprint: "SHA256:test".to_owned(),
        },
        false,
    );
    assert_eq!(
        stores
            .algorithms(&verifier, &id)
            .expect("confirmed changed algorithm should be preferred"),
        vec!["ecdsa-sha2-nistp384", "ssh-ed25519"]
    );
}

#[test]
fn host_port_and_route_are_separate_trust_identities() {
    let mut stores = Stores::empty();
    let key = ed25519(28);
    let direct = identity("host.example", 22);
    let proxy = proxied("host.example", 22);
    let other_port = identity("host.example", 2222);
    stores
        .verify(&store_verifier(HostKeyPolicy::AcceptNew), &direct, &key)
        .expect("seed direct key");
    assert!(matches!(
        stores.verify(&store_verifier(HostKeyPolicy::Strict), &proxy, &key),
        Err(HostKeyRejection::Unknown { .. })
    ));
    assert!(matches!(
        stores.verify(&store_verifier(HostKeyPolicy::Strict), &other_port, &key),
        Err(HostKeyRejection::Unknown { .. })
    ));
}

#[test]
fn insecure_mode_is_explicit_and_does_not_write_trust() {
    let mut stores = Stores::empty();
    let verifier = HostKeyVerifier::new(
        HostKeyPolicy::Insecure,
        Some(std::path::PathBuf::from("/home/user/.config/keys.json")),
        None,
    );
    let result = stores
        .verify(&verifier, &identity("host.example", 22), &ed25519(29))
        .expect("insecure mode should accept");
    assert_eq!(result, HostKeyAcceptance::Insecure);
    assert!(stores.app.is_none());
}

#[test]
fn openssh_known_hosts_accepts_matching_host_and_port() {
    let presented = ed25519(30);
    let mut stores = Stores::with_known_hosts(format!("[known.example]:2200 {}\n", presented.public_key));
    let verifier = HostKeyVerifier::new(
        HostKeyPolicy::Strict,
        None,
        Some(std::path::PathBuf::from("/home/user/.ssh/known_hosts")),
    );
    assert_eq!(
        stores
            .verify(&verifier, &identity("known.example", 2200), &presented)
            .expect("matching known_hosts entry should be accepted"),
        HostKeyAcceptance::Known
    );
    assert!(matches!(
        stores.verify(&verifier, &identity("known.example", 22), &presented),
        Err(HostKeyRejection::Unknown { .. })
    ));
}

#[test]
fn openssh_revoked_key_is_rejected() {
    let presented = ed25519(31);
    let mut stores = Stores::with_known_hosts(format!("@revoked revoked.example {}\n", presented.public_key));
    let verifier = HostKeyVerifier::new(
        HostKeyPolicy::Strict,
        None,
        Some(std::path::PathBuf::from("/home/user/.ssh/known_hosts")),
    );
    assert!(matches!(
        stores.verify(&verifier, &identity("revoked.example", 22), &presented),
        Err(HostKeyRejection::Revoked { .. })
    ));
}

#[test]
fn accepted_host_is_listed_with_algorithm_fingerprint_and_timestamps() {
    let mut stores = Stores::empty();
    let id = identity("host.example", 22);
    let presented = ed25519(32);
    stores
        .verify(&store_verifier(HostKeyPolicy::AcceptNew), &id, &presented)
        .expect("accept new");
    let hosts = stores.list(&store_verifier(HostKeyPolicy::Strict)).expect("list known hosts");
    assert_eq!(hosts.len(), 1);
    let host = &hosts[0];
    assert_eq!(host.identity, id);
    assert_eq!(host.algorithm, "ssh-ed25519");
    assert!(host.fingerprint.starts_with("SHA256:"));
    assert_eq!(host.public_key, presented.public_key);
    assert!(host.discovered_at.is_some());
    assert!(host.last_seen.is_some());
}

#[test]
fn reusing_known_host_preserves_metadata() {
    let mut stores = Stores::empty();
    let id = identity("host.example", 22);
    let presented = ed25519(33);
    stores
        .verify(&store_verifier(HostKeyPolicy::AcceptNew), &id, &presented)
        .expect("seed app trust");
    let verifier = store_verifier(HostKeyPolicy::Strict);
    assert_eq!(
        stores.verify(&verifier, &id, &presented).expect("known host reuses"),
        HostKeyAcceptance::Known
    );
    let hosts = stores.list(&verifier).expect("list known hosts");
    assert_eq!(hosts.len(), 1);
    assert!(hosts[0].discovered_at.is_some());
    assert!(hosts[0].last_seen.is_some());
    assert!(hosts[0].discovered_at <= hosts[0].last_seen);
}

#[test]
fn legacy_trust_store_without_metadata_still_loads() {
    let mut stores = Stores::empty();
    let id = identity("host.example", 22);
    let presented = ed25519(34);
    stores
        .verify(&store_verifier(HostKeyPolicy::AcceptNew), &id, &presented)
        .expect("seed app trust");
    for entry in stores.app.as_mut().expect("entries") {
        entry.discovered_at = None;
        entry.last_seen = None;
    }
    let hosts = stores.list(&store_verifier(HostKeyPolicy::Strict)).expect("legacy store should load");
    assert_eq!(hosts.len(), 1);
    assert_eq!(hosts[0].discovered_at, None);
    assert_eq!(hosts[0].last_seen, None);
    assert_eq!(
        stores
            .verify(&store_verifier(HostKeyPolicy::Strict), &id, &presented)
            .expect("legacy key should remain trusted"),
        HostKeyAcceptance::Known
    );
}

#[test]
fn import_system_known_hosts_imports_plain_and_skips_ambiguous() {
    let mut stores = Stores::empty();
    let plain_key = ed25519(35);
    let port_key = ed25519(36);
    let revoked_key = ed25519(37);
    let content = format!(
        "plain.example {}\n[port.example]:2200 {}\n*.wild.example {}\n!neg.example {}\n{}\n@revoked revoked.example {}\n@cert-authority ca.example {}\nnot-a-valid-known-hosts-line\n",
        plain_key.public_key,
        port_key.public_key,
        port_key.public_key,
        plain_key.public_key,
        hashed_known_hosts_line("hashed.example"),
        revoked_key.public_key,
        plain_key.public_key,
    );
    let verifier = store_verifier(HostKeyPolicy::Strict);
    let imported = stores.import(&verifier, Some(&content)).expect("import system known_hosts");
    assert_eq!(imported, 2);
    let hosts = stores.list(&verifier).expect("list known hosts");
    let identities = hosts.iter().map(|host| host.identity.clone()).collect::<Vec<_>>();
    assert!(identities.contains(&identity("plain.example", 22)));
    assert!(identities.contains(&identity("port.example", 2200)));
}

#[test]
fn import_system_known_hosts_is_idempotent() {
    let mut stores = Stores::empty();
    let presented = ed25519(38);
    let content = format!("plain.example {}\n", presented.public_key);
    let verifier = store_verifier(HostKeyPolicy::Strict);
    assert_eq!(stores.import(&verifier, Some(&content)).expect("first import"), 1);
    assert_eq!(stores.import(&verifier, Some(&content)).expect("second import"), 0);
}

#[test]
fn missing_known_hosts_file_imports_nothing() {
    let mut stores = Stores::empty();
    let verifier = store_verifier(HostKeyPolicy::Strict);
    assert_eq!(stores.import(&verifier, None).expect("missing file is not an error"), 0);
    assert!(stores.app.is_none());
}

#[test]
fn list_known_hosts_skips_a_single_corrupt_entry() {
    let mut stores = Stores::empty();
    let good_id = identity("good.example", 22);
    let bad_id = identity("bad.example", 22);
    let verifier = store_verifier(HostKeyPolicy::AcceptNew);
    stores.verify(&verifier, &good_id, &ed25519(39)).expect("seed good host");
    stores.verify(&verifier, &bad_id, &ed25519(40)).expect("seed bad host");
    for entry in stores.app.as_mut().expect("entries") {
        if entry.host == "bad.example" {
            entry.fingerprint = "SHA256:corrupt".to_owned();
        }
    }
    let hosts = stores
        .list(&store_verifier(HostKeyPolicy::Strict))
        .expect("listing tolerates a corrupt entry");
    assert_eq!(hosts.len(), 1);
    assert_eq!(hosts[0].identity, good_id);
}
