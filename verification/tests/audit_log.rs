use veritasor::audit_log::{AuditError, AuditLogContract};

const ADMIN: u64 = 1;

fn setup() -> AuditLogContract {
    let mut client = AuditLogContract::new();
    client.initialize(ADMIN).unwrap();
    client
}

fn append(client: &mut AuditLogContract, actor: u64, source: u64, action: &str, payload: &str) -> u64 {
    client.append(actor, source, String::from(action), String::from(payload), 10).unwrap()
}

#[test]
fn audit_log_initialize() {
    let client = setup();
    assert_eq!(client.get_admin(), Ok(ADMIN));
    assert_eq!(client.get_log_count(), 0);
}

#[test]
fn test_double_initialize() {
    let mut client = setup();
    assert_eq!(client.initialize(ADMIN), Err(AuditError::AlreadyInitialized));
}

#[test]
fn test_append() {
    let mut client = setup();
    let (actor, source) = (2u64, 3u64);
    let seq = append(&mut client, actor, source, "submit_attestation", "hash123");
    assert_eq!(seq, 0);
    assert_eq!(client.get_log_count(), 1);
    let rec = client.get_entry(seq).unwrap();
    assert_eq!(rec.actor, actor);
    assert_eq!(rec.source_contract, source);
    assert_eq!(rec.action, String::from("submit_attestation"));
    assert_eq!(rec.payload, String::from("hash123"));
    assert_eq!(rec.seq, 0);
    assert_eq!(rec.ledger_seq, 10);
}

#[test]
fn test_append_ordering() {
    let mut client = setup();
    let s0 = append(&mut client, 2, 3, "a", "");
    let s1 = append(&mut client, 2, 3, "b", "");
    let s2 = append(&mut client, 2, 3, "c", "");
    assert_eq!(s0, 0);
    assert_eq!(s1, 1);
    assert_eq!(s2, 2);
    assert_eq!(client.get_log_count(), 3);
}

#[test]
fn test_get_seqs_by_actor() {
    let mut client = setup();
    let (actor1, actor2, source) = (2u64, 4u64, 3u64);
    append(&mut client, actor1, source, "a", "");
    append(&mut client, actor2, source, "b", "");
    append(&mut client, actor1, source, "c", "");
    let seqs1 = client.get_seqs_by_actor(actor1);
    let seqs2 = client.get_seqs_by_actor(actor2);
    assert_eq!(seqs1.len(), 2);
    assert_eq!(seqs2.len(), 1);
    assert_eq!(seqs1[0], 0);
    assert_eq!(seqs1[1], 2);
    assert_eq!(seqs2[0], 1);
}

#[test]
fn test_get_seqs_by_contract() {
    let mut client = setup();
    let (actor, src1, src2) = (2u64, 5u64, 6u64);
    append(&mut client, actor, src1, "a", "");
    append(&mut client, actor, src2, "b", "");
    append(&mut client, actor, src1, "c", "");
    assert_eq!(client.get_seqs_by_contract(src1).len(), 2);
    assert_eq!(client.get_seqs_by_contract(src2).len(), 1);
}

#[test]
fn test_get_entry_missing() {
    let client = setup();
    assert!(client.get_entry(0).is_none());
}

#[test]
fn test_empty_logs() {
    let client = setup();
    assert_eq!(client.get_log_count(), 0);
    assert!(client.get_seqs_by_actor(2).is_empty());
}

#[test]
fn test_empty_payload() {
    let mut client = setup();
    let seq = append(&mut client, 2, 3, "revoke", "");
    let rec = client.get_entry(seq).unwrap();
    assert_eq!(rec.payload, String::from(""));
}

#[test]
fn append_before_initialization_is_refused() {
    let mut client = AuditLogContract::new();
    assert_eq!(
        client.append(2, 3, String::from("a"), String::from(""), 1),
        Err(AuditError::NotInitialized)
    );
}
