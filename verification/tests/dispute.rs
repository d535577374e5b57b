use veritasor::dispute::{
    Dispute, DisputeBook, DisputeError, DisputeOutcome, DisputeResolution, DisputeStatus, DisputeType,
};

fn dispute(id: u64, challenger: u64, status: DisputeStatus) -> Dispute {
    Dispute {
        id,
        challenger,
        business: 7,
        period: String::from("2026-02"),
        status,
        dispute_type: DisputeType::RevenueMismatch,
        evidence: String::from("evidence"),
        timestamp: 100,
        resolution: None,
    }
}

#[test]
fn ids_start_at_one() {
    let mut book = DisputeBook::new();
    assert_eq!(book.generate_dispute_id(), Ok(1));
    assert_eq!(book.generate_dispute_id(), Ok(2));
}

#[test]
fn store_and_index_disputes() {
    let mut book = DisputeBook::new();
    let id = book.generate_dispute_id().unwrap();
    book.store_dispute(dispute(id, 3, DisputeStatus::Open));
    book.add_dispute_to_attestation_index(7, String::from("2026-02"), id);
    book.add_dispute_to_challenger_index(3, id);
    assert_eq!(book.get_dispute(id).unwrap().challenger, 3);
    assert_eq!(book.get_dispute_ids_by_attestation(7, String::from("2026-02")), vec![id]);
    assert_eq!(book.get_dispute_ids_by_challenger(3), vec![id]);
    assert!(book.get_dispute_ids_by_challenger(4).is_empty());
    assert!(book.has_existing_dispute(3, 7, String::from("2026-02")));
    assert!(!book.has_existing_dispute(4, 7, String::from("2026-02")));
}

#[test]
fn eligibility_rules() {
    let mut book = DisputeBook::new();
    let p = || String::from("2026-02");
    assert_eq!(book.validate_dispute_eligibility(3, 7, p(), false), Err(DisputeError::NoAttestation));
    assert_eq!(book.validate_dispute_eligibility(3, 7, p(), true), Ok(()));
    book.store_dispute(dispute(1, 3, DisputeStatus::Closed));
    book.add_dispute_to_attestation_index(7, p(), 1);
    assert_eq!(book.validate_dispute_eligibility(3, 7, p(), true), Err(DisputeError::AlreadyDisputed));
    assert_eq!(book.validate_dispute_eligibility(4, 7, p(), true), Ok(()));
    assert_eq!(DisputeError::AlreadyDisputed.message(), "challenger already has an open dispute for this attestation");
}

#[test]
fn resolution_and_closure_checks() {
    let mut book = DisputeBook::new();
    assert_eq!(book.validate_dispute_resolution(1, 9), Err(DisputeError::DisputeNotFound));
    book.store_dispute(dispute(1, 3, DisputeStatus::Open));
    assert_eq!(book.validate_dispute_resolution(1, 9).unwrap().id, 1);
    assert_eq!(book.validate_dispute_closure(1), Err(DisputeError::NotResolved));
    book.store_dispute(dispute(1, 3, DisputeStatus::Resolved));
    assert_eq!(book.validate_dispute_resolution(1, 9), Err(DisputeError::NotOpen));
    assert_eq!(book.validate_dispute_closure(1).unwrap().status, DisputeStatus::Resolved);
}

/// Disputes next to the attestations they may challenge.
struct Ledger {
    book: DisputeBook,
    attested: Vec<(u64, String)>,
    now: u64,
}

fn ledger() -> Ledger {
    Ledger { book: DisputeBook::new(), attested: Vec::new(), now: 1_700_000_000 }
}

fn attest(l: &mut Ledger, business: u64, period: &str) {
    l.attested.push((business, String::from(period)));
}

fn open(
    l: &mut Ledger,
    challenger: u64,
    business: u64,
    period: &str,
    dispute_type: DisputeType,
    evidence: &str,
) -> Result<u64, DisputeError> {
    let exists = l.attested.contains(&(business, String::from(period)));
    l.book.validate_dispute_eligibility(challenger, business, String::from(period), exists)?;
    let id = l.book.generate_dispute_id()?;
    l.book.store_dispute(Dispute {
        id,
        challenger,
        business,
        period: String::from(period),
        status: DisputeStatus::Open,
        dispute_type,
        evidence: String::from(evidence),
        timestamp: l.now,
        resolution: None,
    });
    l.book.add_dispute_to_attestation_index(business, String::from(period), id);
    l.book.add_dispute_to_challenger_index(challenger, id);
    Ok(id)
}

fn resolve(l: &mut Ledger, id: u64, resolver: u64, outcome: DisputeOutcome, notes: &str) -> Result<(), DisputeError> {
    let mut d = l.book.validate_dispute_resolution(id, resolver)?;
    d.status = DisputeStatus::Resolved;
    d.resolution = Some(DisputeResolution { resolver, outcome, timestamp: l.now, notes: String::from(notes) });
    l.book.store_dispute(d);
    Ok(())
}

fn close(l: &mut Ledger, id: u64) -> Result<(), DisputeError> {
    let mut d = l.book.validate_dispute_closure(id)?;
    d.status = DisputeStatus::Closed;
    l.book.store_dispute(d);
    Ok(())
}

#[test]
fn test_open_dispute_success() {
    let mut l = ledger();
    let (business, challenger) = (1, 2);
    attest(&mut l, business, "2026-02");
    let evidence = "Revenue figures don't match expected amounts";
    let id = open(&mut l, challenger, business, "2026-02", DisputeType::RevenueMismatch, evidence).unwrap();
    let d = l.book.get_dispute(id).unwrap();
    assert_eq!(d.id, id);
    assert_eq!(d.challenger, challenger);
    assert_eq!(d.business, business);
    assert_eq!(d.period, "2026-02");
    assert_eq!(d.status, DisputeStatus::Open);
    assert_eq!(d.dispute_type, DisputeType::RevenueMismatch);
    assert_eq!(d.evidence, evidence);
    assert!(d.resolution.is_none());
}

#[test]
fn test_open_dispute_no_attestation() {
    let mut l = ledger();
    let r = open(&mut l, 2, 1, "2026-02", DisputeType::RevenueMismatch, "No attestation exists");
    assert_eq!(r, Err(DisputeError::NoAttestation));
    assert!(r.unwrap_err().message().contains("no attestation exists"));
}

#[test]
fn test_duplicate_dispute_prevention() {
    let mut l = ledger();
    attest(&mut l, 1, "2026-02");
    let first = open(&mut l, 2, 1, "2026-02", DisputeType::RevenueMismatch, "First dispute").unwrap();
    let r = open(&mut l, 2, 1, "2026-02", DisputeType::RevenueMismatch, "Second dispute");
    assert_eq!(r, Err(DisputeError::AlreadyDisputed));
    assert!(r.unwrap_err().message().contains("challenger already has an open dispute"));
    assert_eq!(l.book.get_dispute(first).unwrap().evidence, "First dispute");
}

#[test]
fn test_dispute_resolution() {
    let mut l = ledger();
    attest(&mut l, 1, "2026-02");
    let id = open(&mut l, 2, 1, "2026-02", DisputeType::RevenueMismatch, "Dispute evidence").unwrap();
    let resolver = 3;
    let notes = "Challenger provided sufficient evidence";
    resolve(&mut l, id, resolver, DisputeOutcome::Upheld, notes).unwrap();
    let d = l.book.get_dispute(id).unwrap();
    assert_eq!(d.status, DisputeStatus::Resolved);
    let res = d.resolution.unwrap();
    assert_eq!(res.resolver, resolver);
    assert_eq!(res.outcome, DisputeOutcome::Upheld);
    assert_eq!(res.notes, notes);
}

#[test]
fn test_resolve_nonexistent_dispute() {
    let mut l = ledger();
    let r = resolve(&mut l, 1, 3, DisputeOutcome::Rejected, "Test notes");
    assert_eq!(r, Err(DisputeError::DisputeNotFound));
    assert!(r.unwrap_err().message().contains("dispute not found"));
}

#[test]
fn test_resolve_closed_dispute() {
    let mut l = ledger();
    attest(&mut l, 1, "2026-02");
    let id = open(&mut l, 2, 1, "2026-02", DisputeType::RevenueMismatch, "Dispute evidence").unwrap();
    resolve(&mut l, id, 3, DisputeOutcome::Upheld, "Notes").unwrap();
    let r = resolve(&mut l, id, 3, DisputeOutcome::Rejected, "Notes");
    assert_eq!(r, Err(DisputeError::NotOpen));
    assert!(r.unwrap_err().message().contains("dispute is not open"));
}

#[test]
fn test_close_dispute() {
    let mut l = ledger();
    attest(&mut l, 1, "2026-02");
    let id = open(&mut l, 2, 1, "2026-02", DisputeType::RevenueMismatch, "Dispute evidence").unwrap();
    resolve(&mut l, id, 3, DisputeOutcome::Upheld, "Notes").unwrap();
    close(&mut l, id).unwrap();
    assert_eq!(l.book.get_dispute(id).unwrap().status, DisputeStatus::Closed);
}

#[test]
fn test_close_unresolved_dispute() {
    let mut l = ledger();
    attest(&mut l, 1, "2026-02");
    let id = open(&mut l, 2, 1, "2026-02", DisputeType::RevenueMismatch, "Dispute evidence").unwrap();
    let r = close(&mut l, id);
    assert_eq!(r, Err(DisputeError::NotResolved));
    assert!(r.unwrap_err().message().contains("dispute is not resolved"));
}

#[test]
fn test_get_disputes_by_attestation() {
    let mut l = ledger();
    attest(&mut l, 1, "2026-02");
    let d1 = open(&mut l, 2, 1, "2026-02", DisputeType::RevenueMismatch, "Dispute 1").unwrap();
    let d2 = open(&mut l, 3, 1, "2026-02", DisputeType::DataIntegrity, "Dispute 2").unwrap();
    let ids = l.book.get_dispute_ids_by_attestation(1, String::from("2026-02"));
    assert_eq!(ids.len(), 2);
    assert!(ids.contains(&d1));
    assert!(ids.contains(&d2));
}

#[test]
fn test_get_disputes_by_challenger() {
    let mut l = ledger();
    let challenger = 9;
    attest(&mut l, 1, "2026-02");
    attest(&mut l, 2, "2026-03");
    let d1 = open(&mut l, challenger, 1, "2026-02", DisputeType::RevenueMismatch, "Dispute 1").unwrap();
    let d2 = open(&mut l, challenger, 2, "2026-03", DisputeType::DataIntegrity, "Dispute 2").unwrap();
    let ids = l.book.get_dispute_ids_by_challenger(challenger);
    assert_eq!(ids.len(), 2);
    assert!(ids.contains(&d1));
    assert!(ids.contains(&d2));
}

#[test]
fn test_business_vs_lender_dispute_scenario() {
    let mut l = ledger();
    let (business, lender) = (1, 2);
    attest(&mut l, business, "2026-Q1");
    let id = open(
        &mut l,
        lender,
        business,
        "2026-Q1",
        DisputeType::RevenueMismatch,
        "Business reported $100k revenue but lender records show $80k",
    )
    .unwrap();
    let d = l.book.get_dispute(id).unwrap();
    assert_eq!(d.challenger, lender);
    assert_eq!(d.business, business);
    assert_eq!(d.period, "2026-Q1");
    assert_eq!(d.dispute_type, DisputeType::RevenueMismatch);
    let notes = "Audited financial records confirm reported revenue of $100k";
    resolve(&mut l, id, business, DisputeOutcome::Rejected, notes).unwrap();
    let d = l.book.get_dispute(id).unwrap();
    assert_eq!(d.status, DisputeStatus::Resolved);
    let res = d.resolution.unwrap();
    assert_eq!(res.outcome, DisputeOutcome::Rejected);
    assert_eq!(res.resolver, business);
    close(&mut l, id).unwrap();
    assert_eq!(l.book.get_dispute(id).unwrap().status, DisputeStatus::Closed);
}

#[test]
fn test_dispute_lifecycle_complete_flow() {
    let mut l = ledger();
    let (business, challenger, resolver) = (1, 2, 3);
    attest(&mut l, business, "2026-04");
    let evidence = "Merkle root verification failed for leaf nodes";
    let id = open(&mut l, challenger, business, "2026-04", DisputeType::DataIntegrity, evidence).unwrap();
    let d = l.book.get_dispute(id).unwrap();
    assert_eq!(d.status, DisputeStatus::Open);
    assert_eq!(d.challenger, challenger);
    assert_eq!(d.business, business);
    let notes = "Independent audit confirmed data inconsistency";
    resolve(&mut l, id, resolver, DisputeOutcome::Upheld, notes).unwrap();
    let d = l.book.get_dispute(id).unwrap();
    assert_eq!(d.status, DisputeStatus::Resolved);
    assert_eq!(d.resolution.as_ref().unwrap().outcome, DisputeOutcome::Upheld);
    assert_eq!(d.resolution.as_ref().unwrap().resolver, resolver);
    close(&mut l, id).unwrap();
    assert_eq!(l.book.get_dispute(id).unwrap().status, DisputeStatus::Closed);
    let by_attestation = l.book.get_dispute_ids_by_attestation(business, String::from("2026-04"));
    assert_eq!(by_attestation, vec![id]);
    let by_challenger = l.book.get_dispute_ids_by_challenger(challenger);
    assert_eq!(by_challenger, vec![id]);
}
