use solana_ui::solana::{validate_identity, ContactInfoRecord, GossipNodeInfo, RpcError,
    SolanaClient, ValidatorInfo, VoteAccountRecord, VOTE_PROGRAM_ID};
use solana_ui::updater::{is_newer_version, UpdateStatus};

const ZERO_KEY: &str = "11111111111111111111111111111111";

#[test]
fn test_absent_schedule_is_success_with_no_slots() {
    let r = SolanaClient::build_leader_schedule("SomeValidator", 7, None, 1000, 1005, 1_000_000);
    assert_eq!(r.validator_identity, "SomeValidator");
    assert_eq!(r.target_epoch, 7);
    assert_eq!(r.total_slots, 0);
    assert!(r.leader_slots.is_empty());
    assert!(r.next_leader_slot.is_none());
}

#[test]
fn test_schedule_sorted_with_next_upcoming() {
    // Relative slots out of order; current time sits between projections.
    let rel = vec![10u64, 3, 7];
    let r = SolanaClient::build_leader_schedule("V", 7, Some(rel), 1000, 1005, 1_000_000);
    assert_eq!(r.total_slots, 3);
    let slots: Vec<u64> = r.leader_slots.iter().map(|l| l.slot).collect();
    assert_eq!(slots, vec![1003, 1007, 1010]);
    for l in &r.leader_slots {
        assert_eq!(l.epoch, 7);
    }
    // 1003 is 2 slots back: -0.8 s rounds to -1; 1007 is +0.8 s; 1010 is +2 s.
    assert_eq!(r.leader_slots[0].timestamp, 999_999);
    assert_eq!(r.leader_slots[1].timestamp, 1_000_001);
    assert_eq!(r.leader_slots[2].timestamp, 1_000_002);
    assert_eq!(r.leader_slots[0].time_diff, "1s ago");
    assert_eq!(r.leader_slots[1].time_diff, "1s");
    assert_eq!(r.leader_slots[2].time_diff, "2s");
    // The first future slot in schedule order (relative slot 10) is next.
    let next = r.next_leader_slot.expect("a future slot exists");
    assert_eq!(next.slot, 1010);
    assert_eq!(next.timestamp, 1_000_002);
}

#[test]
fn test_schedule_all_past_has_no_next() {
    let rel = vec![1u64, 2];
    let r = SolanaClient::build_leader_schedule("V", 1, Some(rel), 0, 5_000, 1_000_000);
    assert_eq!(r.total_slots, 2);
    assert!(r.next_leader_slot.is_none());
}

#[test]
fn test_leader_slots_in_bounds() {
    assert!(SolanaClient::leader_slots_in_bounds(&vec![0, 5, 100], 1_000));
    assert!(!SolanaClient::leader_slots_in_bounds(&vec![u64::MAX], 1_000));
    let empty: Vec<u64> = Vec::new();
    assert!(SolanaClient::leader_slots_in_bounds(&empty, u64::MAX));
}

#[test]
fn test_validate_identity_rejects_malformed_key() {
    match validate_identity("not a base58 key !!") {
        Err(RpcError::DomainParse(m)) => assert_eq!(m, "not a base58 key !!"),
        other => panic!("expected a domain-parse error, got {:?}", other),
    }
}

#[test]
fn test_validate_identity_accepts_canonical_key() {
    let ok = validate_identity(VOTE_PROGRAM_ID).expect("the vote program id parses");
    assert_eq!(ok, VOTE_PROGRAM_ID);
}

#[test]
fn test_rpc_error_descriptions() {
    assert_eq!(
        RpcError::Transport("refused".to_string()).describe(),
        "transport error: refused"
    );
    assert_eq!(RpcError::Decode("bad json".to_string()).describe(), "malformed response: bad json");
    assert_eq!(RpcError::DomainParse("x".to_string()).describe(), "invalid identifier: x");
    assert_eq!(RpcError::NotFound("slot 5".to_string()).describe(), "not found: slot 5");
}

#[test]
fn test_vote_account_conversion_defaults_bad_keys() {
    let rec = VoteAccountRecord {
        node_pubkey: "*** not a key ***".to_string(),
        vote_pubkey: VOTE_PROGRAM_ID.to_string(),
        commission: 5,
        last_vote: 111,
        root_slot: 110,
        activated_stake: 42,
        epoch_credits: vec![(1, 216_100, 100)],
    };
    let v = ValidatorInfo::from_rpc_vote_account(rec);
    // The unparseable identity becomes the all-zero key; the valid one stays.
    assert_eq!(v.identity, ZERO_KEY);
    assert_eq!(v.vote_account, VOTE_PROGRAM_ID);
    assert_eq!(v.commission, 5);
    assert_eq!(v.version, "Unknown");
    assert_eq!(v.vote_credits, 216_100);
    assert_eq!(v.skip_rate, 5000);
}

#[test]
fn test_contact_info_conversion() {
    let rec = ContactInfoRecord {
        pubkey: "bogus!".to_string(),
        gossip: None,
        tpu: Some("10.0.0.1:8003".to_string()),
        rpc: None,
        tpu_quic: None,
        version: Some("1.18.0".to_string()),
        feature_set: Some(7),
        shred_version: Some(3),
    };
    let g = GossipNodeInfo::from_rpc_contact_info(rec);
    assert_eq!(g.pubkey, ZERO_KEY);
    assert_eq!(g.gossip, "Unknown");
    assert_eq!(g.tpu.as_deref(), Some("10.0.0.1:8003"));
    assert_eq!(g.rpc, None);
    assert_eq!(g.version.as_deref(), Some("1.18.0"));
    assert_eq!(g.feature_set, Some(7));
    assert_eq!(g.shred_version, Some(3));
}

#[test]
fn test_client_handle_keeps_url() {
    let c = SolanaClient::new("https://api.testnet.solana.com".to_string());
    assert_eq!(c.rpc_url, "https://api.testnet.solana.com");
    let d = c.clone();
    assert_eq!(d.rpc_url, c.rpc_url);
}

#[test]
fn test_version_comparison() {
    assert!(is_newer_version((1, 2, 3), (1, 2, 4)));
    assert!(is_newer_version((1, 2, 3), (2, 0, 0)));
    assert!(!is_newer_version((1, 2, 3), (1, 2, 3)));
    assert!(!is_newer_version((2, 0, 0), (1, 9, 9)));
    assert!(is_newer_version((1, 2, 3), (1, 3, 0)));
}

#[test]
fn test_update_status_variants() {
    let failed = UpdateStatus::CheckFailed("offline".to_string());
    assert_eq!(failed, UpdateStatus::CheckFailed("offline".to_string()));
    assert_ne!(failed, UpdateStatus::UpToDate);
}
