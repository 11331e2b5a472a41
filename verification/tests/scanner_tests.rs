use solana_ui::solana::{filter_vote_transactions, InstructionRecord, SolanaClient,
    TransactionRecord, VoteTransactionInfo, VOTE_PROGRAM_ID};

fn plain_transfer(sig: &str) -> TransactionRecord {
    TransactionRecord {
        signatures: vec![sig.to_string()],
        account_keys: vec!["SenderKey".to_string(), "ReceiverKey".to_string()],
        instructions: vec![InstructionRecord { program_id_index: 1, accounts: vec![0] }],
    }
}

#[test]
fn test_scan_empty_block() {
    let txs: Vec<TransactionRecord> = Vec::new();
    let r = SolanaClient::scan_block_for_voters(77, &txs);
    assert_eq!(r.slot, 77);
    assert!(r.voters.is_empty());
    assert!(r.vote_transactions.is_empty());
    assert_eq!(r.total_voters, 0);
}

#[test]
fn test_scan_extracts_first_referenced_account() {
    // Three transactions; only instruction index 1 of the third references
    // the vote program, with accounts [V1, V2]: V1 is the voter, paired with
    // that transaction's first signature.
    let tx0 = plain_transfer("sig0");
    let tx1 = plain_transfer("sig1");
    let tx2 = TransactionRecord {
        signatures: vec!["sig2".to_string(), "cosign2".to_string()],
        account_keys: vec![
            "FeePayer".to_string(),
            "V1".to_string(),
            "V2".to_string(),
            VOTE_PROGRAM_ID.to_string(),
        ],
        instructions: vec![
            InstructionRecord { program_id_index: 0, accounts: vec![1] },
            InstructionRecord { program_id_index: 3, accounts: vec![1, 2] },
        ],
    };
    let txs = vec![tx0, tx1, tx2];
    let r = SolanaClient::scan_block_for_voters(42, &txs);
    assert_eq!(r.slot, 42);
    assert_eq!(r.voters, vec!["V1".to_string()]);
    assert_eq!(r.total_voters, 1);
    assert_eq!(r.vote_transactions.len(), 1);
    assert_eq!(r.vote_transactions[0].vote_account, "V1");
    assert_eq!(r.vote_transactions[0].signature, "sig2");
}

#[test]
fn test_scan_same_block_twice_is_identical() {
    let tx = TransactionRecord {
        signatures: vec!["s".to_string()],
        account_keys: vec![VOTE_PROGRAM_ID.to_string(), "VoterA".to_string()],
        instructions: vec![
            InstructionRecord { program_id_index: 0, accounts: vec![1] },
            InstructionRecord { program_id_index: 0, accounts: vec![1] },
        ],
    };
    let txs = vec![tx];
    let first = SolanaClient::scan_block_for_voters(9, &txs);
    let second = SolanaClient::scan_block_for_voters(9, &txs);
    assert_eq!(first.voters, second.voters);
    assert_eq!(first.vote_transactions, second.vote_transactions);
    assert_eq!(first.total_voters, second.total_voters);
    // Duplicates stay in the ordered list; the voter set holds one entry.
    assert_eq!(first.vote_transactions.len(), 2);
    assert_eq!(first.total_voters, 1);
}

#[test]
fn test_scan_missing_signature_becomes_unknown() {
    let tx = TransactionRecord {
        signatures: Vec::new(),
        account_keys: vec![VOTE_PROGRAM_ID.to_string(), "VoterB".to_string()],
        instructions: vec![InstructionRecord { program_id_index: 0, accounts: vec![1] }],
    };
    let txs = vec![tx];
    let r = SolanaClient::scan_block_for_voters(1, &txs);
    assert_eq!(r.vote_transactions[0].signature, "unknown");
    assert_eq!(r.vote_transactions[0].vote_account, "VoterB");
}

#[test]
fn test_scan_skips_out_of_range_indexes() {
    let tx = TransactionRecord {
        signatures: vec!["s".to_string()],
        account_keys: vec![VOTE_PROGRAM_ID.to_string(), "VoterC".to_string()],
        instructions: vec![
            // Program index out of range.
            InstructionRecord { program_id_index: 9, accounts: vec![1] },
            // Vote program, but no referenced accounts.
            InstructionRecord { program_id_index: 0, accounts: Vec::new() },
            // Vote program, but the referenced account index is out of range.
            InstructionRecord { program_id_index: 0, accounts: vec![7] },
        ],
    };
    let txs = vec![tx];
    let r = SolanaClient::scan_block_for_voters(2, &txs);
    assert_eq!(r.total_voters, 0);
    assert!(r.vote_transactions.is_empty());
}

#[test]
fn test_scan_deduplicates_across_transactions() {
    let mk = |sig: &str, voter: &str| TransactionRecord {
        signatures: vec![sig.to_string()],
        account_keys: vec![VOTE_PROGRAM_ID.to_string(), voter.to_string()],
        instructions: vec![InstructionRecord { program_id_index: 0, accounts: vec![1] }],
    };
    let txs = vec![mk("s1", "VoterX"), mk("s2", "VoterY"), mk("s3", "VoterX")];
    let r = SolanaClient::scan_block_for_voters(3, &txs);
    assert_eq!(r.voters, vec!["VoterX".to_string(), "VoterY".to_string()]);
    assert_eq!(r.total_voters, 2);
    assert_eq!(r.vote_transactions.len(), 3);
}

#[test]
fn test_filter_vote_transactions_empty_term_keeps_all() {
    let txs = vec![
        VoteTransactionInfo { vote_account: "Alpha".to_string(), signature: "s1".to_string() },
        VoteTransactionInfo { vote_account: "Beta".to_string(), signature: "s2".to_string() },
    ];
    let kept = filter_vote_transactions(&txs, "");
    assert_eq!(kept, txs);
}

#[test]
fn test_filter_vote_transactions_case_insensitive() {
    let txs = vec![
        VoteTransactionInfo { vote_account: "AlphaVoter".to_string(), signature: "s1".to_string() },
        VoteTransactionInfo { vote_account: "BetaVoter".to_string(), signature: "s2".to_string() },
    ];
    // The needle only matches once both sides are lower-cased.
    let kept = filter_vote_transactions(&txs, "ALPHA");
    assert_eq!(kept.len(), 1);
    assert_eq!(kept[0].vote_account, "AlphaVoter");
    // Signatures are searched too.
    let by_sig = filter_vote_transactions(&txs, "S2");
    assert_eq!(by_sig.len(), 1);
    assert_eq!(by_sig[0].vote_account, "BetaVoter");
    let none = filter_vote_transactions(&txs, "gamma");
    assert!(none.is_empty());
}
