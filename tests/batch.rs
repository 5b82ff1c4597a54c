use farm_events::batch::{map_farm_txns, FarmEvent, Transaction};
use farm_events::events::FARM_PROGRAM_ID;

fn tx(sig: Vec<u8>, keys: Vec<Vec<u8>>, logs: &[&str]) -> Transaction {
    let mut lines = vec![format!("Program {} invoke [1]", FARM_PROGRAM_ID)];
    lines.extend(logs.iter().map(|s| s.to_string()));
    Transaction { signatures: vec![sig], account_keys: Some(keys), log_messages: Some(lines) }
}

fn keys(n: u8) -> Vec<Vec<u8>> {
    (0..n).map(|i| vec![i + 1; 32]).collect()
}

#[test]
fn batch_without_tags_is_absent() {
    let batch = vec![
        tx(vec![1; 64], keys(3), &["Program log: Instruction: Deposit"]),
        tx(vec![2; 64], keys(3), &[]),
    ];
    assert_eq!(map_farm_txns(&batch), Ok(None));
}

#[test]
fn empty_batch_is_absent() {
    assert_eq!(map_farm_txns(&Vec::new()), Ok(None));
}

#[test]
fn batch_collects_in_transaction_then_kind_order() {
    let batch = vec![
        tx(
            vec![1; 64],
            keys(4),
            &[
                "process_admin_add_reward_token: A, 7, 8, 1, 0",
                "process_initialize reward_per_second 5, begin:100, current:90, end:200",
            ],
        ),
        tx(vec![2; 64], keys(2), &["process_creator_restart: B, 500, 900, 2"]),
    ];
    let events = map_farm_txns(&batch).unwrap().unwrap();
    assert_eq!(events.len(), 3);
    assert!(matches!(events[0], FarmEvent::Initialize(_)));
    assert!(matches!(events[1], FarmEvent::NewReward(_)));
    assert!(matches!(events[2], FarmEvent::RestartOrAdd(_)));
    match &events[2] {
        FarmEvent::RestartOrAdd(e) => {
            assert_eq!(e.signature, bs58::encode(vec![2u8; 64]).into_string());
            assert_eq!(e.user, bs58::encode(vec![1u8; 32]).into_string());
            assert_eq!(e.farm_id, bs58::encode(vec![2u8; 32]).into_string());
            assert_eq!(e.start_time, 500);
            assert_eq!(e.end_time, 900);
        }
        _ => unreachable!(),
    }
}

#[test]
fn batch_encodes_signature_and_accounts_in_base58() {
    let sig = vec![0x04, 0x30, 0x5e, 0x2b, 0x24, 0x73, 0xf0, 0x58];
    let batch = vec![tx(
        sig,
        vec![vec![0x04, 0x30, 0x5e, 0x2b, 0x24, 0x73, 0xf0, 0x58], vec![0, 0, 1], vec![9], vec![10]],
        &["process_initialize reward_per_second 5, begin:100, current:90, end:200"],
    )];
    let events = map_farm_txns(&batch).unwrap().unwrap();
    match &events[0] {
        FarmEvent::Initialize(e) => {
            assert_eq!(e.signature, "he11owor1d");
            assert_eq!(e.user, "he11owor1d");
            assert_eq!(e.farm_id, "112");
            assert_eq!(e.lp_mint, "A");
            assert_eq!(e.reward_mints, vec!["B".to_string()]);
        }
        _ => unreachable!(),
    }
}

#[test]
fn batch_missing_metadata_is_an_error() {
    let mut t = tx(vec![1; 64], keys(3), &[]);
    t.log_messages = None;
    assert!(map_farm_txns(&vec![t]).is_err());
    let mut t = tx(vec![1; 64], keys(3), &[]);
    t.account_keys = None;
    assert!(map_farm_txns(&vec![t]).is_err());
    let mut t = tx(vec![1; 64], keys(3), &[]);
    t.signatures = Vec::new();
    assert!(map_farm_txns(&vec![t]).is_err());
}

#[test]
fn batch_aborts_on_missing_accounts() {
    let batch = vec![
        tx(vec![1; 64], keys(3), &["process_creator_restart: B, 500, 900, 2"]),
        tx(
            vec![2; 64],
            keys(1),
            &["process_initialize reward_per_second 5, begin:100, current:90, end:200"],
        ),
    ];
    assert!(map_farm_txns(&batch).is_err());
}
