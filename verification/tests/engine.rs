//! End-to-end engine scenarios: the Send and Receive state machines
//! driven through the public facade, with crafted signed invoices and
//! simulated swapper quotes, status events and chain data.

use std::time::Duration;

use bitcoin::hashes::sha256;
use bitcoin::secp256k1::Secp256k1;
use bitcoin::secp256k1::SecretKey;
use lightning_invoice::Currency;
use lightning_invoice::InvoiceBuilder;
use lightning_invoice::PaymentSecret;

use breez_liquid_sdk::error::PaymentError;
use breez_liquid_sdk::fees::ReversePair;
use breez_liquid_sdk::fees::SubmarinePair;
use breez_liquid_sdk::model::GetInfoRequest;
use breez_liquid_sdk::model::LiquidSdkEvent;
use breez_liquid_sdk::model::Network;
use breez_liquid_sdk::model::PaymentState;
use breez_liquid_sdk::model::PaymentType;
use breez_liquid_sdk::model::PrepareReceiveRequest;
use breez_liquid_sdk::model::PrepareSendRequest;
use breez_liquid_sdk::model::RevSwapStates;
use breez_liquid_sdk::model::SubSwapStates;
use breez_liquid_sdk::model::WalletTx;
use breez_liquid_sdk::sdk::LiquidSdk;
use breez_liquid_sdk::sdk::ReceiveSwapAction;
use breez_liquid_sdk::sdk::SendSwapAction;

const NOW: u64 = 1_700_000_000;

fn hex_of(bytes: &[u8]) -> String {
    let mut s = String::new();
    for b in bytes {
        s.push_str(&format!("{:02x}", b));
    }
    s
}

/// Builds a signed testnet invoice committing to `preimage`.
fn make_invoice(preimage: &[u8], amount_msat: u64) -> String {
    let payment_hash = <sha256::Hash as bitcoin::hashes::Hash>::hash(preimage);
    let secp = Secp256k1::new();
    let key = SecretKey::from_slice(&[41; 32]).unwrap();
    let invoice = InvoiceBuilder::new(Currency::BitcoinTestnet)
        .description("swap me".to_string())
        .payment_hash(payment_hash)
        .payment_secret(PaymentSecret([7; 32]))
        .amount_milli_satoshis(amount_msat)
        .duration_since_epoch(Duration::from_secs(NOW))
        .min_final_cltv_expiry_delta(144)
        .build_signed(|hash| secp.sign_ecdsa_recoverable(hash, &key))
        .unwrap();
    invoice.to_string()
}

fn submarine_pair() -> SubmarinePair {
    SubmarinePair {
        hash: "subpair".to_string(),
        limits_minimal: 1_000,
        limits_maximal: 10_000_000,
        fees_percentage_bp: 40,
        fees_miner: 200,
    }
}

fn reverse_pair() -> ReversePair {
    ReversePair {
        hash: "revpair".to_string(),
        limits_minimal: 100,
        limits_maximal: 1_000_000,
        fees_percentage_bp: 25,
        fees_miner_lockup: 100,
        fees_miner_claim: 50,
    }
}

fn testnet_engine() -> LiquidSdk {
    LiquidSdk::new(Network::Testnet, ".data".to_string(), "testpubkey".to_string())
}

/// The swapper's create response for the Send fixture, expecting the
/// payer amount locked.
fn submarine_create_blob(expected_amount_sat: u64) -> String {
    breez_liquid_sdk::blob::SubmarineCreateResponse {
        address: "tlq1qqswapperlockupaddress".to_string(),
        expected_amount_sat,
        claim_public_key: "02aabbcc".to_string(),
        timeout_block_height: 1_459_611,
        blinding_key: "99ccdd".to_string(),
        swap_tree: "{claim-leaf,refund-leaf}".to_string(),
    }
    .encode()
}

/// Runs prepare and commit of a Send payment and the lockup broadcast,
/// leaving the swap `Pending` with a recorded lockup transaction.
fn send_until_lockup(sdk: &mut LiquidSdk, preimage: &[u8]) -> String {
    let invoice = make_invoice(preimage, 10_000_000);
    let pair = submarine_pair();
    let prepared = sdk
        .prepare_send_payment(&PrepareSendRequest { invoice: invoice.clone() }, Some(&pair), 50, NOW)
        .unwrap();
    assert!(prepared.fees_sat > 0);
    let payer = 10_000 + prepared.fees_sat;
    let blob = submarine_create_blob(payer);
    sdk.send_payment(&prepared, Some(&pair), 50, NOW, "sub1", &blob, NOW as u32).unwrap();
    // The lockup pays the swapper's expected amount, read back from the
    // stored create response.
    let action = sdk.try_handle_send_swap_boltz_status(SubSwapStates::InvoiceSet, "sub1").unwrap();
    assert_eq!(action, SendSwapAction::BroadcastLockup { expected_amount_sat: payer });
    sdk.handle_send_lockup_broadcast("sub1", "lockuptx1").unwrap();
    invoice
}

/// A swap whose stored create response does not decode cannot be locked
/// up; the malformed handshake is refused at the point of use.
#[test]
fn lockup_requires_decodable_create_response() {
    let mut sdk = testnet_engine();
    let preimage: Vec<u8> = vec![21; 32];
    let invoice = make_invoice(&preimage, 10_000_000);
    let pair = submarine_pair();
    let prepared = sdk
        .prepare_send_payment(&PrepareSendRequest { invoice }, Some(&pair), 50, NOW)
        .unwrap();
    sdk.send_payment(&prepared, Some(&pair), 50, NOW, "subx", "not a blob", NOW as u32).unwrap();
    let err = sdk.try_handle_send_swap_boltz_status(SubSwapStates::InvoiceSet, "subx").unwrap_err();
    assert!(matches!(err, PaymentError::Generic { .. }));
}

/// Happy-path send: prepare quotes positive fees, the commit records
/// the swap, the cooperative claim completes it with the preimage, and
/// the payment listing shows one completed Send row.
#[test]
fn normal_submarine_swap() {
    let mut sdk = testnet_engine();
    let preimage: Vec<u8> = vec![1; 32];
    send_until_lockup(&mut sdk, &preimage);
    let action = sdk
        .try_handle_send_swap_boltz_status(SubSwapStates::TransactionClaimPending, "sub1")
        .unwrap();
    assert_eq!(action, SendSwapAction::CooperativeClaim);
    sdk.validate_send_swap_preimage("sub1", &hex_of(&preimage)).unwrap();
    let swap = sdk.persister.fetch_send_swap("sub1").unwrap();
    assert_eq!(swap.state, PaymentState::Complete);
    assert_eq!(swap.preimage, Some(hex_of(&preimage)));
    assert_eq!(swap.lockup_tx_id, Some("lockuptx1".to_string()));
    let payments = sdk.list_payments().unwrap();
    assert_eq!(payments.len(), 1);
    assert_eq!(payments[0].payment_type, PaymentType::Send);
    assert_eq!(payments[0].status, PaymentState::Complete);
    assert_eq!(payments[0].preimage, Some(hex_of(&preimage)));
    assert!(matches!(
        sdk.event_manager.event_log.last().unwrap(),
        LiquidSdkEvent::PaymentSucceed { .. }
    ));
}

/// A preimage whose hash does not match the invoice is refused, the
/// swap does not complete, and nothing may be posted back.
#[test]
fn invalid_preimage_is_rejected() {
    let mut sdk = testnet_engine();
    let preimage: Vec<u8> = vec![2; 32];
    send_until_lockup(&mut sdk, &preimage);
    let wrong: Vec<u8> = vec![3; 32];
    let err = sdk.validate_send_swap_preimage("sub1", &hex_of(&wrong)).unwrap_err();
    assert_eq!(err, PaymentError::InvalidPreimage);
    let swap = sdk.persister.fetch_send_swap("sub1").unwrap();
    assert_eq!(swap.state, PaymentState::Pending);
    assert_eq!(swap.preimage, None);
}

/// Swap expiry: the engine asks for a refund broadcast, records the
/// refund transaction, and once it confirms the swap is `Failed` with a
/// refunded event emitted.
#[test]
fn swap_expiry_refund() {
    let mut sdk = testnet_engine();
    let preimage: Vec<u8> = vec![4; 32];
    send_until_lockup(&mut sdk, &preimage);
    let action = sdk.try_handle_send_swap_boltz_status(SubSwapStates::SwapExpired, "sub1").unwrap();
    assert_eq!(action, SendSwapAction::BroadcastRefund { receiver_amount_sat: 10_000 });
    sdk.handle_send_refund_broadcast("sub1", "refundtx1").unwrap();
    // The synchronous flow surfaces the failure with the refund id.
    match sdk.refunded_send_error("sub1") {
        PaymentError::Refunded { refund_tx_id, .. } => assert_eq!(refund_tx_id, "refundtx1"),
        other => panic!("expected a refunded error, got {other:?}"),
    }
    let swap = sdk.persister.fetch_send_swap("sub1").unwrap();
    assert_eq!(swap.state, PaymentState::Pending);
    assert_eq!(swap.refund_tx_id, Some("refundtx1".to_string()));
    // The syncer observes the confirmed refund transaction.
    let payer = swap.payer_amount_sat;
    let txs = vec![
        WalletTx {
            tx_id: "lockuptx1".to_string(),
            height: Some(1000),
            timestamp: Some((NOW + 600) as u32),
            balance_sat: -(payer as i64),
        },
        WalletTx {
            tx_id: "refundtx1".to_string(),
            height: Some(1001),
            timestamp: Some((NOW + 1200) as u32),
            balance_sat: payer as i64 - 30,
        },
    ];
    sdk.sync(&txs).unwrap();
    let swap = sdk.persister.fetch_send_swap("sub1").unwrap();
    assert_eq!(swap.state, PaymentState::Failed);
    let refunded_events = |sdk: &LiquidSdk| {
        sdk.event_manager
            .event_log
            .iter()
            .filter(|e| matches!(e, LiquidSdkEvent::PaymentRefunded { .. }))
            .count()
    };
    assert_eq!(refunded_events(&sdk), 1);
    // Replaying the same chain snapshot rewrites identical values: the
    // store is unchanged and no payment event is emitted again.
    let swaps_before = sdk.persister.send_swaps.clone();
    sdk.sync(&txs).unwrap();
    assert_eq!(sdk.persister.send_swaps, swaps_before);
    assert_eq!(refunded_events(&sdk), 1);
}

/// Recovery after the swapper claimed unilaterally: the status feed
/// replays `TransactionClaimed`, the claim transaction is found in the
/// swap script's history, the preimage is scraped from its witness,
/// verified, and the swap completes.
#[test]
fn unilateral_claim_recovery() {
    let mut sdk = testnet_engine();
    let preimage: Vec<u8> = vec![5; 32];
    send_until_lockup(&mut sdk, &preimage);
    let action = sdk
        .try_handle_send_swap_boltz_status(SubSwapStates::TransactionClaimed, "sub1")
        .unwrap();
    assert_eq!(action, SendSwapAction::RecoverPreimage);
    let history = vec!["lockuptx1".to_string(), "claimtx1".to_string()];
    let claim_tx_id = LiquidSdk::find_claim_tx_in_history(&history).unwrap();
    assert_eq!(claim_tx_id, "claimtx1");
    let witness: Vec<Vec<u8>> = vec![vec![0x30, 0x45], preimage.clone(), vec![0x51]];
    let recovered = LiquidSdk::get_preimage_from_script_path_claim_spend(&witness).unwrap();
    assert_eq!(recovered, hex_of(&preimage));
    sdk.validate_send_swap_preimage("sub1", &recovered).unwrap();
    assert_eq!(sdk.persister.fetch_send_swap("sub1").unwrap().state, PaymentState::Complete);
}

/// A malformed claim history or witness is refused during recovery.
#[test]
fn recovery_rejects_malformed_history() {
    assert!(LiquidSdk::find_claim_tx_in_history(&vec!["only-lockup".to_string()]).is_err());
    assert!(LiquidSdk::find_claim_tx_in_history(&vec![
        "a".to_string(),
        "b".to_string(),
        "c".to_string(),
    ])
    .is_err());
    let short_preimage: Vec<Vec<u8>> = vec![vec![0x30], vec![1, 2, 3]];
    assert!(LiquidSdk::get_preimage_from_script_path_claim_spend(&short_preimage).is_err());
}

/// Happy-path receive: the prepared quote is accepted, the returned
/// invoice commits to the local preimage, the claim is broadcast on the
/// swapper's lockup, and the confirmed claim completes the swap and
/// grows the balance by the receiver amount.
#[test]
fn reverse_submarine_swap() {
    let mut sdk = testnet_engine();
    let pair = reverse_pair();
    let prepared = sdk
        .prepare_receive_payment(&PrepareReceiveRequest { payer_amount_sat: 1_000 }, Some(&pair))
        .unwrap();
    assert_eq!(prepared.payer_amount_sat, 1_000);
    assert_eq!(prepared.fees_sat, 153);
    let preimage: Vec<u8> = vec![9; 32];
    let invoice = make_invoice(&preimage, 1_000_000);
    let response = sdk
        .receive_payment(&prepared, Some(&pair), &hex_of(&preimage), "rev1", &invoice, "blob-rev1", NOW as u32)
        .unwrap();
    assert_eq!(response.id, "rev1");
    // The returned invoice's payment hash is the hash of the preimage.
    let parsed: lightning_invoice::Bolt11Invoice = response.invoice.parse().unwrap();
    assert_eq!(*parsed.payment_hash(), <sha256::Hash as bitcoin::hashes::Hash>::hash(&preimage));
    // The swapper locks funds; the engine starts the claim.
    let action = sdk
        .try_handle_receive_swap_boltz_status(RevSwapStates::TransactionMempool, "rev1")
        .unwrap();
    assert_eq!(action, ReceiveSwapAction::BroadcastClaim { claim_fees_sat: 50 });
    sdk.handle_receive_claim_broadcast("rev1", "claimtx9").unwrap();
    let swap = sdk.persister.fetch_receive_swap("rev1").unwrap();
    assert_eq!(swap.state, PaymentState::Pending);
    assert_eq!(swap.claim_tx_id, Some("claimtx9".to_string()));
    assert_eq!(swap.receiver_amount_sat, 847);
    // The claim confirms; the syncer completes the swap.
    let txs = vec![WalletTx {
        tx_id: "claimtx9".to_string(),
        height: Some(2000),
        timestamp: Some((NOW + 900) as u32),
        balance_sat: 847,
    }];
    sdk.sync(&txs).unwrap();
    assert_eq!(sdk.persister.fetch_receive_swap("rev1").unwrap().state, PaymentState::Complete);
    let info = sdk.get_info(GetInfoRequest { with_scan: false });
    assert_eq!(info.balance_sat, 847);
    assert_eq!(info.pending_receive_sat, 0);
    assert_eq!(info.pubkey, "testpubkey");
}

/// Replaying the same status event leaves the store and the event log
/// unchanged after the first application.
#[test]
fn status_handling_is_idempotent() {
    let mut sdk = testnet_engine();
    let pair = reverse_pair();
    let prepared = sdk
        .prepare_receive_payment(&PrepareReceiveRequest { payer_amount_sat: 1_000 }, Some(&pair))
        .unwrap();
    let preimage: Vec<u8> = vec![8; 32];
    let invoice = make_invoice(&preimage, 1_000_000);
    sdk.receive_payment(&prepared, Some(&pair), &hex_of(&preimage), "rev2", &invoice, "blob", NOW as u32)
        .unwrap();
    let first = sdk
        .try_handle_receive_swap_boltz_status(RevSwapStates::TransactionMempool, "rev2")
        .unwrap();
    assert!(matches!(first, ReceiveSwapAction::BroadcastClaim { .. }));
    sdk.handle_receive_claim_broadcast("rev2", "claimtx8").unwrap();
    let swaps_before = sdk.persister.receive_swaps.clone();
    let events_before = sdk.event_manager.event_log.len();
    // The same lockup announcement arrives again: the claim is already
    // recorded, so nothing changes.
    let replay = sdk
        .try_handle_receive_swap_boltz_status(RevSwapStates::TransactionMempool, "rev2")
        .unwrap();
    assert_eq!(replay, ReceiveSwapAction::Ignore);
    assert_eq!(sdk.persister.receive_swaps, swaps_before);
    assert_eq!(sdk.event_manager.event_log.len(), events_before);
    // A replayed invoice-set event on a locked-up Send swap is ignored.
    let send_preimage: Vec<u8> = vec![6; 32];
    send_until_lockup(&mut sdk, &send_preimage);
    let replay = sdk.try_handle_send_swap_boltz_status(SubSwapStates::InvoiceSet, "sub1").unwrap();
    assert_eq!(replay, SendSwapAction::Ignore);
}

/// Transaction-id columns are written at most once: a second broadcast
/// report cannot overwrite a recorded id.
#[test]
fn tx_ids_are_write_once() {
    let mut sdk = testnet_engine();
    let preimage: Vec<u8> = vec![7; 32];
    send_until_lockup(&mut sdk, &preimage);
    sdk.handle_send_lockup_broadcast("sub1", "other-lockup").unwrap();
    let swap = sdk.persister.fetch_send_swap("sub1").unwrap();
    assert_eq!(swap.lockup_tx_id, Some("lockuptx1".to_string()));
    sdk.handle_send_refund_broadcast("sub1", "refund-a").unwrap();
    sdk.handle_send_refund_broadcast("sub1", "refund-b").unwrap();
    let swap = sdk.persister.fetch_send_swap("sub1").unwrap();
    assert_eq!(swap.refund_tx_id, Some("refund-a".to_string()));
}

/// An amount that does not strictly exceed the fees is out of range and
/// writes nothing.
#[test]
fn amount_below_fee_floor() {
    let mut sdk = testnet_engine();
    let pair = reverse_pair();
    // The total fees on 153 sat are ceil(153 * 25bp) + 150 = 151.
    let fees_on_fees = 151;
    let err = sdk
        .prepare_receive_payment(
            &PrepareReceiveRequest { payer_amount_sat: fees_on_fees },
            Some(&pair),
        )
        .unwrap_err();
    assert_eq!(err, PaymentError::AmountOutOfRange);
    assert!(sdk.persister.receive_swaps.is_empty());
    assert!(sdk.list_payments().unwrap().is_empty());
}

/// The payment listing is ordered by non-decreasing timestamp.
#[test]
fn payments_are_ordered_by_timestamp() {
    let mut sdk = testnet_engine();
    let txs = vec![
        WalletTx { tx_id: "t3".to_string(), height: Some(3), timestamp: Some(300), balance_sat: 3 },
        WalletTx { tx_id: "t1".to_string(), height: Some(1), timestamp: Some(100), balance_sat: -1 },
        WalletTx { tx_id: "t2".to_string(), height: None, timestamp: Some(200), balance_sat: 2 },
    ];
    sdk.sync(&txs).unwrap();
    let payments = sdk.list_payments().unwrap();
    assert_eq!(payments.len(), 3);
    assert!(payments.windows(2).all(|w| w[0].timestamp <= w[1].timestamp));
    assert_eq!(payments[0].tx_id, "t1");
    assert_eq!(payments[2].tx_id, "t3");
    assert!(matches!(
        sdk.event_manager.event_log.last().unwrap(),
        LiquidSdkEvent::Synced
    ));
}

/// The balance identity: confirmed receives minus confirmed sends minus
/// pending sends.
#[test]
fn balance_identity() {
    let mut sdk = testnet_engine();
    let txs = vec![
        // A confirmed incoming transaction of 5000 sat.
        WalletTx { tx_id: "in1".to_string(), height: Some(10), timestamp: Some(100), balance_sat: 5_000 },
        // A confirmed outgoing transaction of 1200 sat.
        WalletTx { tx_id: "out1".to_string(), height: Some(11), timestamp: Some(110), balance_sat: -1_200 },
        // A pending outgoing transaction of 300 sat.
        WalletTx { tx_id: "out2".to_string(), height: None, timestamp: None, balance_sat: -300 },
        // A pending incoming transaction of 700 sat.
        WalletTx { tx_id: "in2".to_string(), height: None, timestamp: None, balance_sat: 700 },
    ];
    sdk.sync(&txs).unwrap();
    let info = sdk.get_info(GetInfoRequest { with_scan: true });
    assert_eq!(info.balance_sat, 5_000 - 1_200 - 300);
    assert_eq!(info.pending_send_sat, 300);
    assert_eq!(info.pending_receive_sat, 700);
}

/// Stale fee snapshots are rejected when committing.
#[test]
fn stale_fees_are_rejected() {
    let mut sdk = testnet_engine();
    let preimage: Vec<u8> = vec![11; 32];
    let invoice = make_invoice(&preimage, 10_000_000);
    let pair = submarine_pair();
    let mut prepared = sdk
        .prepare_send_payment(&PrepareSendRequest { invoice: invoice.clone() }, Some(&pair), 50, NOW)
        .unwrap();
    prepared.fees_sat += 1;
    let err = sdk
        .send_payment(&prepared, Some(&pair), 50, NOW, "sub9", "blob", NOW as u32)
        .unwrap_err();
    assert_eq!(err, PaymentError::InvalidOrExpiredFees);
}

/// Invoices for the wrong network or beyond their expiry are invalid.
#[test]
fn invoice_validation() {
    let sdk = testnet_engine();
    let mainnet_sdk = LiquidSdk::new(Network::Mainnet, ".data".to_string(), "pk".to_string());
    let preimage: Vec<u8> = vec![12; 32];
    let invoice = make_invoice(&preimage, 10_000_000);
    let pair = submarine_pair();
    // Testnet invoice against a mainnet wallet.
    let err = mainnet_sdk
        .prepare_send_payment(&PrepareSendRequest { invoice: invoice.clone() }, Some(&pair), 50, NOW)
        .unwrap_err();
    assert_eq!(err, PaymentError::InvalidInvoice);
    // The default expiry window is one hour.
    let err = sdk
        .prepare_send_payment(
            &PrepareSendRequest { invoice: invoice.clone() },
            Some(&pair),
            50,
            NOW + 7_200,
        )
        .unwrap_err();
    assert_eq!(err, PaymentError::InvalidInvoice);
    // Garbage is never an invoice.
    let err = sdk
        .prepare_send_payment(
            &PrepareSendRequest { invoice: "not an invoice".to_string() },
            Some(&pair),
            50,
            NOW,
        )
        .unwrap_err();
    assert_eq!(err, PaymentError::InvalidInvoice);
    // A missing quote is PairsNotFound.
    let err = sdk
        .prepare_send_payment(&PrepareSendRequest { invoice }, None, 50, NOW)
        .unwrap_err();
    assert_eq!(err, PaymentError::PairsNotFound);
}

/// A swapper invoice that does not commit to the local preimage is
/// refused and nothing is stored.
#[test]
fn receive_rejects_foreign_payment_hash() {
    let mut sdk = testnet_engine();
    let pair = reverse_pair();
    let prepared = sdk
        .prepare_receive_payment(&PrepareReceiveRequest { payer_amount_sat: 1_000 }, Some(&pair))
        .unwrap();
    let preimage: Vec<u8> = vec![13; 32];
    let other_preimage: Vec<u8> = vec![14; 32];
    let invoice = make_invoice(&other_preimage, 1_000_000);
    let err = sdk
        .receive_payment(&prepared, Some(&pair), &hex_of(&preimage), "rev3", &invoice, "blob", NOW as u32)
        .unwrap_err();
    assert_eq!(err, PaymentError::InvalidInvoice);
    assert!(sdk.persister.receive_swaps.is_empty());
}
