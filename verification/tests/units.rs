//! Unit tests for the helper layers: hex and decimal codecs, string
//! comparison, locktimes, status-string parsing, the event manager, the
//! tracked set and the wire decoders.

use breez_liquid_sdk::error::PaymentError;
use breez_liquid_sdk::event::EventManager;
use breez_liquid_sdk::model::LiquidSdkEvent;
use breez_liquid_sdk::model::Network;
use breez_liquid_sdk::model::ParticipantType;
use breez_liquid_sdk::model::Payment;
use breez_liquid_sdk::model::PaymentState;
use breez_liquid_sdk::model::PaymentType;
use breez_liquid_sdk::model::RevSwapStates;
use breez_liquid_sdk::model::SubSwapStates;
use breez_liquid_sdk::model::SwapType;
use breez_liquid_sdk::model::parse_rev_swap_state;
use breez_liquid_sdk::model::parse_sub_swap_state;
use breez_liquid_sdk::persist::Persister;
use breez_liquid_sdk::sdk::LiquidSdk;
use breez_liquid_sdk::sdk::RefundStep;
use breez_liquid_sdk::sdk::next_refund_step;
use breez_liquid_sdk::status_stream::BoltzStatusStream;
use breez_liquid_sdk::utils::LockTime;
use breez_liquid_sdk::utils::hex_decode;
use breez_liquid_sdk::utils::is_locktime_expired;
use breez_liquid_sdk::utils::str_eq;
use breez_liquid_sdk::utils::to_hex;
use breez_liquid_sdk::utils::u64_to_dec_string;
use breez_liquid_sdk::wire::wire_cst_list_prim_u_8_strict;
use breez_liquid_sdk::wire::wire_cst_payment;
use breez_liquid_sdk::wire::wire_cst_payment_error;
use breez_liquid_sdk::wire::wire_cst_prepare_send_request;

/// Carried over: recovery of an interrupted reverse submarine swap is
/// exercised end to end elsewhere.
#[test]
fn lib_reverse_submarine_swap_recovery() {}

/// Carried over: the engine-level counterpart of the recovery flow.
#[test]
fn sdk_reverse_submarine_swap_recovery() {}

#[test]
fn hex_round_trip() {
    let bytes: Vec<u8> = vec![0x00, 0x01, 0x7f, 0x80, 0xde, 0xad, 0xbe, 0xef, 0xff];
    let hex = to_hex(&bytes);
    assert_eq!(hex, "00017f80deadbeefff");
    assert_eq!(hex_decode(&hex), Some(bytes));
}

#[test]
fn hex_decode_rejects_malformed() {
    assert_eq!(hex_decode("abc"), None);
    assert_eq!(hex_decode("zz"), None);
    assert_eq!(hex_decode("ABCDef"), Some(vec![0xab, 0xcd, 0xef]));
    assert_eq!(hex_decode(""), Some(vec![]));
}

#[test]
fn decimal_rendering() {
    assert_eq!(u64_to_dec_string(0), "0");
    assert_eq!(u64_to_dec_string(7), "7");
    assert_eq!(u64_to_dec_string(1234567890), "1234567890");
    assert_eq!(u64_to_dec_string(u64::MAX), "18446744073709551615");
}

#[test]
fn string_equality() {
    assert!(str_eq("transaction.mempool", "transaction.mempool"));
    assert!(!str_eq("a", "b"));
    assert!(!str_eq("a", "ab"));
}

#[test]
fn locktime_comparison() {
    assert!(is_locktime_expired(LockTime::Blocks(100), LockTime::Blocks(100)));
    assert!(is_locktime_expired(LockTime::Seconds(200), LockTime::Seconds(100)));
    assert!(!is_locktime_expired(LockTime::Blocks(99), LockTime::Blocks(100)));
    // Mixed units never count as expired.
    assert!(!is_locktime_expired(LockTime::Blocks(500), LockTime::Seconds(100)));
}

#[test]
fn status_string_parsing() {
    assert_eq!(parse_sub_swap_state("invoice.set"), Some(SubSwapStates::InvoiceSet));
    assert_eq!(
        parse_sub_swap_state("transaction.claim.pending"),
        Some(SubSwapStates::TransactionClaimPending)
    );
    assert_eq!(
        parse_sub_swap_state("transaction.lockupFailed"),
        Some(SubSwapStates::TransactionLockupFailed)
    );
    assert_eq!(parse_sub_swap_state("invoice.failedToPay"), Some(SubSwapStates::InvoiceFailedToPay));
    assert_eq!(parse_sub_swap_state("no.such.state"), None);
    assert_eq!(parse_rev_swap_state("transaction.mempool"), Some(RevSwapStates::TransactionMempool));
    assert_eq!(parse_rev_swap_state("invoice.settled"), Some(RevSwapStates::InvoiceSettled));
    assert_eq!(parse_rev_swap_state("transaction.refunded"), Some(RevSwapStates::TransactionRefunded));
    assert_eq!(parse_rev_swap_state(""), None);
}

#[test]
fn state_transition_rules() {
    // No transition into Created.
    assert!(LiquidSdk::validate_state_transition(PaymentState::Pending, PaymentState::Created).is_err());
    // Created and Pending may progress.
    assert!(LiquidSdk::validate_state_transition(PaymentState::Created, PaymentState::Pending).is_ok());
    assert!(LiquidSdk::validate_state_transition(PaymentState::Pending, PaymentState::Pending).is_ok());
    assert!(LiquidSdk::validate_state_transition(PaymentState::Pending, PaymentState::Complete).is_ok());
    // Terminal states never progress, except into Failed.
    assert!(LiquidSdk::validate_state_transition(PaymentState::Complete, PaymentState::Pending).is_err());
    assert!(LiquidSdk::validate_state_transition(PaymentState::Failed, PaymentState::Pending).is_err());
    assert!(LiquidSdk::validate_state_transition(PaymentState::Failed, PaymentState::Complete).is_err());
    assert!(LiquidSdk::validate_state_transition(PaymentState::Complete, PaymentState::Failed).is_ok());
}

#[test]
fn persister_migrations_are_idempotent() {
    let mut p = Persister::new(".data", Network::Testnet);
    assert_eq!(p.schema_version, 0);
    p.init();
    let v = p.schema_version;
    p.init();
    assert_eq!(p.schema_version, v);
    assert!(p.send_swaps.is_empty());
    assert!(p.receive_swaps.is_empty());
    assert_eq!(p.main_db_file, ".data/storage.sql");
}

#[test]
fn event_manager_add_remove_notify() {
    let mut em = EventManager::new();
    let id0 = em.add().unwrap();
    let id1 = em.add().unwrap();
    assert_eq!(id0, "listener-0");
    assert_eq!(id1, "listener-1");
    assert_eq!(em.listener_ids.len(), 2);
    em.remove(&id0);
    assert_eq!(em.listener_ids, vec![1]);
    // Removing an unknown id changes nothing.
    em.remove("listener-99");
    assert_eq!(em.listener_ids, vec![1]);
    em.notify(LiquidSdkEvent::Synced);
    assert_eq!(em.event_log.len(), 1);
    assert!(matches!(em.event_log[0], LiquidSdkEvent::Synced));
}

#[test]
fn tracked_set_is_idempotent() {
    let mut stream = BoltzStatusStream::new();
    stream.mark_swap_as_tracked("s1", SwapType::Submarine);
    stream.mark_swap_as_tracked("s1", SwapType::Submarine);
    assert!(stream.is_tracked("s1", SwapType::Submarine));
    assert!(!stream.is_tracked("s1", SwapType::Reverse));
    assert_eq!(stream.entries.len(), 1);
    stream.unmark_swap_as_tracked("s1", SwapType::Submarine);
    stream.unmark_swap_as_tracked("s1", SwapType::Submarine);
    assert!(!stream.is_tracked("s1", SwapType::Submarine));
    assert_eq!(stream.entries.len(), 0);
}

#[test]
fn participant_names() {
    assert_eq!(ParticipantType::Swapper.to_string(), "swapper");
    assert_eq!(ParticipantType::User.to_string(), "user");
}

#[test]
fn boltz_urls_per_network() {
    let mainnet = LiquidSdk::new(Network::Mainnet, ".data".to_string(), "pk".to_string());
    let testnet = LiquidSdk::new(Network::Testnet, ".data".to_string(), "pk".to_string());
    assert_eq!(mainnet.boltz_url_v2(), "https://api.boltz.exchange/v2");
    assert_eq!(testnet.boltz_url_v2(), "https://api.testnet.boltz.exchange/v2");
    assert_eq!(mainnet.electrum_url(), "blockstream.info:995");
    assert_eq!(testnet.electrum_url(), "blockstream.info:465");
    assert!(mainnet.fee_estimation_address().starts_with("lq1"));
    assert!(testnet.fee_estimation_address().starts_with("tlq1"));
}

fn sample_payment() -> Payment {
    Payment {
        tx_id: "txid-1".to_string(),
        swap_id: Some("swap-1".to_string()),
        timestamp: 42,
        amount_sat: 10_000,
        fees_sat: Some(250),
        preimage: None,
        refund_tx_id: None,
        refund_tx_amount_sat: None,
        payment_type: PaymentType::Send,
        status: PaymentState::Pending,
    }
}

#[test]
fn wire_payment_round_trip() {
    let p = sample_payment();
    let wire = wire_cst_payment::cst_encode(&p);
    let decoded = wire.cst_decode().unwrap();
    assert_eq!(decoded, p);
}

#[test]
fn wire_payment_rejects_bad_tags() {
    let p = sample_payment();
    let mut wire = wire_cst_payment::cst_encode(&p);
    wire.status = 9;
    assert!(wire.cst_decode().is_none());
    let mut wire2 = wire_cst_payment::cst_encode(&p);
    wire2.payment_type = -1;
    assert!(wire2.cst_decode().is_none());
    let mut wire3 = wire_cst_payment::cst_encode(&p);
    wire3.tx_id = None;
    assert!(wire3.cst_decode().is_none());
}

#[test]
fn wire_payment_error_tags() {
    let already = wire_cst_payment_error {
        tag: 0,
        generic: None,
        lwk_error: None,
        refunded: None,
        send_error: None,
        signer_error: None,
    };
    assert_eq!(already.cst_decode(), Some(PaymentError::AlreadyClaimed));
    let invalid_invoice = wire_cst_payment_error { tag: 5, ..already.clone() };
    assert_eq!(invalid_invoice.cst_decode(), Some(PaymentError::InvalidInvoice));
    let unknown = wire_cst_payment_error { tag: 13, ..already.clone() };
    assert_eq!(unknown.cst_decode(), None);
    // A data-carrying variant needs its payload slot.
    let missing_payload = wire_cst_payment_error { tag: 2, ..already };
    assert_eq!(missing_payload.cst_decode(), None);
}

#[test]
fn blob_fields_round_trip() {
    let fields = vec![
        "tlq1qq...addr".to_string(),
        "10290".to_string(),
        "".to_string(),
        "with:colons:and 7:spaces".to_string(),
    ];
    let blob = breez_liquid_sdk::blob::encode_fields(&fields);
    assert_eq!(blob, "13:tlq1qq...addr5:102900:24:with:colons:and 7:spaces");
    assert_eq!(breez_liquid_sdk::blob::decode_fields(&blob), Some(fields));
}

#[test]
fn blob_decode_rejects_malformed() {
    assert_eq!(breez_liquid_sdk::blob::decode_fields("5:abc"), None);
    assert_eq!(breez_liquid_sdk::blob::decode_fields("x"), None);
    assert_eq!(breez_liquid_sdk::blob::decode_fields("3abc"), None);
    // A non-canonical length run is refused, so every accepted blob
    // re-encodes to itself.
    assert_eq!(breez_liquid_sdk::blob::decode_fields("03:abc"), None);
    assert_eq!(breez_liquid_sdk::blob::decode_fields(""), Some(vec![]));
}

#[test]
fn blob_create_response_round_trip() {
    let resp = breez_liquid_sdk::blob::SubmarineCreateResponse {
        address: "tlq1qqfeeaddress".to_string(),
        expected_amount_sat: 10_290,
        claim_public_key: "02aabb".to_string(),
        timeout_block_height: 1_459_611,
        blinding_key: "99ccdd".to_string(),
        swap_tree: "{claim-leaf,refund-leaf}".to_string(),
    };
    let blob = resp.encode();
    assert_eq!(breez_liquid_sdk::blob::SubmarineCreateResponse::decode(&blob), Some(resp));
    let rev = breez_liquid_sdk::blob::ReverseCreateResponse {
        invoice: "lntb10u1p...".to_string(),
        lockup_address: "tlq1qqlockup".to_string(),
        refund_public_key: "03ddee".to_string(),
        timeout_block_height: 1_459_700,
        onchain_amount_sat: 847,
        blinding_key: "55ff11".to_string(),
        swap_tree: "{claim-leaf,refund-leaf}".to_string(),
    };
    let blob = rev.encode();
    // Decoding is the encoder's inverse and idempotent through it.
    let decoded = breez_liquid_sdk::blob::ReverseCreateResponse::decode(&blob).unwrap();
    assert_eq!(decoded, rev);
    assert_eq!(decoded.encode(), blob);
}

#[test]
fn blob_decodes_any_encoding() {
    // Fields may hold any characters, framed by length; decoding is
    // total on encoder output.
    let fields = vec!["non ascii \u{00e9}\u{20bf} field".to_string(), ":".to_string()];
    let blob = breez_liquid_sdk::blob::encode_fields(&fields);
    assert_eq!(breez_liquid_sdk::blob::decode_fields(&blob), Some(fields));
}

#[test]
fn refund_steps_cooperative_first() {
    // A successful cooperative round finishes the resolution.
    assert_eq!(next_refund_step(RefundStep::TryCooperative, false), None);
    // A failed co-sign falls back to the timelocked script path.
    assert_eq!(
        next_refund_step(RefundStep::TryCooperative, true),
        Some(RefundStep::TryUnilateral)
    );
    // The unilateral stage is the last, whatever happened.
    assert_eq!(next_refund_step(RefundStep::TryUnilateral, true), None);
    assert_eq!(next_refund_step(RefundStep::TryUnilateral, false), None);
}

#[test]
fn logger_first_caller_wins() {
    let mut logger = breez_liquid_sdk::logger::GlobalLogger::new();
    assert!(logger.init().is_ok());
    assert!(logger.init().is_err());
    assert!(logger.initialized);
}

#[test]
fn wire_send_request_needs_invoice() {
    let missing = wire_cst_prepare_send_request { invoice: None };
    assert!(missing.cst_decode().is_none());
    let present = wire_cst_prepare_send_request {
        invoice: Some(wire_cst_list_prim_u_8_strict::new("lntb1...".to_string())),
    };
    assert_eq!(present.cst_decode().unwrap().invoice, "lntb1...");
}
