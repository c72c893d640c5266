//! Tests of the log codec: framing, discriminators, field decoding, and the
//! per-line failure rules.

use base64::Engine;
use base64::engine::general_purpose::STANDARD;
use sha2::Digest;

use ingestor::codec::DISCRIMINATOR_SIZE;
use ingestor::codec::decode_line;
use ingestor::codec::discriminator_of;
use ingestor::codec::encode_event_line;
use ingestor::codec::encode_settled;
use ingestor::codec::frame_event;
use ingestor::codec::opened_discriminator;
use ingestor::codec::parse_event;
use ingestor::codec::parse_opened;
use ingestor::codec::parse_settled;
use ingestor::codec::settled_discriminator;
use ingestor::events::BoEvent;
use ingestor::events::PositionMode;
use ingestor::events::PositionOpened;
use ingestor::events::PositionResult;
use ingestor::events::PositionSettled;
use ingestor::events::Side;

fn sample_opened() -> PositionOpened {
    PositionOpened {
        id: vec![1u8; 32],
        feed_id: vec![2u8; 32],
        user: vec![3u8; 32],
        side: Side::Put,
        amount: 5_000_000,
        premium: 0.25f64.to_bits(),
        premium_amount: 1_250_000,
        boundary_price: 64000.5f64.to_bits(),
        spot_price: 63901.25f64.to_bits(),
        multiplier: 1.75f64.to_bits(),
        start_time: 1_700_000_000,
        end_time: 1_700_003_600,
        mode: PositionMode::Batch,
        old_sigma2: 0.04f64.to_bits(),
        new_sigma2: 0.05f64.to_bits(),
    }
}

fn sample_settled(final_price: Option<u64>) -> PositionSettled {
    PositionSettled {
        id: vec![9u8; 32],
        user: vec![7u8; 32],
        side: Side::Call,
        boundary_price: 100.0f64.to_bits(),
        spot_price: 101.5f64.to_bits(),
        multiplier: 2.0f64.to_bits(),
        final_price,
        result: PositionResult::Won,
        payout: 42,
        premium: 21,
    }
}

/// The 15-field little-endian body of `sample_opened`, written out by hand
/// so the test does not trust the library's encoder.
fn sample_opened_bytes() -> Vec<u8> {
    let e = sample_opened();
    let mut b = Vec::new();
    b.extend_from_slice(&e.id);
    b.extend_from_slice(&e.feed_id);
    b.extend_from_slice(&e.user);
    b.push(1); // Put
    b.extend_from_slice(&e.amount.to_le_bytes());
    b.extend_from_slice(&e.premium.to_le_bytes());
    b.extend_from_slice(&e.premium_amount.to_le_bytes());
    b.extend_from_slice(&e.boundary_price.to_le_bytes());
    b.extend_from_slice(&e.spot_price.to_le_bytes());
    b.extend_from_slice(&e.multiplier.to_le_bytes());
    b.extend_from_slice(&e.start_time.to_le_bytes());
    b.extend_from_slice(&e.end_time.to_le_bytes());
    b.push(1); // Batch
    b.extend_from_slice(&e.old_sigma2.to_le_bytes());
    b.extend_from_slice(&e.new_sigma2.to_le_bytes());
    b
}

fn opened_line() -> String {
    let mut payload = Vec::new();
    payload.extend_from_slice(&sha2::Sha256::digest(b"event:PositionOpened")[..8]);
    payload.extend_from_slice(&sample_opened_bytes());
    format!("Program data: {}", STANDARD.encode(&payload))
}

#[test]
fn discriminators_match_sha256_derivation() {
    let opened = sha2::Sha256::digest(b"event:PositionOpened");
    let settled = sha2::Sha256::digest(b"event:PositionSettled");
    assert_eq!(opened_discriminator(), opened[..8].to_vec());
    assert_eq!(settled_discriminator(), settled[..8].to_vec());
    assert_eq!(opened_discriminator(), vec![237, 175, 243, 230, 147, 117, 101, 121]);
    assert_eq!(settled_discriminator(), vec![75, 100, 92, 189, 245, 116, 252, 221]);
}

#[test]
fn discriminator_derivation_is_first_8_of_sha256() {
    assert_eq!(discriminator_of("PositionOpened"), opened_discriminator());
    assert_eq!(discriminator_of("PositionSettled"), settled_discriminator());
    let other = discriminator_of("SomethingElse");
    assert_eq!(other.len(), DISCRIMINATOR_SIZE);
    assert_eq!(other, sha2::Sha256::digest(b"event:SomethingElse")[..8].to_vec());
}

#[test]
fn opened_event_decodes_with_all_fields() {
    let line = opened_line();
    let events = BoEvent::from_logs(&vec![line]);
    assert_eq!(events.len(), 1);
    match &events[0] {
        BoEvent::OpenPosition(e) => assert_eq!(*e, sample_opened()),
        other => panic!("wrong variant: {:?}", other),
    }
}

#[test]
fn decode_line_matches_from_logs() {
    let line = opened_line();
    let decoded = decode_line(&line).expect("line should decode");
    assert_eq!(decoded, BoEvent::OpenPosition(sample_opened()));
}

#[test]
fn extraneous_lines_do_not_affect_output() {
    let line = opened_line();
    let logs = vec![
        "Program log: Instruction: OpenPosition".to_string(),
        line.clone(),
        "Program consumed 12345 of 200000 compute units".to_string(),
        "Program data:".to_string(),
        "program data: not the exact prefix".to_string(),
    ];
    let events = BoEvent::from_logs(&logs);
    assert_eq!(events, BoEvent::from_logs(&vec![line]));
    assert_eq!(events.len(), 1);
}

#[test]
fn settled_event_round_trips_with_final_price() {
    let event = BoEvent::SettlePosition(sample_settled(Some(100.75f64.to_bits())));
    let line = format!("Program data: {}", STANDARD.encode(frame_event(&event)));
    let events = BoEvent::from_logs(&vec![line]);
    assert_eq!(events, vec![event]);
}

#[test]
fn settled_event_round_trips_without_final_price() {
    let event = BoEvent::SettlePosition(sample_settled(None));
    let line = format!("Program data: {}", STANDARD.encode(frame_event(&event)));
    let events = BoEvent::from_logs(&vec![line]);
    assert_eq!(events, vec![event]);
}

#[test]
fn bad_base64_is_skipped() {
    let logs = vec!["Program data: !!!not-base64!!!".to_string(), opened_line()];
    let events = BoEvent::from_logs(&logs);
    assert_eq!(events.len(), 1);
}

#[test]
fn unknown_discriminator_is_skipped() {
    let mut payload = vec![0u8; 8];
    payload.extend_from_slice(&sample_opened_bytes());
    let line = format!("Program data: {}", STANDARD.encode(&payload));
    assert_eq!(BoEvent::from_logs(&vec![line]).len(), 0);
}

#[test]
fn truncated_body_is_skipped() {
    let mut payload = Vec::new();
    payload.extend_from_slice(&opened_discriminator());
    payload.extend_from_slice(&sample_opened_bytes()[..100]);
    let line = format!("Program data: {}", STANDARD.encode(&payload));
    assert_eq!(BoEvent::from_logs(&vec![line]).len(), 0);
}

#[test]
fn trailing_byte_is_rejected() {
    let mut body = sample_opened_bytes();
    body.push(0);
    assert!(parse_opened(&body).is_none());
}

#[test]
fn short_payload_is_skipped() {
    let line = format!("Program data: {}", STANDARD.encode([1u8, 2, 3]));
    assert_eq!(BoEvent::from_logs(&vec![line]).len(), 0);
}

#[test]
fn invalid_enum_tag_is_rejected() {
    let mut body = sample_opened_bytes();
    body[96] = 2;
    assert!(parse_opened(&body).is_none());
    let good = encode_settled(&sample_settled(None));
    let mut bad = good.clone();
    bad[90] = 4;
    assert!(parse_settled(&good).is_some());
    assert!(parse_settled(&bad).is_none());
}

#[test]
fn encode_event_line_matches_manual_framing() {
    let event = BoEvent::OpenPosition(sample_opened());
    let line = encode_event_line(&event);
    assert_eq!(
        line,
        format!("Program data: {}", STANDARD.encode(frame_event(&event)))
    );
    assert_eq!(BoEvent::from_logs(&vec![line]), vec![event]);
}

#[test]
fn parse_event_requires_discriminator() {
    assert!(parse_event(&[1, 2, 3]).is_none());
    let framed = frame_event(&BoEvent::OpenPosition(sample_opened()));
    assert!(parse_event(&framed).is_some());
}
