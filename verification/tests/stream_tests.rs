//! Tests of the streamer decisions: frame disposition, the zombie timer,
//! subscription messages and log-notification handling.

use base64::Engine;
use base64::engine::general_purpose::STANDARD;

use ingestor::codec::frame_event;
use ingestor::events::BoEvent;
use ingestor::events::PositionMode;
use ingestor::events::PositionOpened;
use ingestor::events::Side;
use ingestor::stream::DELAY_RECONNECT_SECS;
use ingestor::stream::FrameDisposition;
use ingestor::stream::LogsNotice;
use ingestor::stream::PING_INTERVAL_SECS;
use ingestor::stream::RequestIdCounter;
use ingestor::stream::WsFrame;
use ingestor::stream::WsOpcode;
use ingestor::stream::ZOMBIE_INTERVAL_SECS;
use ingestor::stream::ZombieTimer;
use ingestor::stream::dispose_frame;
use ingestor::stream::eth_subscribe_message;
use ingestor::stream::handle_response_log;
use ingestor::stream::is_zero_signature;
use ingestor::stream::logs_subscribe_message;
use ingestor::stream::program_id;
use ingestor::stream::ws_default_port;

fn opened_event() -> BoEvent {
    BoEvent::OpenPosition(PositionOpened {
        id: vec![1u8; 32],
        feed_id: vec![2u8; 32],
        user: vec![3u8; 32],
        side: Side::Call,
        amount: 10,
        premium: 0.5f64.to_bits(),
        premium_amount: 5,
        boundary_price: 1.0f64.to_bits(),
        spot_price: 2.0f64.to_bits(),
        multiplier: 3.0f64.to_bits(),
        start_time: 1,
        end_time: 2,
        mode: PositionMode::Single,
        old_sigma2: 0.1f64.to_bits(),
        new_sigma2: 0.2f64.to_bits(),
    })
}

fn event_line() -> String {
    format!("Program data: {}", STANDARD.encode(frame_event(&opened_event())))
}

#[test]
fn ping_frame_is_answered_with_echoing_pong_and_never_resets_the_timer() {
    // An incoming ping with payload "hi" is replied to by a pong; only text
    // frames that yield a decoded payload reset the zombie timer.
    let d = dispose_frame(WsFrame { opcode: WsOpcode::Ping, payload: b"hi".to_vec() });
    assert_eq!(d, FrameDisposition::ReplyPong(b"hi".to_vec()));
    let mut timer = ZombieTimer::new();
    timer.advance(100);
    // A ping is not a data-bearing frame: nothing was extracted.
    timer.observe_extraction(false);
    timer.advance(200);
    assert!(timer.expired());
}

#[test]
fn frame_dispositions_follow_the_opcode() {
    let d = dispose_frame(WsFrame { opcode: WsOpcode::Text, payload: b"{}".to_vec() });
    assert_eq!(d, FrameDisposition::TryDecode(b"{}".to_vec()));
    let d = dispose_frame(WsFrame { opcode: WsOpcode::Close, payload: Vec::new() });
    assert_eq!(d, FrameDisposition::Disconnect);
    let d = dispose_frame(WsFrame { opcode: WsOpcode::Binary, payload: vec![1] });
    assert_eq!(d, FrameDisposition::Ignore);
    let d = dispose_frame(WsFrame { opcode: WsOpcode::Pong, payload: Vec::new() });
    assert_eq!(d, FrameDisposition::Ignore);
    let d = dispose_frame(WsFrame { opcode: WsOpcode::Continuation, payload: Vec::new() });
    assert_eq!(d, FrameDisposition::Ignore);
}

#[test]
fn zombie_timer_expires_after_the_idle_interval() {
    let mut timer = ZombieTimer::new();
    timer.advance(ZOMBIE_INTERVAL_SECS - 1);
    assert!(!timer.expired());
    timer.advance(1);
    assert!(timer.expired());
    // A decoded payload resets the clock.
    timer.observe_extraction(true);
    assert!(!timer.expired());
    timer.advance(u64::MAX);
    assert!(timer.expired());
}

#[test]
fn intervals_match_the_design() {
    assert_eq!(PING_INTERVAL_SECS, 30);
    assert_eq!(ZOMBIE_INTERVAL_SECS, 300);
    assert_eq!(DELAY_RECONNECT_SECS, 3);
}

#[test]
fn default_ports_follow_the_scheme() {
    assert_eq!(ws_default_port(true), 443);
    assert_eq!(ws_default_port(false), 80);
}

#[test]
fn request_ids_increase_and_wrap() {
    let mut ids = RequestIdCounter::new();
    assert_eq!(ids.fresh(), 1);
    assert_eq!(ids.fresh(), 2);
    assert_eq!(ids.fresh(), 3);
}

#[test]
fn subscription_messages_are_exact() {
    assert_eq!(
        logs_subscribe_message(7),
        format!(
            "{{\"id\":7,\"jsonrpc\":\"2.0\",\"method\":\"logsSubscribe\",\"params\":[{{\"mentions\":[\"{}\"]}},{{\"commitment\":\"confirmed\"}}]}}",
            program_id()
        )
    );
    assert_eq!(
        eth_subscribe_message(12, "{\"address\":\"0xabc\"}"),
        "{\"id\":12,\"jsonrpc\":\"2.0\",\"method\":\"eth_subscribe\",\"params\":[\"logs\",{\"address\":\"0xabc\"}]}"
    );
}

#[test]
fn failed_transaction_is_skipped() {
    // A response whose `err` is set never reaches the sink.
    let notice = LogsNotice {
        signature: "Sig1".to_string(),
        err: Some("{\"InsufficientFundsForRent\":{\"account_index\":3}}".to_string()),
        logs: vec![event_line()],
    };
    assert_eq!(handle_response_log(notice), None);
}

#[test]
fn zero_signature_notification_is_skipped() {
    let sentinel = "1".repeat(64);
    assert!(is_zero_signature(&sentinel));
    assert!(!is_zero_signature(&"Sig1".to_string()));
    let notice = LogsNotice { signature: sentinel, err: None, logs: vec![event_line()] };
    assert_eq!(handle_response_log(notice), None);
}

#[test]
fn eventless_logs_are_skipped() {
    let notice = LogsNotice {
        signature: "Sig1".to_string(),
        err: None,
        logs: vec!["Program log: hello".to_string()],
    };
    assert_eq!(handle_response_log(notice), None);
}

#[test]
fn successful_notification_reaches_the_sink_with_its_events() {
    let notice = LogsNotice {
        signature: "Sig1".to_string(),
        err: None,
        logs: vec!["Program log: hello".to_string(), event_line()],
    };
    let (sig, events) = handle_response_log(notice).expect("should reach the sink");
    assert_eq!(sig, "Sig1");
    assert_eq!(events, vec![opened_event()]);
}

#[test]
fn processing_the_same_response_twice_yields_the_same_result() {
    let make = || LogsNotice {
        signature: "Sig1".to_string(),
        err: None,
        logs: vec![event_line()],
    };
    assert_eq!(handle_response_log(make()), handle_response_log(make()));
}
