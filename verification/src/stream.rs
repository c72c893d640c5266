//! Decisions of the resilient WebSocket streamers.
//!
//! A streamer owns three sources in one cooperative loop: the frame reader,
//! a ping ticker and a zombie ticker that declares the connection dead after
//! a long silence.  The loop's decisions are verified here: how each frame
//! opcode is disposed of, when the zombie timer resets, what the
//! subscription messages say, and which log notifications reach the sink.
//! The socket, TLS session and JSON envelope decoding are unverified I/O
//! around these functions.

use vstd::prelude::*;

use vstd::math::min;

use crate::codec::spec_events_of_logs;
use crate::events::BoEvent;
use crate::text::dec_seq;
use crate::text::push_u64_decimal;

verus! {

/// Seconds between unsolicited pings that keep the connection alive.
pub const PING_INTERVAL_SECS: u64 = 30;

/// Seconds of silence after which the connection is declared a zombie.
pub const ZOMBIE_INTERVAL_SECS: u64 = 300;

/// Seconds to wait before re-running handshake and subscription.
pub const DELAY_RECONNECT_SECS: u64 = 3;

/// Base58 address of the watched program.
pub fn program_id() -> (s: &'static str)
    ensures
        s@ == "HF1uuMHBmtaCYqhFx2wCFYhkAim8uLaxpMUeWmeTXtD9"@,
{
    "HF1uuMHBmtaCYqhFx2wCFYhkAim8uLaxpMUeWmeTXtD9"
}

/// The TCP port a WebSocket URI without an explicit port uses.
pub fn ws_default_port(secure: bool) -> (port: u16)
    ensures
        port == if secure {
            443u16
        } else {
            80u16
        },
{
    if secure {
        443
    } else {
        80
    }
}

/// The opcode of a reassembled WebSocket frame.
#[derive(Debug, Clone, Copy, PartialEq, Eq, Structural)]
pub enum WsOpcode {
    Continuation,
    Text,
    Binary,
    Ping,
    Pong,
    Close,
}

/// A reassembled WebSocket frame: opcode and payload bytes.
#[derive(Debug, PartialEq, Eq)]
pub struct WsFrame {
    pub opcode: WsOpcode,
    pub payload: Vec<u8>,
}

/// What the streamer loop does with one frame.
#[derive(Debug, PartialEq, Eq)]
pub enum FrameDisposition {
    /// A text frame: attempt a JSON decode of the subscription envelope.
    TryDecode(Vec<u8>),
    /// A ping: reply with a pong echoing the same payload.
    ReplyPong(Vec<u8>),
    /// A close frame: report the connection closed so the driver reconnects.
    Disconnect,
    /// Anything else is dropped.
    Ignore,
}

/// Disposes of one frame.  Only text frames can carry data: every other
/// opcode is answered or dropped without touching the zombie timer.
pub fn dispose_frame(frame: WsFrame) -> (d: FrameDisposition)
    ensures
        d is TryDecode <==> frame.opcode is Text,
        frame.opcode is Text ==> (d matches FrameDisposition::TryDecode(p) && p@
            == frame.payload@),
        frame.opcode is Ping ==> (d matches FrameDisposition::ReplyPong(p) && p@
            == frame.payload@),
        frame.opcode is Close ==> d is Disconnect,
        frame.opcode is Continuation || frame.opcode is Binary || frame.opcode is Pong ==> d
            is Ignore,
{
    match frame.opcode {
        WsOpcode::Text => FrameDisposition::TryDecode(frame.payload),
        WsOpcode::Ping => FrameDisposition::ReplyPong(frame.payload),
        WsOpcode::Close => FrameDisposition::Disconnect,
        _ => FrameDisposition::Ignore,
    }
}

/// Tracks the seconds since the last data-bearing frame was extracted.
pub struct ZombieTimer {
    idle_secs: u64,
}

impl ZombieTimer {
    /// Seconds of silence accumulated so far.
    pub closed spec fn idle(self) -> u64 {
        self.idle_secs
    }

    /// A fresh connection starts with no silence on the clock.
    pub fn new() -> (t: ZombieTimer)
        ensures
            t.idle() == 0,
    {
        ZombieTimer { idle_secs: 0 }
    }

    /// Lets time pass, saturating rather than wrapping.
    pub fn advance(&mut self, secs: u64)
        ensures
            final(self).idle() as int == min(
                old(self).idle() as int + secs as int,
                u64::MAX as int,
            ),
    {
        if self.idle_secs > u64::MAX - secs {
            self.idle_secs = u64::MAX;
        } else {
            self.idle_secs = self.idle_secs + secs;
        }
    }

    /// Notes the outcome of one frame: the timer resets exactly when a
    /// payload was extracted, so pings and undecodable text never keep a
    /// dead subscription alive.
    pub fn observe_extraction(&mut self, extracted: bool)
        ensures
            extracted ==> final(self).idle() == 0,
            !extracted ==> final(self).idle() == old(self).idle(),
    {
        if extracted {
            self.idle_secs = 0;
        }
    }

    /// Whether the silence has outlived the zombie interval, so the loop
    /// must return and reconnect.
    pub fn expired(&self) -> (r: bool)
        ensures
            r == (self.idle() >= ZOMBIE_INTERVAL_SECS),
    {
        self.idle_secs >= ZOMBIE_INTERVAL_SECS
    }
}

/// Labels outgoing subscription requests with process-unique ids.
pub struct RequestIdCounter {
    next: u64,
}

impl RequestIdCounter {
    /// The id the next request will carry.
    pub closed spec fn next_id(self) -> u64 {
        self.next
    }

    /// Ids start at one.
    pub fn new() -> (c: RequestIdCounter)
        ensures
            c.next_id() == 1,
    {
        RequestIdCounter { next: 1 }
    }

    /// Takes the next id; the counter wraps rather than repeating early.
    pub fn fresh(&mut self) -> (id: u64)
        ensures
            id == old(self).next_id(),
            final(self).next_id() == if old(self).next_id() == u64::MAX {
                0u64
            } else {
                (old(self).next_id() + 1) as u64
            },
    {
        let id = self.next;
        self.next = if self.next == u64::MAX {
            0
        } else {
            self.next + 1
        };
        id
    }
}

/// The JSON-RPC `logsSubscribe` request of the chain-B streamer: mentions
/// filter on the watched program, `confirmed` commitment.
pub open spec fn spec_logs_subscribe_message(id: u64) -> Seq<char> {
    "{\"id\":"@ + dec_seq(id as nat)
        + ",\"jsonrpc\":\"2.0\",\"method\":\"logsSubscribe\",\"params\":[{\"mentions\":[\"HF1uuMHBmtaCYqhFx2wCFYhkAim8uLaxpMUeWmeTXtD9\"]},{\"commitment\":\"confirmed\"}]}"@
}

/// Builds the `logsSubscribe` request with the given id.
pub fn logs_subscribe_message(id: u64) -> (msg: String)
    ensures
        msg@ == spec_logs_subscribe_message(id),
{
    let mut msg = "{\"id\":".to_owned();
    push_u64_decimal(&mut msg, id);
    msg.append(
        ",\"jsonrpc\":\"2.0\",\"method\":\"logsSubscribe\",\"params\":[{\"mentions\":[\"HF1uuMHBmtaCYqhFx2wCFYhkAim8uLaxpMUeWmeTXtD9\"]},{\"commitment\":\"confirmed\"}]}",
    );
    proof {
        assert(msg@ =~= spec_logs_subscribe_message(id));
    }
    msg
}

/// The JSON-RPC `eth_subscribe` request of the EVM streamer, around a
/// caller-provided serialized filter.
pub open spec fn spec_eth_subscribe_message(id: u64, filter_json: Seq<char>) -> Seq<char> {
    "{\"id\":"@ + dec_seq(id as nat)
        + ",\"jsonrpc\":\"2.0\",\"method\":\"eth_subscribe\",\"params\":[\"logs\","@ + filter_json
        + "]}"@
}

/// Builds the `eth_subscribe` request with the given id and filter.
pub fn eth_subscribe_message(id: u64, filter_json: &str) -> (msg: String)
    ensures
        msg@ == spec_eth_subscribe_message(id, filter_json@),
{
    let mut msg = "{\"id\":".to_owned();
    push_u64_decimal(&mut msg, id);
    msg.append(",\"jsonrpc\":\"2.0\",\"method\":\"eth_subscribe\",\"params\":[\"logs\",");
    msg.append(filter_json);
    msg.append("]}");
    proof {
        assert(msg@ =~= spec_eth_subscribe_message(id, filter_json@));
    }
    msg
}

/// A decoded `logsSubscribe` notification: the transaction's signature, its
/// error if it failed, and its log lines.
#[derive(Debug, PartialEq, Eq)]
pub struct LogsNotice {
    pub signature: String,
    pub err: Option<String>,
    pub logs: Vec<String>,
}

/// The all-ones text of the zero signature, which marks the subscription
/// confirmation notification rather than a transaction.
pub open spec fn zero_signature() -> Seq<char> {
    Seq::new(64, |i: int| '1')
}

/// Whether a signature string is the zero-signature sentinel.
pub fn is_zero_signature(sig: &String) -> (r: bool)
    ensures
        r == (sig@ == zero_signature()),
{
    let s = sig.as_str();
    let n = s.unicode_len();
    if n != 64 {
        proof {
            assert(sig@ != zero_signature());
        }
        return false;
    }
    let mut i: usize = 0;
    while i < 64
        invariant
            0 <= i <= 64,
            n == 64,
            s@ == sig@,
            n == s@.len(),
            forall|j: int| 0 <= j < i ==> s@[j] == '1',
        decreases 64 - i,
    {
        if s.get_char(i) != '1' {
            proof {
                assert(sig@[i as int] != zero_signature()[i as int]);
            }
            return false;
        }
        i = i + 1;
    }
    proof {
        assert(sig@ =~= zero_signature());
    }
    true
}

/// Decides what one log notification means for the sink.
///
/// Nothing is handed on for the zero-signature confirmation, for a failed
/// transaction, or when the logs decode to no events; otherwise the sink
/// receives the signature with every decoded event, in log order.
pub fn handle_response_log(notice: LogsNotice) -> (r: Option<(String, Vec<BoEvent>)>)
    ensures
        r is Some <==> notice.signature@ != zero_signature() && notice.err is None
            && spec_events_of_logs(notice.logs.deep_view()).len() > 0,
        r matches Some((sig, events)) ==> (sig@ == notice.signature@ && events.deep_view()
            == spec_events_of_logs(notice.logs.deep_view())),
{
    if is_zero_signature(&notice.signature) {
        return None;
    }
    if notice.err.is_some() {
        return None;
    }
    let events = BoEvent::from_logs(&notice.logs);
    if events.is_empty() {
        return None;
    }
    Some((notice.signature, events))
}

} // verus!
