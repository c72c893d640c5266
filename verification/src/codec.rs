//! Log codec: from textual log lines to typed events.
//!
//! Only lines beginning with `"Program data: "` carry event payloads.  The
//! suffix is standard padded base64; the decoded bytes start with an 8-byte
//! discriminator — the leading bytes of `SHA-256("event:" || TypeName)` —
//! followed by the event body in a compact little-endian binary form:
//! fixed-width integers little-endian, 32-byte keys raw, `Option` as a tag
//! byte then the value, enums as a tag byte in declaration order.  A line
//! that fails to decode is skipped; the other lines of the transaction are
//! unaffected.

use vstd::prelude::*;

use base64::Engine;
use sha2::Digest;

use vstd::bytes::lemma_auto_spec_u64_to_from_le_bytes;
use vstd::bytes::spec_u64_from_le_bytes;
use vstd::bytes::spec_u64_to_le_bytes;
use vstd::bytes::u64_from_le_bytes;
use vstd::bytes::u64_to_le_bytes;
use vstd::slice::slice_index_get;
use vstd::slice::slice_subrange;
use vstd::slice::slice_to_vec;

use crate::events::BoEvent;
use crate::events::BoEventView;
use crate::events::OpenedView;
use crate::events::PositionMode;
use crate::events::PositionOpened;
use crate::events::PositionResult;
use crate::events::PositionSettled;
use crate::events::SettledView;
use crate::events::Side;
use crate::events::opened_wf;
use crate::events::settled_wf;

verus! {

/// Length of the discriminator that prefixes every event payload.
pub const DISCRIMINATOR_SIZE: usize = 8;

/// Discriminator of `PositionOpened`: `SHA-256("event:PositionOpened")[0..8]`,
/// precomputed so the hot path matches raw bytes.
pub open spec fn opened_disc() -> Seq<u8> {
    seq![237u8, 175u8, 243u8, 230u8, 147u8, 117u8, 101u8, 121u8]
}

/// Discriminator of `PositionSettled`: `SHA-256("event:PositionSettled")[0..8]`.
pub open spec fn settled_disc() -> Seq<u8> {
    seq![75u8, 100u8, 92u8, 189u8, 245u8, 116u8, 252u8, 221u8]
}

/// Wire byte of a `Side`, in declaration order.
pub open spec fn side_byte(s: Side) -> u8 {
    match s {
        Side::Call => 0u8,
        Side::Put => 1u8,
    }
}

/// Wire byte of a `PositionMode`, in declaration order.
pub open spec fn mode_byte(m: PositionMode) -> u8 {
    match m {
        PositionMode::Single => 0u8,
        PositionMode::Batch => 1u8,
    }
}

/// Wire byte of a `PositionResult`, in declaration order.
pub open spec fn result_byte(r: PositionResult) -> u8 {
    match r {
        PositionResult::Won => 0u8,
        PositionResult::Lose => 1u8,
        PositionResult::Draw => 2u8,
        PositionResult::Refund => 3u8,
    }
}

/// Little-endian bytes of a signed 64-bit value: those of its bit pattern.
pub open spec fn spec_i64_to_le_bytes(x: i64) -> Seq<u8> {
    spec_u64_to_le_bytes(x as u64)
}

/// The little-endian binary body of an opened event.
pub open spec fn spec_encode_opened(e: OpenedView) -> Seq<u8> {
    e.id + e.feed_id + e.user + seq![side_byte(e.side)] + spec_u64_to_le_bytes(e.amount)
        + spec_u64_to_le_bytes(e.premium) + spec_u64_to_le_bytes(e.premium_amount)
        + spec_u64_to_le_bytes(e.boundary_price) + spec_u64_to_le_bytes(e.spot_price)
        + spec_u64_to_le_bytes(e.multiplier) + spec_i64_to_le_bytes(e.start_time)
        + spec_i64_to_le_bytes(e.end_time) + seq![mode_byte(e.mode)] + spec_u64_to_le_bytes(
        e.old_sigma2,
    ) + spec_u64_to_le_bytes(e.new_sigma2)
}

/// The little-endian binary body of a settled event.
pub open spec fn spec_encode_settled(e: SettledView) -> Seq<u8> {
    e.id + e.user + seq![side_byte(e.side)] + spec_u64_to_le_bytes(e.boundary_price)
        + spec_u64_to_le_bytes(e.spot_price) + spec_u64_to_le_bytes(e.multiplier) + (match e
        .final_price {
        Option::None => seq![0u8],
        Option::Some(bits) => seq![1u8] + spec_u64_to_le_bytes(bits),
    }) + seq![result_byte(e.result)] + spec_u64_to_le_bytes(e.payout) + spec_u64_to_le_bytes(
        e.premium,
    )
}

/// An opened event body parses exactly when it is 178 bytes long and its two
/// enum tags are in range; every field is then read at a fixed offset.
pub open spec fn spec_parse_opened(s: Seq<u8>) -> Option<OpenedView> {
    if s.len() == 178 && (s[96] == 0 || s[96] == 1) && (s[161] == 0 || s[161] == 1) {
        Some(
            OpenedView {
                id: s.subrange(0, 32),
                feed_id: s.subrange(32, 64),
                user: s.subrange(64, 96),
                side: if s[96] == 0 {
                    Side::Call
                } else {
                    Side::Put
                },
                amount: spec_u64_from_le_bytes(s.subrange(97, 105)),
                premium: spec_u64_from_le_bytes(s.subrange(105, 113)),
                premium_amount: spec_u64_from_le_bytes(s.subrange(113, 121)),
                boundary_price: spec_u64_from_le_bytes(s.subrange(121, 129)),
                spot_price: spec_u64_from_le_bytes(s.subrange(129, 137)),
                multiplier: spec_u64_from_le_bytes(s.subrange(137, 145)),
                start_time: spec_u64_from_le_bytes(s.subrange(145, 153)) as i64,
                end_time: spec_u64_from_le_bytes(s.subrange(153, 161)) as i64,
                mode: if s[161] == 0 {
                    PositionMode::Single
                } else {
                    PositionMode::Batch
                },
                old_sigma2: spec_u64_from_le_bytes(s.subrange(162, 170)),
                new_sigma2: spec_u64_from_le_bytes(s.subrange(170, 178)),
            },
        )
    } else {
        None
    }
}

/// The result tag of a settled event, mapped back to the enum.
pub open spec fn result_of_byte(b: u8) -> PositionResult {
    if b == 0 {
        PositionResult::Won
    } else if b == 1 {
        PositionResult::Lose
    } else if b == 2 {
        PositionResult::Draw
    } else {
        PositionResult::Refund
    }
}

/// A settled event body parses exactly when its tags are in range and its
/// length matches the option tag: 107 bytes without a final price, 115 with.
pub open spec fn spec_parse_settled(s: Seq<u8>) -> Option<SettledView> {
    if s.len() >= 90 && (s[64] == 0 || s[64] == 1) && (s[89] == 0 || s[89] == 1) {
        if s[89] == 0 {
            if s.len() == 107 && s[90] < 4 {
                Some(
                    SettledView {
                        id: s.subrange(0, 32),
                        user: s.subrange(32, 64),
                        side: if s[64] == 0 {
                            Side::Call
                        } else {
                            Side::Put
                        },
                        boundary_price: spec_u64_from_le_bytes(s.subrange(65, 73)),
                        spot_price: spec_u64_from_le_bytes(s.subrange(73, 81)),
                        multiplier: spec_u64_from_le_bytes(s.subrange(81, 89)),
                        final_price: None,
                        result: result_of_byte(s[90]),
                        payout: spec_u64_from_le_bytes(s.subrange(91, 99)),
                        premium: spec_u64_from_le_bytes(s.subrange(99, 107)),
                    },
                )
            } else {
                None
            }
        } else {
            if s.len() == 115 && s[98] < 4 {
                Some(
                    SettledView {
                        id: s.subrange(0, 32),
                        user: s.subrange(32, 64),
                        side: if s[64] == 0 {
                            Side::Call
                        } else {
                            Side::Put
                        },
                        boundary_price: spec_u64_from_le_bytes(s.subrange(65, 73)),
                        spot_price: spec_u64_from_le_bytes(s.subrange(73, 81)),
                        multiplier: spec_u64_from_le_bytes(s.subrange(81, 89)),
                        final_price: Some(spec_u64_from_le_bytes(s.subrange(90, 98))),
                        result: result_of_byte(s[98]),
                        payout: spec_u64_from_le_bytes(s.subrange(99, 107)),
                        premium: spec_u64_from_le_bytes(s.subrange(107, 115)),
                    },
                )
            } else {
                None
            }
        }
    } else {
        None
    }
}

/// A framed event payload: discriminator, then body, with nothing after.
pub open spec fn spec_parse_event(bytes: Seq<u8>) -> Option<BoEventView> {
    if bytes.len() >= 8 {
        let disc = bytes.take(8);
        let body = bytes.skip(8);
        if disc == opened_disc() {
            match spec_parse_opened(body) {
                Some(e) => Some(BoEventView::OpenPosition(e)),
                None => None,
            }
        } else if disc == settled_disc() {
            match spec_parse_settled(body) {
                Some(e) => Some(BoEventView::SettlePosition(e)),
                None => None,
            }
        } else {
            None
        }
    } else {
        None
    }
}

/// The full framed payload of an event, as the program emits it.
pub open spec fn spec_frame_event(ev: BoEventView) -> Seq<u8> {
    match ev {
        BoEventView::OpenPosition(e) => opened_disc() + spec_encode_opened(e),
        BoEventView::SettlePosition(e) => settled_disc() + spec_encode_settled(e),
    }
}

/// Well-formedness of an event value: its keys have their wire width.
pub open spec fn event_wf(ev: BoEventView) -> bool {
    match ev {
        BoEventView::OpenPosition(e) => opened_wf(e),
        BoEventView::SettlePosition(e) => settled_wf(e),
    }
}

pub(crate) fn push_bytes(dst: &mut Vec<u8>, src: &[u8])
    ensures
        final(dst)@ == old(dst)@ + src@,
{
    let n = src.len();
    let mut i: usize = 0;
    while i < n
        invariant
            0 <= i <= n,
            n == src@.len(),
            dst@ == old(dst)@ + src@.take(i as int),
        decreases n - i,
    {
        dst.push(*slice_index_get(src, i));
        proof {
            assert(dst@ =~= old(dst)@ + src@.take(i as int + 1));
        }
        i = i + 1;
    }
    proof {
        assert(src@.take(n as int) =~= src@);
    }
}

fn push_u64_le(dst: &mut Vec<u8>, x: u64)
    ensures
        final(dst)@ == old(dst)@ + spec_u64_to_le_bytes(x),
{
    let bytes = u64_to_le_bytes(x);
    push_bytes(dst, bytes.as_slice());
}

fn push_i64_le(dst: &mut Vec<u8>, x: i64)
    ensures
        final(dst)@ == old(dst)@ + spec_i64_to_le_bytes(x),
{
    push_u64_le(dst, x as u64);
}

/// Encodes an opened event body in the wire form the codec reads back.
pub fn encode_opened(e: &PositionOpened) -> (bytes: Vec<u8>)
    ensures
        bytes@ == spec_encode_opened(e@),
{
    let mut out: Vec<u8> = Vec::new();
    push_bytes(&mut out, e.id.as_slice());
    push_bytes(&mut out, e.feed_id.as_slice());
    push_bytes(&mut out, e.user.as_slice());
    out.push(match e.side {
        Side::Call => 0u8,
        Side::Put => 1u8,
    });
    push_u64_le(&mut out, e.amount);
    push_u64_le(&mut out, e.premium);
    push_u64_le(&mut out, e.premium_amount);
    push_u64_le(&mut out, e.boundary_price);
    push_u64_le(&mut out, e.spot_price);
    push_u64_le(&mut out, e.multiplier);
    push_i64_le(&mut out, e.start_time);
    push_i64_le(&mut out, e.end_time);
    out.push(match e.mode {
        PositionMode::Single => 0u8,
        PositionMode::Batch => 1u8,
    });
    push_u64_le(&mut out, e.old_sigma2);
    push_u64_le(&mut out, e.new_sigma2);
    proof {
        assert(out@ =~= spec_encode_opened(e@));
    }
    out
}

/// Encodes a settled event body in the wire form the codec reads back.
pub fn encode_settled(e: &PositionSettled) -> (bytes: Vec<u8>)
    ensures
        bytes@ == spec_encode_settled(e@),
{
    let mut out: Vec<u8> = Vec::new();
    push_bytes(&mut out, e.id.as_slice());
    push_bytes(&mut out, e.user.as_slice());
    out.push(match e.side {
        Side::Call => 0u8,
        Side::Put => 1u8,
    });
    push_u64_le(&mut out, e.boundary_price);
    push_u64_le(&mut out, e.spot_price);
    push_u64_le(&mut out, e.multiplier);
    match e.final_price {
        Option::None => {
            out.push(0u8);
        },
        Option::Some(bits) => {
            out.push(1u8);
            push_u64_le(&mut out, bits);
        },
    }
    out.push(match e.result {
        PositionResult::Won => 0u8,
        PositionResult::Lose => 1u8,
        PositionResult::Draw => 2u8,
        PositionResult::Refund => 3u8,
    });
    push_u64_le(&mut out, e.payout);
    push_u64_le(&mut out, e.premium);
    proof {
        assert(out@ =~= spec_encode_settled(e@));
    }
    out
}

/// The framed payload of an event: discriminator, then body.
pub fn frame_event(event: &BoEvent) -> (bytes: Vec<u8>)
    ensures
        bytes@ == spec_frame_event(event@),
{
    let mut out: Vec<u8> = Vec::new();
    match event {
        BoEvent::OpenPosition(e) => {
            push_bytes(&mut out, opened_discriminator().as_slice());
            let body = encode_opened(e);
            push_bytes(&mut out, body.as_slice());
        },
        BoEvent::SettlePosition(e) => {
            push_bytes(&mut out, settled_discriminator().as_slice());
            let body = encode_settled(e);
            push_bytes(&mut out, body.as_slice());
        },
    }
    proof {
        assert(out@ =~= spec_frame_event(event@));
    }
    out
}

/// The precomputed discriminator of `PositionOpened`.
pub fn opened_discriminator() -> (d: Vec<u8>)
    ensures
        d@ == opened_disc(),
{
    let mut d: Vec<u8> = Vec::new();
    d.push(237);
    d.push(175);
    d.push(243);
    d.push(230);
    d.push(147);
    d.push(117);
    d.push(101);
    d.push(121);
    proof {
        assert(d@ =~= opened_disc());
    }
    d
}

/// The precomputed discriminator of `PositionSettled`.
pub fn settled_discriminator() -> (d: Vec<u8>)
    ensures
        d@ == settled_disc(),
{
    let mut d: Vec<u8> = Vec::new();
    d.push(75);
    d.push(100);
    d.push(92);
    d.push(189);
    d.push(245);
    d.push(116);
    d.push(252);
    d.push(221);
    proof {
        assert(d@ =~= settled_disc());
    }
    d
}

/// Reads an opened event body; `None` exactly where the wire form is invalid.
pub fn parse_opened(body: &[u8]) -> (r: Option<PositionOpened>)
    ensures
        r is Some <==> spec_parse_opened(body@) is Some,
        r matches Some(e) ==> spec_parse_opened(body@) == Some(e@),
{
    if body.len() != 178 {
        return None;
    }
    let side = match *slice_index_get(body, 96) {
        0 => Side::Call,
        1 => Side::Put,
        _ => {
            return None;
        },
    };
    let mode = match *slice_index_get(body, 161) {
        0 => PositionMode::Single,
        1 => PositionMode::Batch,
        _ => {
            return None;
        },
    };
    let e = PositionOpened {
        id: slice_to_vec(slice_subrange(body, 0, 32)),
        feed_id: slice_to_vec(slice_subrange(body, 32, 64)),
        user: slice_to_vec(slice_subrange(body, 64, 96)),
        side,
        amount: u64_from_le_bytes(slice_subrange(body, 97, 105)),
        premium: u64_from_le_bytes(slice_subrange(body, 105, 113)),
        premium_amount: u64_from_le_bytes(slice_subrange(body, 113, 121)),
        boundary_price: u64_from_le_bytes(slice_subrange(body, 121, 129)),
        spot_price: u64_from_le_bytes(slice_subrange(body, 129, 137)),
        multiplier: u64_from_le_bytes(slice_subrange(body, 137, 145)),
        start_time: u64_from_le_bytes(slice_subrange(body, 145, 153)) as i64,
        end_time: u64_from_le_bytes(slice_subrange(body, 153, 161)) as i64,
        mode,
        old_sigma2: u64_from_le_bytes(slice_subrange(body, 162, 170)),
        new_sigma2: u64_from_le_bytes(slice_subrange(body, 170, 178)),
    };
    Some(e)
}

/// Reads a settled event body; `None` exactly where the wire form is invalid.
pub fn parse_settled(body: &[u8]) -> (r: Option<PositionSettled>)
    ensures
        r is Some <==> spec_parse_settled(body@) is Some,
        r matches Some(e) ==> spec_parse_settled(body@) == Some(e@),
{
    if body.len() < 90 {
        return None;
    }
    let side = match *slice_index_get(body, 64) {
        0 => Side::Call,
        1 => Side::Put,
        _ => {
            return None;
        },
    };
    let tag = *slice_index_get(body, 89);
    if tag == 0 {
        if body.len() != 107 {
            return None;
        }
        let result = match *slice_index_get(body, 90) {
            0 => PositionResult::Won,
            1 => PositionResult::Lose,
            2 => PositionResult::Draw,
            3 => PositionResult::Refund,
            _ => {
                return None;
            },
        };
        Some(
            PositionSettled {
                id: slice_to_vec(slice_subrange(body, 0, 32)),
                user: slice_to_vec(slice_subrange(body, 32, 64)),
                side,
                boundary_price: u64_from_le_bytes(slice_subrange(body, 65, 73)),
                spot_price: u64_from_le_bytes(slice_subrange(body, 73, 81)),
                multiplier: u64_from_le_bytes(slice_subrange(body, 81, 89)),
                final_price: None,
                result,
                payout: u64_from_le_bytes(slice_subrange(body, 91, 99)),
                premium: u64_from_le_bytes(slice_subrange(body, 99, 107)),
            },
        )
    } else if tag == 1 {
        if body.len() != 115 {
            return None;
        }
        let result = match *slice_index_get(body, 98) {
            0 => PositionResult::Won,
            1 => PositionResult::Lose,
            2 => PositionResult::Draw,
            3 => PositionResult::Refund,
            _ => {
                return None;
            },
        };
        Some(
            PositionSettled {
                id: slice_to_vec(slice_subrange(body, 0, 32)),
                user: slice_to_vec(slice_subrange(body, 32, 64)),
                side,
                boundary_price: u64_from_le_bytes(slice_subrange(body, 65, 73)),
                spot_price: u64_from_le_bytes(slice_subrange(body, 73, 81)),
                multiplier: u64_from_le_bytes(slice_subrange(body, 81, 89)),
                final_price: Some(u64_from_le_bytes(slice_subrange(body, 90, 98))),
                result,
                payout: u64_from_le_bytes(slice_subrange(body, 99, 107)),
                premium: u64_from_le_bytes(slice_subrange(body, 107, 115)),
            },
        )
    } else {
        None
    }
}

/// Reads one framed event payload: discriminator match, then body parse.
pub fn parse_event(bytes: &[u8]) -> (r: Option<BoEvent>)
    ensures
        r is Some <==> spec_parse_event(bytes@) is Some,
        r matches Some(e) ==> spec_parse_event(bytes@) == Some(e@),
{
    if bytes.len() < DISCRIMINATOR_SIZE {
        return None;
    }
    let disc = slice_subrange(bytes, 0, DISCRIMINATOR_SIZE);
    let body = slice_subrange(bytes, DISCRIMINATOR_SIZE, bytes.len());
    proof {
        assert(disc@ =~= bytes@.take(8));
        assert(body@ =~= bytes@.skip(8));
    }
    if bytes_eq8(disc, &opened_discriminator()) {
        match parse_opened(body) {
            Some(e) => Some(BoEvent::OpenPosition(e)),
            None => None,
        }
    } else if bytes_eq8(disc, &settled_discriminator()) {
        match parse_settled(body) {
            Some(e) => Some(BoEvent::SettlePosition(e)),
            None => None,
        }
    } else {
        None
    }
}

fn bytes_eq8(a: &[u8], b: &Vec<u8>) -> (r: bool)
    requires
        a@.len() == 8,
        b@.len() == 8,
    ensures
        r <==> a@ == b@,
{
    let mut i: usize = 0;
    while i < 8
        invariant
            0 <= i <= 8,
            a@.len() == 8,
            b@.len() == 8,
            forall|j: int| 0 <= j < i ==> a@[j] == b@[j],
        decreases 8 - i,
    {
        if *slice_index_get(a, i) != b[i] {
            proof {
                assert(a@[i as int] != b@[i as int]);
            }
            return false;
        }
        i = i + 1;
    }
    proof {
        assert(a@ =~= b@);
    }
    true
}

/// A well-formed event reads back from its own framed payload: the codec and
/// the encoder are exact inverses.
pub proof fn lemma_event_round_trip(ev: BoEventView)
    requires
        event_wf(ev),
    ensures
        spec_parse_event(spec_frame_event(ev)) == Some(ev),
{
    match ev {
        BoEventView::OpenPosition(e) => {
            let framed = spec_frame_event(ev);
            lemma_opened_round_trip(e);
            assert(spec_encode_opened(e).len() == 178) by {
                lemma_auto_spec_u64_to_from_le_bytes();
            }
            assert(framed.take(8) =~= opened_disc());
            assert(framed.skip(8) =~= spec_encode_opened(e));
            assert(framed.take(8) != settled_disc() || framed.take(8) == opened_disc());
        },
        BoEventView::SettlePosition(e) => {
            let framed = spec_frame_event(ev);
            lemma_settled_round_trip(e);
            assert(spec_encode_settled(e).len() >= 90) by {
                lemma_auto_spec_u64_to_from_le_bytes();
            }
            assert(framed.take(8) =~= settled_disc());
            assert(framed.skip(8) =~= spec_encode_settled(e));
            assert(framed.take(8)[0] == 75);
            assert(opened_disc()[0] == 237);
            assert(framed.take(8) != opened_disc());
        },
    }
}

/// A well-formed opened event reads back from its own encoding.
pub proof fn lemma_opened_round_trip(e: OpenedView)
    requires
        opened_wf(e),
    ensures
        spec_parse_opened(spec_encode_opened(e)) == Some(e),
{
    lemma_auto_spec_u64_to_from_le_bytes();
    let b = spec_encode_opened(e);
    assert(b.len() == 178);
    assert(b.subrange(0, 32) =~= e.id);
    assert(b.subrange(32, 64) =~= e.feed_id);
    assert(b.subrange(64, 96) =~= e.user);
    assert(b[96] == side_byte(e.side));
    assert(b.subrange(97, 105) =~= spec_u64_to_le_bytes(e.amount));
    assert(b.subrange(105, 113) =~= spec_u64_to_le_bytes(e.premium));
    assert(b.subrange(113, 121) =~= spec_u64_to_le_bytes(e.premium_amount));
    assert(b.subrange(121, 129) =~= spec_u64_to_le_bytes(e.boundary_price));
    assert(b.subrange(129, 137) =~= spec_u64_to_le_bytes(e.spot_price));
    assert(b.subrange(137, 145) =~= spec_u64_to_le_bytes(e.multiplier));
    assert(b.subrange(145, 153) =~= spec_u64_to_le_bytes(e.start_time as u64));
    assert(b.subrange(153, 161) =~= spec_u64_to_le_bytes(e.end_time as u64));
    assert(b[161] == mode_byte(e.mode));
    assert(b.subrange(162, 170) =~= spec_u64_to_le_bytes(e.old_sigma2));
    assert(b.subrange(170, 178) =~= spec_u64_to_le_bytes(e.new_sigma2));
    lemma_i64_bits_round_trip(e.start_time);
    lemma_i64_bits_round_trip(e.end_time);
}

/// A signed 64-bit value survives the trip through its bit pattern.
proof fn lemma_i64_bits_round_trip(x: i64)
    ensures
        (x as u64) as i64 == x,
{
    assert((x as u64) as i64 == x) by (bit_vector);
}

/// A well-formed settled event reads back from its own encoding.
pub proof fn lemma_settled_round_trip(e: SettledView)
    requires
        settled_wf(e),
    ensures
        spec_parse_settled(spec_encode_settled(e)) == Some(e),
{
    lemma_auto_spec_u64_to_from_le_bytes();
    let b = spec_encode_settled(e);
    assert(b.subrange(0, 32) =~= e.id);
    assert(b.subrange(32, 64) =~= e.user);
    assert(b[64] == side_byte(e.side));
    assert(b.subrange(65, 73) =~= spec_u64_to_le_bytes(e.boundary_price));
    assert(b.subrange(73, 81) =~= spec_u64_to_le_bytes(e.spot_price));
    assert(b.subrange(81, 89) =~= spec_u64_to_le_bytes(e.multiplier));
    match e.final_price {
        Option::None => {
            assert(b.len() == 107);
            assert(b[89] == 0);
            assert(b[90] == result_byte(e.result));
            assert(b.subrange(91, 99) =~= spec_u64_to_le_bytes(e.payout));
            assert(b.subrange(99, 107) =~= spec_u64_to_le_bytes(e.premium));
            assert(result_of_byte(result_byte(e.result)) == e.result);
        },
        Option::Some(bits) => {
            assert(b.len() == 115);
            assert(b[89] == 1);
            assert(b.subrange(90, 98) =~= spec_u64_to_le_bytes(bits));
            assert(b[98] == result_byte(e.result));
            assert(b.subrange(99, 107) =~= spec_u64_to_le_bytes(e.payout));
            assert(b.subrange(107, 115) =~= spec_u64_to_le_bytes(e.premium));
            assert(result_of_byte(result_byte(e.result)) == e.result);
        },
    }
}

/// What base64 decoding with the standard padded alphabet returns for the
/// given text: bytes on success, nothing on invalid input — a function of
/// the text alone.
pub uninterp spec fn base64_decoding(s: Seq<char>) -> Option<Seq<u8>>;

/// Relies on base64's `Engine::decode` with the standard padded engine:
/// deterministic in the input text, failing exactly on invalid base64.
#[verifier::external_body]
fn base64_decode(s: &str) -> (r: Option<Vec<u8>>)
    ensures
        r is Some <==> base64_decoding(s@) is Some,
        r matches Some(v) ==> base64_decoding(s@) == Some(v@),
{
    base64::engine::general_purpose::STANDARD.decode(s).ok()
}

/// What base64 encoding with the standard padded alphabet returns for the
/// given bytes — a function of the bytes alone.
pub uninterp spec fn base64_encoding(bytes: Seq<u8>) -> Seq<char>;

/// Relies on base64's `Engine::encode` with the standard padded engine:
/// deterministic in the input, and decoded back to the same bytes by the
/// same engine.
#[verifier::external_body]
fn base64_encode(bytes: &[u8]) -> (r: String)
    ensures
        r@ == base64_encoding(bytes@),
        base64_decoding(r@) == Some(bytes@),
{
    base64::engine::general_purpose::STANDARD.encode(bytes)
}

/// The 32-byte SHA-256 digest of the input — a function of the bytes alone.
pub uninterp spec fn sha256_digest(bytes: Seq<u8>) -> Seq<u8>;

/// Relies on sha2's `Sha256` through the `Digest` trait: the digest has 32
/// bytes and depends on the input bytes alone.
#[verifier::external_body]
fn sha256(bytes: &[u8]) -> (r: Vec<u8>)
    ensures
        r@ == sha256_digest(bytes@),
        r@.len() == 32,
{
    sha2::Sha256::digest(bytes).to_vec()
}

/// The bytes hashed to derive an event discriminator: the ASCII of
/// `"event:"`, then the UTF-8 of the type name, with no separator.
pub open spec fn event_tag_bytes(name: Seq<char>) -> Seq<u8> {
    seq![101u8, 118u8, 101u8, 110u8, 116u8, 58u8] + vstd::utf8::encode_utf8(name)
}

/// Derives an event discriminator from a type name: the first
/// `DISCRIMINATOR_SIZE` bytes of `SHA-256("event:" || name)`.
pub fn discriminator_of(name: &str) -> (d: Vec<u8>)
    ensures
        d@ == sha256_digest(event_tag_bytes(name@)).take(DISCRIMINATOR_SIZE as int),
{
    let mut data: Vec<u8> = Vec::new();
    data.push(101);
    data.push(118);
    data.push(101);
    data.push(110);
    data.push(116);
    data.push(58);
    push_bytes(&mut data, name.as_bytes());
    proof {
        assert(data@ =~= event_tag_bytes(name@));
    }
    let digest = sha256(data.as_slice());
    let d = slice_to_vec(slice_subrange(digest.as_slice(), 0, DISCRIMINATOR_SIZE));
    proof {
        assert(d@ =~= sha256_digest(event_tag_bytes(name@)).take(DISCRIMINATOR_SIZE as int));
    }
    d
}

/// Whether a log line begins with the payload marker `"Program data: "`.
pub open spec fn has_data_prefix(line: Seq<char>) -> bool {
    line.len() >= 14 && line.take(14) == "Program data: "@
}

/// The event a single log line carries, if any.
pub open spec fn spec_decode_line(line: Seq<char>) -> Option<BoEventView> {
    if has_data_prefix(line) {
        match base64_decoding(line.skip(14)) {
            Some(bytes) => spec_parse_event(bytes),
            None => None,
        }
    } else {
        None
    }
}

/// Events carried by an ordered sequence of log lines, in input order.
pub open spec fn spec_events_of_logs(lines: Seq<Seq<char>>) -> Seq<BoEventView>
    decreases lines.len(),
{
    if lines.len() == 0 {
        Seq::empty()
    } else {
        spec_events_of_logs(lines.drop_last()) + (match spec_decode_line(lines.last()) {
            Some(e) => seq![e],
            None => Seq::empty(),
        })
    }
}

/// Decodes one log line; `None` when the line carries no valid payload.
pub fn decode_line(line: &str) -> (r: Option<BoEvent>)
    ensures
        r is Some <==> spec_decode_line(line@) is Some,
        r matches Some(e) ==> spec_decode_line(line@) == Some(e@),
{
    let n = line.unicode_len();
    let marker = "Program data: ";
    proof {
        reveal_strlit("Program data: ");
        assert(marker@.len() == 14);
    }
    if n < 14 {
        return None;
    }
    let mut i: usize = 0;
    while i < 14
        invariant
            0 <= i <= 14,
            n == line@.len(),
            n >= 14,
            marker@ == "Program data: "@,
            marker@.len() == 14,
            forall|j: int| 0 <= j < i ==> line@[j] == marker@[j],
        decreases 14 - i,
    {
        if line.get_char(i) != marker.get_char(i) {
            proof {
                assert(line@.take(14) != "Program data: "@) by {
                    assert(line@.take(14)[i as int] != "Program data: "@[i as int]);
                }
            }
            return None;
        }
        i = i + 1;
    }
    proof {
        assert(line@.take(14) =~= marker@);
        assert(has_data_prefix(line@));
    }
    let suffix = line.substring_char(14, n);
    proof {
        assert(suffix@ =~= line@.skip(14));
    }
    match base64_decode(suffix) {
        Some(bytes) => parse_event(bytes.as_slice()),
        None => None,
    }
}

impl BoEvent {
    /// Decodes every qualifying line of a transaction's logs, in input
    /// order; a line that fails to decode is skipped on its own.
    pub fn from_logs(logs: &Vec<String>) -> (events: Vec<BoEvent>)
        ensures
            events.deep_view() == spec_events_of_logs(logs.deep_view()),
    {
        let n = logs.len();
        let mut events: Vec<BoEvent> = Vec::new();
        let mut i: usize = 0;
        while i < n
            invariant
                0 <= i <= n,
                n == logs@.len(),
                events.deep_view() == spec_events_of_logs(logs.deep_view().take(i as int)),
            decreases n - i,
        {
            let ghost pre = events.deep_view();
            let ghost lv = logs.deep_view();
            proof {
                assert(lv.take(i as int + 1).drop_last() =~= lv.take(i as int));
                assert(lv.take(i as int + 1).last() == lv[i as int]);
                assert(logs@[i as int]@ == lv[i as int]);
            }
            match decode_line(logs[i].as_str()) {
                Some(e) => {
                    let ghost ev = e@;
                    events.push(e);
                    proof {
                        assert(events.deep_view() =~= pre.push(ev));
                        assert(events.deep_view() =~= spec_events_of_logs(
                            lv.take(i as int + 1),
                        ));
                    }
                },
                None => {
                    proof {
                        assert(events.deep_view() =~= spec_events_of_logs(
                            lv.take(i as int + 1),
                        ));
                    }
                },
            }
            i = i + 1;
        }
        proof {
            assert(logs.deep_view().take(n as int) =~= logs.deep_view());
        }
        events
    }
}

/// Wraps a well-formed event as the watched program would emit it: a
/// `"Program data: "` line whose payload decodes back to exactly that
/// event.  With `lemma_event_round_trip` this is the synthesized round
/// trip: decoding inverts framing for every event value.
pub fn encode_event_line(event: &BoEvent) -> (line: String)
    requires
        event_wf(event@),
    ensures
        spec_decode_line(line@) == Some(event@),
{
    let framed = frame_event(event);
    let b64 = base64_encode(framed.as_slice());
    let mut line = "Program data: ".to_owned();
    line.append(b64.as_str());
    proof {
        reveal_strlit("Program data: ");
        assert(line@.take(14) =~= "Program data: "@);
        assert(line@.skip(14) =~= b64@);
        lemma_event_round_trip(event@);
    }
    line
}

/// A line that decodes to nothing — in particular every line without the
/// payload marker — adds nothing to the decoded events wherever it stands.
pub proof fn lemma_inert_line_ignored(lines: Seq<Seq<char>>, i: int, line: Seq<char>)
    requires
        0 <= i <= lines.len(),
        spec_decode_line(line) is None,
    ensures
        spec_events_of_logs(lines.insert(i, line)) == spec_events_of_logs(lines),
    decreases lines.len(),
{
    let g = lines.insert(i, line);
    if i == lines.len() {
        assert(g.drop_last() =~= lines);
        assert(g.last() == line);
        assert(spec_events_of_logs(g) =~= spec_events_of_logs(lines));
    } else {
        assert(g.drop_last() =~= lines.drop_last().insert(i, line));
        assert(g.last() == lines.last());
        lemma_inert_line_ignored(lines.drop_last(), i, line);
        assert(spec_events_of_logs(g) =~= spec_events_of_logs(lines));
    }
}

} // verus!
