//! Typed events emitted by the watched program.
//!
//! Two variants are decoded from on-chain logs: a position being opened and a
//! position being settled.  Public keys are 32 raw bytes.  Prices and rates
//! arrive on the wire as IEEE-754 doubles; the verified core never computes
//! with them, so it carries each one as its 64-bit pattern exactly as read,
//! and unverified consumers reinterpret the bits where a number is needed.

use vstd::prelude::*;

verus! {

/// Direction of a position relative to the boundary price.
#[derive(Debug, Clone, Copy, PartialEq, Eq, Structural)]
pub enum Side {
    Call,
    Put,
}

/// Whether a position was opened singly or as part of a batch.
#[derive(Debug, Clone, Copy, PartialEq, Eq, Structural)]
pub enum PositionMode {
    Single,
    Batch,
}

/// Outcome of a settled position.
#[derive(Debug, Clone, Copy, PartialEq, Eq, Structural)]
pub enum PositionResult {
    Won,
    Lose,
    Draw,
    Refund,
}

/// A position was opened.
///
/// Fields suffixed by their wire type: `id`, `feed_id` and `user` are 32-byte
/// keys; `premium`, `boundary_price`, `spot_price`, `multiplier`,
/// `old_sigma2` and `new_sigma2` hold the bit patterns of wire doubles.
#[derive(Debug, PartialEq, Eq)]
pub struct PositionOpened {
    pub id: Vec<u8>,
    pub feed_id: Vec<u8>,
    pub user: Vec<u8>,
    pub side: Side,
    pub amount: u64,
    pub premium: u64,
    pub premium_amount: u64,
    pub boundary_price: u64,
    pub spot_price: u64,
    pub multiplier: u64,
    pub start_time: i64,
    pub end_time: i64,
    pub mode: PositionMode,
    pub old_sigma2: u64,
    pub new_sigma2: u64,
}

/// A position was settled.
///
/// `boundary_price`, `spot_price`, `multiplier` and the optional
/// `final_price` hold the bit patterns of wire doubles.
#[derive(Debug, PartialEq, Eq)]
pub struct PositionSettled {
    pub id: Vec<u8>,
    pub user: Vec<u8>,
    pub side: Side,
    pub boundary_price: u64,
    pub spot_price: u64,
    pub multiplier: u64,
    pub final_price: Option<u64>,
    pub result: PositionResult,
    pub payout: u64,
    pub premium: u64,
}

/// The closed union of events the watched program emits.
#[derive(Debug, PartialEq, Eq)]
pub enum BoEvent {
    OpenPosition(PositionOpened),
    SettlePosition(PositionSettled),
}

/// Mathematical value of a `PositionOpened`, with byte sequences for keys.
pub struct OpenedView {
    pub id: Seq<u8>,
    pub feed_id: Seq<u8>,
    pub user: Seq<u8>,
    pub side: Side,
    pub amount: u64,
    pub premium: u64,
    pub premium_amount: u64,
    pub boundary_price: u64,
    pub spot_price: u64,
    pub multiplier: u64,
    pub start_time: i64,
    pub end_time: i64,
    pub mode: PositionMode,
    pub old_sigma2: u64,
    pub new_sigma2: u64,
}

/// Mathematical value of a `PositionSettled`.
pub struct SettledView {
    pub id: Seq<u8>,
    pub user: Seq<u8>,
    pub side: Side,
    pub boundary_price: u64,
    pub spot_price: u64,
    pub multiplier: u64,
    pub final_price: Option<u64>,
    pub result: PositionResult,
    pub payout: u64,
    pub premium: u64,
}

/// Mathematical value of a `BoEvent`.
pub enum BoEventView {
    OpenPosition(OpenedView),
    SettlePosition(SettledView),
}

/// The key fields of a well-formed opened event are 32 bytes each.
pub open spec fn opened_wf(e: OpenedView) -> bool {
    e.id.len() == 32 && e.feed_id.len() == 32 && e.user.len() == 32
}

/// The key fields of a well-formed settled event are 32 bytes each.
pub open spec fn settled_wf(e: SettledView) -> bool {
    e.id.len() == 32 && e.user.len() == 32
}

impl View for PositionOpened {
    type V = OpenedView;

    open spec fn view(&self) -> OpenedView {
        OpenedView {
            id: self.id@,
            feed_id: self.feed_id@,
            user: self.user@,
            side: self.side,
            amount: self.amount,
            premium: self.premium,
            premium_amount: self.premium_amount,
            boundary_price: self.boundary_price,
            spot_price: self.spot_price,
            multiplier: self.multiplier,
            start_time: self.start_time,
            end_time: self.end_time,
            mode: self.mode,
            old_sigma2: self.old_sigma2,
            new_sigma2: self.new_sigma2,
        }
    }
}

impl View for PositionSettled {
    type V = SettledView;

    open spec fn view(&self) -> SettledView {
        SettledView {
            id: self.id@,
            user: self.user@,
            side: self.side,
            boundary_price: self.boundary_price,
            spot_price: self.spot_price,
            multiplier: self.multiplier,
            final_price: self.final_price,
            result: self.result,
            payout: self.payout,
            premium: self.premium,
        }
    }
}

impl View for BoEvent {
    type V = BoEventView;

    open spec fn view(&self) -> BoEventView {
        match self {
            BoEvent::OpenPosition(e) => BoEventView::OpenPosition(e@),
            BoEvent::SettlePosition(e) => BoEventView::SettlePosition(e@),
        }
    }
}

impl DeepView for BoEvent {
    type V = BoEventView;

    open spec fn deep_view(&self) -> BoEventView {
        self@
    }
}

} // verus!
