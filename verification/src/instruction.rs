//! Building the open-position instruction payload.
//!
//! The instruction data handed to the watched program is its 8-byte
//! instruction discriminator followed by the arguments in the same compact
//! little-endian serialization the log codec reads.  Deriving the involved
//! program addresses is the chain SDK's work and stays outside the library;
//! the byte layout of the data is verified here.

use vstd::prelude::*;

use vstd::bytes::spec_u64_to_le_bytes;
use vstd::bytes::spec_u32_to_le_bytes;
use vstd::bytes::u32_to_le_bytes;

use crate::codec::push_bytes;
use crate::codec::side_byte;
use crate::codec::mode_byte;
use crate::codec::spec_i64_to_le_bytes;
use crate::events::PositionMode;
use crate::events::Side;

verus! {

/// Arguments of the open-position instruction.
///
/// `_id` is the 32-byte feed the market is derived from; `boundary_price`,
/// `price` and `price_publish_time` are fixed-point values as the program
/// defines them.
#[derive(Debug, PartialEq, Eq)]
pub struct OpenPositionArgs {
    pub _id: Vec<u8>,
    pub side: Side,
    pub amount: u64,
    pub position_id: Vec<u8>,
    pub settle_delay_epochs_secs: u32,
    pub boundary_price: i64,
    pub price: i64,
    pub price_publish_time: i64,
    pub mode: PositionMode,
}

/// Mathematical value of `OpenPositionArgs`.
pub struct OpenPositionArgsView {
    pub _id: Seq<u8>,
    pub side: Side,
    pub amount: u64,
    pub position_id: Seq<u8>,
    pub settle_delay_epochs_secs: u32,
    pub boundary_price: i64,
    pub price: i64,
    pub price_publish_time: i64,
    pub mode: PositionMode,
}

impl View for OpenPositionArgs {
    type V = OpenPositionArgsView;

    open spec fn view(&self) -> OpenPositionArgsView {
        OpenPositionArgsView {
            _id: self._id@,
            side: self.side,
            amount: self.amount,
            position_id: self.position_id@,
            settle_delay_epochs_secs: self.settle_delay_epochs_secs,
            boundary_price: self.boundary_price,
            price: self.price,
            price_publish_time: self.price_publish_time,
            mode: self.mode,
        }
    }
}

/// The 8-byte discriminator of the open-position instruction.
pub open spec fn open_position_disc() -> Seq<u8> {
    seq![135u8, 128u8, 47u8, 77u8, 15u8, 152u8, 240u8, 49u8]
}

/// The serialized argument block of the open-position instruction.
pub open spec fn spec_encode_open_position_args(a: OpenPositionArgsView) -> Seq<u8> {
    a._id + seq![side_byte(a.side)] + spec_u64_to_le_bytes(a.amount) + a.position_id
        + spec_u32_to_le_bytes(a.settle_delay_epochs_secs) + spec_i64_to_le_bytes(a.boundary_price)
        + spec_i64_to_le_bytes(a.price) + spec_i64_to_le_bytes(a.price_publish_time) + seq![
        mode_byte(a.mode),
    ]
}

/// The instruction data sent on-chain: discriminator, then arguments.
pub open spec fn spec_open_position_data(a: OpenPositionArgsView) -> Seq<u8> {
    open_position_disc() + spec_encode_open_position_args(a)
}

/// Serializes the open-position instruction data: the instruction
/// discriminator followed by the little-endian argument block.
pub fn open_position_data(args: &OpenPositionArgs) -> (data: Vec<u8>)
    ensures
        data@ == spec_open_position_data(args@),
{
    let mut data: Vec<u8> = Vec::new();
    data.push(135);
    data.push(128);
    data.push(47);
    data.push(77);
    data.push(15);
    data.push(152);
    data.push(240);
    data.push(49);
    push_bytes(&mut data, args._id.as_slice());
    data.push(match args.side {
        Side::Call => 0u8,
        Side::Put => 1u8,
    });
    let amount = vstd::bytes::u64_to_le_bytes(args.amount);
    push_bytes(&mut data, amount.as_slice());
    push_bytes(&mut data, args.position_id.as_slice());
    let delay = u32_to_le_bytes(args.settle_delay_epochs_secs);
    push_bytes(&mut data, delay.as_slice());
    let boundary = vstd::bytes::u64_to_le_bytes(args.boundary_price as u64);
    push_bytes(&mut data, boundary.as_slice());
    let price = vstd::bytes::u64_to_le_bytes(args.price as u64);
    push_bytes(&mut data, price.as_slice());
    let publish = vstd::bytes::u64_to_le_bytes(args.price_publish_time as u64);
    push_bytes(&mut data, publish.as_slice());
    data.push(match args.mode {
        PositionMode::Single => 0u8,
        PositionMode::Batch => 1u8,
    });
    proof {
        assert(data@ =~= spec_open_position_data(args@));
    }
    data
}

} // verus!
