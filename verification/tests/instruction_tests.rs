//! Tests of the open-position instruction data layout.

use ingestor::events::PositionMode;
use ingestor::events::Side;
use ingestor::instruction::OpenPositionArgs;
use ingestor::instruction::open_position_data;

#[test]
fn open_position_data_has_the_documented_layout() {
    let args = OpenPositionArgs {
        _id: vec![4u8; 32],
        side: Side::Put,
        amount: 1_000_000,
        position_id: vec![5u8; 32],
        settle_delay_epochs_secs: 3_600,
        boundary_price: 64_000_50,
        price: -63_901_25,
        price_publish_time: 1_700_000_000,
        mode: PositionMode::Single,
    };
    let data = open_position_data(&args);

    let mut expected = vec![135u8, 128, 47, 77, 15, 152, 240, 49];
    expected.extend_from_slice(&[4u8; 32]);
    expected.push(1); // Put
    expected.extend_from_slice(&1_000_000u64.to_le_bytes());
    expected.extend_from_slice(&[5u8; 32]);
    expected.extend_from_slice(&3_600u32.to_le_bytes());
    expected.extend_from_slice(&64_000_50i64.to_le_bytes());
    expected.extend_from_slice(&(-63_901_25i64).to_le_bytes());
    expected.extend_from_slice(&1_700_000_000i64.to_le_bytes());
    expected.push(0); // Single
    assert_eq!(data, expected);
    assert_eq!(data.len(), 8 + 32 + 1 + 8 + 32 + 4 + 8 + 8 + 8 + 1);
}

#[test]
fn mode_and_side_tags_follow_declaration_order() {
    let args = OpenPositionArgs {
        _id: vec![0u8; 32],
        side: Side::Call,
        amount: 0,
        position_id: vec![0u8; 32],
        settle_delay_epochs_secs: 0,
        boundary_price: 0,
        price: 0,
        price_publish_time: 0,
        mode: PositionMode::Batch,
    };
    let data = open_position_data(&args);
    assert_eq!(data[8 + 32], 0); // Call
    assert_eq!(data[data.len() - 1], 1); // Batch
}
