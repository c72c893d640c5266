//! Planning logic of the EVM block-range scanner.
//!
//! The scanner walks past blocks with a durable cursor.  Each cycle reads the
//! chain tip, picks a block range capped by a per-chain limit and a trailing
//! confirmation margin of two blocks, and advances the cursor only after the
//! whole range was processed.  The functions here decide those ranges; the
//! RPC and database calls around them are unverified I/O.

use vstd::prelude::*;

use vstd::math::min;

use crate::errors::AppErr;
use crate::store::ProgressStore;
use crate::store::Setting;
use crate::text::all_dec_digits;
use crate::text::dec_seq;
use crate::text::dec_value;
use crate::text::parse_u64_decimal;
use crate::text::u64_to_decimal;

verus! {

/// Cadence of scanner cycles, in seconds.
pub const SCAN_INTERVAL_SECS: u64 = 60;

/// Blocks held back from the chain tip so reorg-prone blocks are not read.
pub const TRAILING_MARGIN: u64 = 2;

/// Largest number of blocks a single log query may span on the given chain.
///
/// Chain 1 is capped at 1998 blocks because its public RPC endpoints reject
/// `eth_getLogs` ranges of 2000 blocks and more; every other chain uses 2000.
pub open spec fn spec_block_range(chain: u64) -> u64 {
    if chain == 1 {
        1998u64
    } else {
        2000u64
    }
}

/// Largest number of blocks a single log query may span on the given chain.
pub fn block_range_by_chain(chain: u64) -> (range: u64)
    ensures
        range == spec_block_range(chain),
{
    match chain {
        1 => 1998,
        _ => 2000,
    }
}

/// What one scan cycle does: wait for more blocks, or fetch one range.
#[derive(Debug, Clone, Copy, PartialEq, Eq, Structural)]
pub enum ScanPlan {
    /// Too close to the chain tip; sleep and retry.
    Wait,
    /// Query logs for blocks `from..=to` and, on success, move the cursor
    /// to `to + 1`.
    Fetch { from: u64, to: u64 },
}

/// Upper end of the range a cycle may scan: the chain tip less the trailing
/// margin, capped at the per-chain range from the cursor.
pub open spec fn spec_scan_to(cursor: u64, latest: u64, chain: u64) -> int {
    min(latest as int - TRAILING_MARGIN as int, cursor as int + spec_block_range(chain) as int)
}

/// The range one scan cycle covers.  The cycle waits when the cursor is
/// past the tip or within the trailing margin of it; otherwise it fetches
/// from the cursor up to `spec_scan_to`.
pub open spec fn spec_plan_scan(cursor: u64, latest: u64, chain: u64) -> ScanPlan {
    if latest < cursor {
        ScanPlan::Wait
    } else if spec_scan_to(cursor, latest, chain) < cursor {
        ScanPlan::Wait
    } else {
        ScanPlan::Fetch { from: cursor, to: spec_scan_to(cursor, latest, chain) as u64 }
    }
}

/// Plans one scan cycle from the durable cursor and the chain tip.
pub fn plan_scan(cursor: u64, latest: u64, chain: u64) -> (p: ScanPlan)
    ensures
        p == spec_plan_scan(cursor, latest, chain),
{
    if latest < cursor {
        return ScanPlan::Wait;
    }
    if latest < TRAILING_MARGIN {
        return ScanPlan::Wait;
    }
    let head = latest - TRAILING_MARGIN;
    if head < cursor {
        return ScanPlan::Wait;
    }
    let range = block_range_by_chain(chain);
    let to = if head - cursor > range {
        cursor + range
    } else {
        head
    };
    ScanPlan::Fetch { from: cursor, to }
}

/// Bounds every fetched range obeys: it starts at the cursor, never reaches
/// into the trailing margin below the chain tip, spans at most the
/// per-chain range, and its success strictly advances the cursor.
pub proof fn lemma_scan_plan_bounds(cursor: u64, latest: u64, chain: u64)
    ensures
        spec_plan_scan(cursor, latest, chain) matches ScanPlan::Fetch { from, to } ==> {
            &&& from == cursor
            &&& cursor <= to
            &&& to + TRAILING_MARGIN <= latest
            &&& to - from <= spec_block_range(chain)
            &&& to + 1 > cursor
        },
        latest as int - TRAILING_MARGIN < cursor as int ==> spec_plan_scan(cursor, latest, chain)
            is Wait,
{
}

/// Resolves the scanner's starting cursor, initializing it lazily.
///
/// An existing slot is parsed as a decimal block number; an absent slot —
/// the first run — starts at the chain tip, which is persisted before any
/// range is scanned.
pub fn resolve_start_cursor(store: &mut ProgressStore, chain: u64, latest: u64) -> (r: Result<
    u64,
    AppErr,
>)
    requires
        old(store).wf(),
    ensures
        final(store).wf(),
        final(store).sig_map() == old(store).sig_map(),
        old(store).settings_map().contains_key(Setting::EvmScannedBlock(chain)) ==> {
            &&& final(store).settings_map() == old(store).settings_map()
            &&& r == spec_cursor_from_text(
                old(store).settings_map()[Setting::EvmScannedBlock(chain)],
            )
        },
        !old(store).settings_map().contains_key(Setting::EvmScannedBlock(chain)) ==> {
            &&& r == Ok::<u64, AppErr>(latest)
            &&& final(store).settings_map() == old(store).settings_map().insert(
                Setting::EvmScannedBlock(chain),
                dec_seq(latest as nat),
            )
        },
{
    match store.get(Setting::EvmScannedBlock(chain)) {
        Some(text) => match parse_u64_decimal(text.as_str()) {
            Some(v) => Ok(v),
            None => Err(AppErr::DecodeFailure),
        },
        None => {
            let value = u64_to_decimal(latest);
            match store.insert(Setting::EvmScannedBlock(chain), value) {
                Ok(_) => Ok(latest),
                Err(e) => Err(e),
            }
        },
    }
}

/// How a persisted cursor value reads back: the decimal number it holds, or
/// a decode failure when the text is not a block number.
pub open spec fn spec_cursor_from_text(text: Seq<char>) -> Result<u64, AppErr> {
    if text.len() >= 1 && all_dec_digits(text) && dec_value(text) <= u64::MAX {
        Ok(dec_value(text) as u64)
    } else {
        Err(AppErr::DecodeFailure)
    }
}

/// Restart safety: a cursor persisted by `record_scan_success` reads back
/// unchanged on the next run, so scanning resumes exactly one block past the
/// pre-shutdown watermark and never regresses.
pub proof fn lemma_cursor_restart_round_trip(n: u64)
    ensures
        spec_cursor_from_text(dec_seq(n as nat)) == Ok::<u64, AppErr>(n),
{
    crate::text::lemma_decimal_round_trip(n);
}

/// Records a fully processed range: the cursor moves to one block past it
/// and is persisted under the chain's slot.  Called only after every log of
/// the range was handled, so a crash before it merely re-scans the range.
pub fn record_scan_success(store: &mut ProgressStore, chain: u64, to: u64) -> (next: u64)
    requires
        old(store).wf(),
        to < u64::MAX,
    ensures
        next == to + 1,
        final(store).wf(),
        final(store).sig_map() == old(store).sig_map(),
        old(store).settings_map().contains_key(Setting::EvmScannedBlock(chain))
            ==> final(store).settings_map() == old(store).settings_map().insert(
            Setting::EvmScannedBlock(chain),
            dec_seq((to + 1) as nat),
        ),
        !old(store).settings_map().contains_key(Setting::EvmScannedBlock(chain))
            ==> *final(store) == *old(store),
{
    let next = to + 1;
    let value = u64_to_decimal(next);
    store.set(Setting::EvmScannedBlock(chain), value);
    next
}

} // verus!
