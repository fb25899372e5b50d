//! DPI scale decisions.
//!
//! The scaling service exposes, per display source, one descriptor of
//! three indices relative to a hardware-recommended ladder position:
//! `min_rel` steps down to the minimum, `cur_rel` to the current value,
//! `max_rel` up to the maximum. The recommended position in the fixed
//! percentage ladder equals `-min_rel`. Everything here computes over
//! such a descriptor once read; reading it and issuing the relative
//! "set" packet is the caller's device edge.

use vstd::prelude::*;
use crate::displays::{ControlError, ScaleInfo};
use crate::edid::{low, lower_string_bytes};
use crate::text::{
    contains_bytes, find_byte, lemma_rest_after_at, lemma_rest_after_none, prefix_to, rest_after,
    seq_contains, trim_at_byte,
};

verus! {

/// The fixed ordered ladder of selectable scale percentages.
pub open spec fn ladder() -> Seq<u32> {
    seq![100u32, 125u32, 150u32, 175u32, 200u32, 225u32, 250u32, 300u32, 350u32, 400u32, 450u32, 500u32]
}

/// Ladder entry at a position.
pub fn ladder_at(i: usize) -> (r: u32)
    requires
        i < 12,
    ensures
        r == ladder()[i as int],
{
    if i == 0 {
        100
    } else if i == 1 {
        125
    } else if i == 2 {
        150
    } else if i == 3 {
        175
    } else if i == 4 {
        200
    } else if i == 5 {
        225
    } else if i == 6 {
        250
    } else if i == 7 {
        300
    } else if i == 8 {
        350
    } else if i == 9 {
        400
    } else if i == 10 {
        450
    } else {
        500
    }
}

/// Position of a percentage in the ladder, when it is a ladder entry.
pub open spec fn spec_ladder_index_of(p: u32) -> Option<int> {
    if p == 100 {
        Some(0int)
    } else if p == 125 {
        Some(1int)
    } else if p == 150 {
        Some(2int)
    } else if p == 175 {
        Some(3int)
    } else if p == 200 {
        Some(4int)
    } else if p == 225 {
        Some(5int)
    } else if p == 250 {
        Some(6int)
    } else if p == 300 {
        Some(7int)
    } else if p == 350 {
        Some(8int)
    } else if p == 400 {
        Some(9int)
    } else if p == 450 {
        Some(10int)
    } else if p == 500 {
        Some(11int)
    } else {
        None
    }
}

/// A ladder index found for a percentage points back at that percentage.
pub proof fn lemma_ladder_index_correct(p: u32)
    requires
        spec_ladder_index_of(p) is Some,
    ensures
        0 <= spec_ladder_index_of(p)->0 < 12,
        ladder()[spec_ladder_index_of(p)->0] == p,
{
}

/// Finds a percentage's ladder position.
pub fn ladder_index(percent: u32) -> (r: Option<usize>)
    ensures
        r is Some <==> spec_ladder_index_of(percent) is Some,
        r is Some ==> r->0 == spec_ladder_index_of(percent)->0,
{
    if percent == 100 {
        Some(0)
    } else if percent == 125 {
        Some(1)
    } else if percent == 150 {
        Some(2)
    } else if percent == 175 {
        Some(3)
    } else if percent == 200 {
        Some(4)
    } else if percent == 225 {
        Some(5)
    } else if percent == 250 {
        Some(6)
    } else if percent == 300 {
        Some(7)
    } else if percent == 350 {
        Some(8)
    } else if percent == 400 {
        Some(9)
    } else if percent == 450 {
        Some(10)
    } else if percent == 500 {
        Some(11)
    } else {
        None
    }
}

/// Recommended ladder position a descriptor denotes.
pub open spec fn spec_rec_idx(min_rel: i32) -> int {
    -(min_rel as int)
}

/// Clamps a ladder position into the ladder's bounds.
pub open spec fn clamp_idx(i: int) -> int {
    if i < 0 {
        0
    } else if i > 11 {
        11
    } else {
        i
    }
}

/// Lower end of the supported window: `recommended + min_rel` clamped
/// into the ladder, ends swapped when the descriptor inverts them.
pub open spec fn spec_window_lo(min_rel: i32, max_rel: i32) -> int {
    let a = clamp_idx(spec_rec_idx(min_rel) + min_rel);
    let b = clamp_idx(spec_rec_idx(min_rel) + max_rel);
    if a <= b {
        a
    } else {
        b
    }
}

/// Upper end of the supported window: `recommended + max_rel` clamped
/// into the ladder, ends swapped when the descriptor inverts them.
pub open spec fn spec_window_hi(min_rel: i32, max_rel: i32) -> int {
    let a = clamp_idx(spec_rec_idx(min_rel) + min_rel);
    let b = clamp_idx(spec_rec_idx(min_rel) + max_rel);
    if a <= b {
        b
    } else {
        a
    }
}

/// Recommended position clamped into the ladder, as tagged in the
/// options list.
pub open spec fn spec_rec_idx_clamped(min_rel: i32) -> int {
    let r = spec_rec_idx(min_rel);
    if r < 0 {
        0
    } else if r > 11 {
        11
    } else {
        r
    }
}

/// The options list a descriptor denotes: every ladder entry of the
/// supported window, tagged recommended exactly at the recommended
/// position.
pub open spec fn spec_scale_options(min_rel: i32, max_rel: i32) -> Seq<ScaleInfo> {
    let lo = spec_window_lo(min_rel, max_rel);
    let hi = spec_window_hi(min_rel, max_rel);
    Seq::new(
        (hi + 1 - lo) as nat,
        |k: int|
            ScaleInfo {
                percent: ladder()[lo + k],
                is_recommended: lo + k == spec_rec_idx_clamped(min_rel),
            },
    )
}

/// Computes the selectable scale options from one descriptor read. The
/// recommended ladder position is tagged whenever the window reaches
/// it.
pub fn scale_options_from_packet(min_rel: i32, cur_rel: i32, max_rel: i32) -> (r: Vec<ScaleInfo>)
    ensures
        r@ == spec_scale_options(min_rel, max_rel),
        (spec_window_lo(min_rel, max_rel) <= spec_rec_idx_clamped(min_rel) <= spec_window_hi(
            min_rel,
            max_rel,
        )) ==> exists|k: int| 0 <= k < r@.len() && (#[trigger] r@[k]).is_recommended,
{
    let rec: i64 = -(min_rel as i64);
    let a: i64 = rec + (min_rel as i64);
    let a: i64 = if a < 0 {
        0
    } else if a > 11 {
        11
    } else {
        a
    };
    let b: i64 = rec + (max_rel as i64);
    let b: i64 = if b < 0 {
        0
    } else if b > 11 {
        11
    } else {
        b
    };
    let (lo, hi) = if a <= b {
        (a, b)
    } else {
        (b, a)
    };
    let rec_clamped: i64 = if rec < 0 {
        0
    } else if rec > 11 {
        11
    } else {
        rec
    };
    let mut r: Vec<ScaleInfo> = Vec::new();
    let mut idx: i64 = lo;
    while idx <= hi
        invariant
            lo == spec_window_lo(min_rel, max_rel),
            hi == spec_window_hi(min_rel, max_rel),
            0 <= lo <= idx <= hi + 1,
            hi <= 11,
            rec_clamped == spec_rec_idx_clamped(min_rel),
            r@.len() == idx - lo,
            forall|k: int| 0 <= k < r@.len() ==> r@[k] == (ScaleInfo {
                percent: ladder()[lo + k],
                is_recommended: lo + k == spec_rec_idx_clamped(min_rel),
            }),
        decreases hi + 1 - idx,
    {
        let percent = ladder_at(idx as usize);
        r.push(ScaleInfo { percent, is_recommended: idx == rec_clamped });
        idx = idx + 1;
    }
    proof {
        assert(r@ =~= spec_scale_options(min_rel, max_rel));
        if spec_window_lo(min_rel, max_rel) <= spec_rec_idx_clamped(min_rel) <= spec_window_hi(
            min_rel,
            max_rel,
        ) {
            lemma_options_tag_recommended(min_rel, max_rel);
            let k0 = choose|k: int|
                0 <= k < spec_scale_options(min_rel, max_rel).len() && (#[trigger] spec_scale_options(
                    min_rel,
                    max_rel,
                )[k]).is_recommended;
            assert(r@[k0].is_recommended);
        }
    }
    r
}

/// The relative step a scale change writes, when the request is valid:
/// the requested ladder position minus the recommended one.
pub open spec fn spec_plan_set_scale(min_rel: i32, max_rel: i32, percent: u32) -> Result<
    int,
    ControlError,
> {
    match spec_ladder_index_of(percent) {
        None => Err(ControlError::ScaleNotInLadder),
        Some(t) => {
            if t < spec_window_lo(min_rel, max_rel) || t > spec_window_hi(min_rel, max_rel) {
                Err(ControlError::ScaleOutOfRange)
            } else if t - spec_rec_idx(min_rel) > i32::MAX {
                // the relative step would not fit the descriptor's field
                Err(ControlError::ScaleOutOfRange)
            } else {
                Ok(t - spec_rec_idx(min_rel))
            }
        },
    }
}

/// Validates a requested scale percentage against one descriptor read
/// and computes the relative step to write. Requests that are not a
/// ladder entry, or fall outside the supported window, are rejected
/// before any device call.
pub fn plan_set_scale(min_rel: i32, max_rel: i32, percent: u32) -> (r: Result<i32, ControlError>)
    ensures
        r is Ok <==> spec_plan_set_scale(min_rel, max_rel, percent) is Ok,
        r is Ok ==> r->Ok_0 == spec_plan_set_scale(min_rel, max_rel, percent)->Ok_0,
        r is Err ==> r->Err_0 == spec_plan_set_scale(min_rel, max_rel, percent)->Err_0,
{
    let t: i64 = match ladder_index(percent) {
        None => {
            return Err(ControlError::ScaleNotInLadder);
        },
        Some(i) => i as i64,
    };
    let rec: i64 = -(min_rel as i64);
    let a: i64 = rec + (min_rel as i64);
    let a: i64 = if a < 0 {
        0
    } else if a > 11 {
        11
    } else {
        a
    };
    let b: i64 = rec + (max_rel as i64);
    let b: i64 = if b < 0 {
        0
    } else if b > 11 {
        11
    } else {
        b
    };
    let (lo, hi) = if a <= b {
        (a, b)
    } else {
        (b, a)
    };
    if t < lo || t > hi {
        return Err(ControlError::ScaleOutOfRange);
    }
    let rel: i64 = t - rec;
    if rel > i32::MAX as i64 {
        return Err(ControlError::ScaleOutOfRange);
    }
    Ok(rel as i32)
}

/// The absolute DPI value persisted after a successful scale change:
/// the percentage applied to the 96-DPI baseline.
pub fn persisted_dpi(percent: u32) -> (r: u32)
    requires
        spec_ladder_index_of(percent) is Some,
    ensures
        r == percent * 96 / 100,
{
    percent * 96 / 100
}

/// Scale percentage a monitor DPI reading denotes: the DPI against the
/// 96 baseline, clamped into the 50..400 band; a zero reading (no DPI
/// reported) falls back to 100.
pub open spec fn spec_scale_percent_from_dpi(dpi: u32) -> u32 {
    if dpi == 0 {
        100
    } else {
        let raw = dpi * 100 / 96;
        if raw < 50 {
            50
        } else if raw > 400 {
            400
        } else {
            raw as u32
        }
    }
}

/// Converts an effective-DPI reading to a scale percentage.
pub fn scale_percent_from_dpi(dpi: u32) -> (r: u32)
    ensures
        r == spec_scale_percent_from_dpi(dpi),
{
    if dpi == 0 {
        return 100;
    }
    let raw: u64 = (dpi as u64) * 100 / 96;
    if raw < 50 {
        50
    } else if raw > 400 {
        400
    } else {
        raw as u32
    }
}

/// The fragment of a monitor device path that keys its persisted
/// settings: what stands between the first and second `#` separators —
/// the manufacturer/product part of the path — lower-cased.
pub open spec fn spec_path_fragment(path: Seq<char>) -> Seq<u8> {
    prefix_to(rest_after(low(path), 35u8), 35u8)
}

/// Chooses the existing per-monitor settings subkey that receives the
/// persisted DPI value: the first whose name contains the device
/// path's manufacturer/product fragment, case-insensitively. Nothing
/// is chosen — and no key created — when the path has no such fragment
/// or no subkey matches; persistence is best-effort and its absence
/// does not fail the scale change.
pub fn select_scale_subkey(device_path: &String, existing: &Vec<String>) -> (r: Option<usize>)
    ensures
        r is Some ==> ({
            let frag = spec_path_fragment(device_path@);
            &&& r->0 < existing@.len()
            &&& frag.len() > 0
            &&& seq_contains(low(existing@[r->0 as int]@), frag)
            &&& forall|k: int|
                0 <= k < r->0 ==> !seq_contains(low(#[trigger] existing@[k]@), frag)
        }),
        r is None ==> ({
            let frag = spec_path_fragment(device_path@);
            frag.len() == 0 || forall|k: int|
                0 <= k < existing@.len() ==> !seq_contains(low(#[trigger] existing@[k]@), frag)
        }),
{
    let pl = lower_string_bytes(device_path);
    let frag: Vec<u8> = match find_byte(pl.as_slice(), 35) {
        None => {
            proof {
                lemma_rest_after_none(pl@, 35u8);
            }
            return None;
        },
        Some(p) => {
            proof {
                lemma_rest_after_at(pl@, 35u8, p as int);
            }
            let sl: &[u8] = pl.as_slice();
            let rest: &[u8] = &sl[p + 1..sl.len()];
            trim_at_byte(rest, 35)
        },
    };
    if frag.len() == 0 {
        return None;
    }
    let mut k: usize = 0;
    while k < existing.len()
        invariant
            k <= existing@.len(),
            frag@ == spec_path_fragment(device_path@),
            frag@.len() > 0,
            forall|j: int| 0 <= j < k ==> !seq_contains(low(#[trigger] existing@[j]@), frag@),
        decreases existing@.len() - k,
    {
        let name = lower_string_bytes(&existing[k]);
        if contains_bytes(name.as_slice(), frag.as_slice()) {
            return Some(k);
        }
        k = k + 1;
    }
    None
}

/// Round trip of the scale controller: a percentage accepted by
/// `plan_set_scale` against a descriptor is present in the options that
/// `scale_options_from_packet` reports for the same window.
pub proof fn lemma_scale_round_trip(min_rel: i32, max_rel: i32, percent: u32)
    requires
        spec_plan_set_scale(min_rel, max_rel, percent) is Ok,
    ensures
        exists|k: int|
            0 <= k < spec_scale_options(min_rel, max_rel).len() && (#[trigger] spec_scale_options(
                min_rel,
                max_rel,
            )[k]).percent == percent,
{
    let t = spec_ladder_index_of(percent)->0;
    lemma_ladder_index_correct(percent);
    let lo = spec_window_lo(min_rel, max_rel);
    let hi = spec_window_hi(min_rel, max_rel);
    assert(lo <= t <= hi);
    let k = t - lo;
    assert(spec_scale_options(min_rel, max_rel)[k].percent == percent);
}

/// The options list always tags the recommended ladder position, as
/// long as the window is not empty.
pub proof fn lemma_options_tag_recommended(min_rel: i32, max_rel: i32)
    requires
        spec_window_lo(min_rel, max_rel) <= spec_rec_idx_clamped(min_rel) <= spec_window_hi(
            min_rel,
            max_rel,
        ),
    ensures
        exists|k: int|
            0 <= k < spec_scale_options(min_rel, max_rel).len() && (#[trigger] spec_scale_options(
                min_rel,
                max_rel,
            )[k]).is_recommended,
{
    let lo = spec_window_lo(min_rel, max_rel);
    let k = spec_rec_idx_clamped(min_rel) - lo;
    assert(spec_scale_options(min_rel, max_rel)[k].is_recommended);
}

} // verus!
