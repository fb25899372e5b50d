//! Advanced-color (HDR) decision layer.
//!
//! The display-configuration service exposes, per active display path,
//! one "get advanced color info" word: bit 0 says the path supports
//! advanced color, bit 1 says it is enabled. Everything here computes
//! over those words after they have been read; issuing the query and
//! the "set advanced color state" packet is the caller's device edge.

use vstd::prelude::*;

verus! {

/// HDR state of a display: `On > Off > Unsupported` when several
/// physical outputs are aggregated.
#[derive(Clone, Copy, Debug, PartialEq, Eq, Structural)]
pub enum Status {
    Unsupported,
    Off,
    On,
}

/// Rank used by the "most-on" aggregation.
pub open spec fn status_rank(s: Status) -> int {
    match s {
        Status::Unsupported => 0,
        Status::Off => 1,
        Status::On => 2,
    }
}

/// One active display path's advanced-color query outcome: whether the
/// query succeeded, and the color-info word it returned.
#[derive(Clone, Copy, Debug, PartialEq, Eq, Structural)]
pub struct PathColorInfo {
    pub query_ok: bool,
    pub color_info: u32,
}

/// HDR status a single path's query outcome denotes.
pub open spec fn spec_path_status(p: PathColorInfo) -> Status {
    if !p.query_ok {
        Status::Unsupported
    } else if p.color_info & 0x1 == 0 {
        Status::Unsupported
    } else if p.color_info & 0x2 != 0 {
        Status::On
    } else {
        Status::Off
    }
}

/// Decodes one path's advanced-color query outcome. A failed query or a
/// clear support bit means unsupported; the enable bit only counts on a
/// supported path.
pub fn path_hdr_status(p: PathColorInfo) -> (r: Status)
    ensures
        r == spec_path_status(p),
{
    if !p.query_ok {
        Status::Unsupported
    } else if p.color_info & 0x1 == 0 {
        Status::Unsupported
    } else if p.color_info & 0x2 != 0 {
        Status::On
    } else {
        Status::Off
    }
}

/// Aggregate status of a whole path set: `On` as soon as one path is on,
/// else `Off` when at least one path supports advanced color, else
/// `Unsupported`.
pub open spec fn spec_aggregate_status(paths: Seq<PathColorInfo>) -> Status {
    if exists|i: int| 0 <= i < paths.len() && spec_path_status(#[trigger] paths[i]) == Status::On {
        Status::On
    } else if exists|i: int|
        0 <= i < paths.len() && spec_path_status(#[trigger] paths[i]) != Status::Unsupported {
        Status::Off
    } else {
        Status::Unsupported
    }
}

/// Overall HDR status across every active display path, taking the
/// most-on answer.
pub fn get_windows_hdr_status(paths: &Vec<PathColorInfo>) -> (r: Status)
    ensures
        r == spec_aggregate_status(paths@),
{
    let mut any_supported = false;
    let mut any_enabled = false;
    let mut i: usize = 0;
    while i < paths.len()
        invariant
            i <= paths@.len(),
            any_enabled == exists|k: int|
                0 <= k < i && spec_path_status(#[trigger] paths@[k]) == Status::On,
            any_supported == exists|k: int|
                0 <= k < i && spec_path_status(#[trigger] paths@[k]) != Status::Unsupported,
        decreases paths@.len() - i,
    {
        let s = path_hdr_status(paths[i]);
        if s != Status::Unsupported {
            any_supported = true;
        }
        if s == Status::On {
            any_enabled = true;
        }
        i = i + 1;
    }
    if any_supported {
        if any_enabled {
            Status::On
        } else {
            Status::Off
        }
    } else {
        Status::Unsupported
    }
}

/// "Most-on" combination: `On` beats `Off` beats `Unsupported`; on a tie
/// the newer outcome is kept (the value is the same either way).
pub open spec fn most_on(prev: Status, new: Status) -> Status {
    if status_rank(prev) > status_rank(new) {
        prev
    } else {
        new
    }
}

/// Fold of per-path set outcomes: `None` entries (paths skipped or whose
/// set call failed) are ignored, the rest combine most-on.
pub open spec fn spec_fold_outcomes(s: Seq<Option<Status>>) -> Option<Status>
    decreases s.len(),
{
    if s.len() == 0 {
        None
    } else {
        let prev = spec_fold_outcomes(s.drop_last());
        match s.last() {
            None => prev,
            Some(st) => match prev {
                None => Some(st),
                Some(p) => Some(most_on(p, st)),
            },
        }
    }
}

proof fn lemma_fold_outcomes_some(s: Seq<Option<Status>>)
    ensures
        spec_fold_outcomes(s) is Some <==> exists|i: int| 0 <= i < s.len() && s[i] is Some,
    decreases s.len(),
{
    if s.len() > 0 {
        lemma_fold_outcomes_some(s.drop_last());
        if s.last() is Some {
            assert(s[s.len() - 1] is Some);
        } else if spec_fold_outcomes(s.drop_last()) is Some {
            let i = choose|i: int| 0 <= i < s.drop_last().len() && s.drop_last()[i] is Some;
            assert(s[i] is Some);
        } else {
            assert forall|i: int| 0 <= i < s.len() implies !(s[i] is Some) by {
                if i < s.len() - 1 {
                    assert(s.drop_last()[i] is None);
                }
            }
        }
    }
}

/// Whether a set call is to be issued on a path at all: never on an
/// unsupported path. Returns the `enableAdvancedColor` word to write.
pub fn set_display_hdr_plan(p: PathColorInfo, enable: bool) -> (r: Option<u32>)
    ensures
        r is Some <==> spec_path_status(p) != Status::Unsupported,
        r is Some ==> r->0 == (if enable { 1u32 } else { 0u32 }),
{
    if path_hdr_status(p) == Status::Unsupported {
        None
    } else if enable {
        Some(1)
    } else {
        Some(0)
    }
}

/// Combines the per-path outcomes of one "set advanced color on every
/// path" pass; each entry is the status re-read after a successful set,
/// or `None` where the path was skipped or the set call failed.
pub fn set_windows_hdr_status(outcomes: &Vec<Option<Status>>) -> (r: Option<Status>)
    ensures
        r == spec_fold_outcomes(outcomes@),
        r is Some <==> exists|i: int| 0 <= i < outcomes@.len() && outcomes@[i] is Some,
{
    let mut result: Option<Status> = None;
    let mut i: usize = 0;
    while i < outcomes.len()
        invariant
            i <= outcomes@.len(),
            result == spec_fold_outcomes(outcomes@.subrange(0, i as int)),
        decreases outcomes@.len() - i,
    {
        match outcomes[i] {
            Some(st) => {
                result = match result {
                    None => Some(st),
                    Some(p) => {
                        if status_rank_exec(p) > status_rank_exec(st) {
                            Some(p)
                        } else {
                            Some(st)
                        }
                    },
                };
            },
            None => {},
        }
        proof {
            assert(outcomes@.subrange(0, i + 1).drop_last() =~= outcomes@.subrange(0, i as int));
        }
        i = i + 1;
    }
    proof {
        assert(outcomes@.subrange(0, outcomes@.len() as int) =~= outcomes@);
        lemma_fold_outcomes_some(outcomes@);
    }
    result
}

/// Executable rank mirroring [`status_rank`].
fn status_rank_exec(s: Status) -> (r: u32)
    ensures
        r == status_rank(s),
{
    match s {
        Status::Unsupported => 0,
        Status::Off => 1,
        Status::On => 2,
    }
}

/// Decides what a toggle does from the current path set: report
/// unsupported without any device call, or set every path to the
/// opposite of the aggregate state.
pub fn toggle_hdr_status(paths: &Vec<PathColorInfo>) -> (r: Option<bool>)
    ensures
        r is Some <==> spec_aggregate_status(paths@) != Status::Unsupported,
        r is Some ==> r->0 == (spec_aggregate_status(paths@) == Status::Off),
{
    match get_windows_hdr_status(paths) {
        Status::Unsupported => None,
        Status::Off => Some(true),
        Status::On => Some(false),
    }
}

/// Whether (and with which word) a set call is to be issued for the
/// display at `target_index`, counting active paths in enumeration
/// order. `None` when the index is out of range or the path does not
/// support advanced color.
pub fn set_hdr_status_by_index(paths: &Vec<PathColorInfo>, target_index: usize, enable: bool) -> (r:
    Option<u32>)
    ensures
        r is Some <==> target_index < paths@.len() && spec_path_status(paths@[target_index as int])
            != Status::Unsupported,
        r is Some ==> r->0 == (if enable { 1u32 } else { 0u32 }),
{
    if target_index < paths.len() {
        set_display_hdr_plan(paths[target_index], enable)
    } else {
        None
    }
}

/// Everything read about one active display path that the listing needs:
/// the advanced-color query, the target-name query, and the target-base
/// query used for the fallback name.
#[derive(Clone, Debug)]
pub struct PathProbe {
    pub color: PathColorInfo,
    pub name_query_ok: bool,
    pub friendly_name: String,
    pub base_query_ok: bool,
    pub base_output_technology: u32,
}

/// One display as the HDR layer reports it.
#[derive(Clone, Debug)]
pub struct Display {
    pub name: String,
    pub status: Status,
}

/// Output technology word meaning "other" in a target-base query.
pub const OUTPUT_TECHNOLOGY_OTHER: u32 = 0xFFFFFFFF;

/// Bit flag marking an internal connector in a target-base query.
pub const OUTPUT_TECHNOLOGY_INTERNAL: u32 = 0x80000000;

/// Name used when the base query marks the connector internal.
pub open spec fn spec_fallback_name(base_query_ok: bool, tech: u32) -> Seq<char> {
    if base_query_ok && tech != OUTPUT_TECHNOLOGY_OTHER && tech & OUTPUT_TECHNOLOGY_INTERNAL != 0 {
        "Internal Display"@
    } else {
        "Unnamed"@
    }
}

/// Display name for a probe: the friendly name when the name query
/// succeeded with a non-empty string, else the fallback name.
pub open spec fn spec_display_name(p: PathProbe) -> Seq<char> {
    if p.name_query_ok && p.friendly_name@.len() > 0 {
        p.friendly_name@
    } else {
        spec_fallback_name(p.base_query_ok, p.base_output_technology)
    }
}

/// Fallback display name from the target-base query outcome.
pub fn get_fallback_display_name(base_query_ok: bool, tech: u32) -> (r: String)
    ensures
        r@ == spec_fallback_name(base_query_ok, tech),
{
    if base_query_ok && tech != OUTPUT_TECHNOLOGY_OTHER && tech & OUTPUT_TECHNOLOGY_INTERNAL != 0 {
        "Internal Display".to_owned()
    } else {
        "Unnamed".to_owned()
    }
}

/// Assembles the per-display HDR listing from one pass of path probes,
/// in path order.
pub fn get_displays(paths: &Vec<PathProbe>) -> (r: Vec<Display>)
    ensures
        r@.len() == paths@.len(),
        forall|i: int| 0 <= i < paths@.len() ==> (#[trigger] r@[i]).status == spec_path_status(
            paths@[i].color,
        ),
        forall|i: int| 0 <= i < paths@.len() ==> (#[trigger] r@[i]).name@ == spec_display_name(
            paths@[i],
        ),
{
    let mut out: Vec<Display> = Vec::new();
    let mut i: usize = 0;
    while i < paths.len()
        invariant
            i <= paths@.len(),
            out@.len() == i,
            forall|k: int| 0 <= k < i ==> (#[trigger] out@[k]).status == spec_path_status(
                paths@[k].color,
            ),
            forall|k: int| 0 <= k < i ==> (#[trigger] out@[k]).name@ == spec_display_name(
                paths@[k],
            ),
        decreases paths@.len() - i,
    {
        let p = &paths[i];
        let status = path_hdr_status(p.color);
        let name = if p.name_query_ok && !p.friendly_name.as_str().is_empty() {
            p.friendly_name.clone()
        } else {
            get_fallback_display_name(p.base_query_ok, p.base_output_technology)
        };
        out.push(Display { name, status });
        i = i + 1;
    }
    out
}

} // verus!
