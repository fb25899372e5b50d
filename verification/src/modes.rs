//! Video-mode decisions: deduplicated mode lists, native-mode selection
//! with its preferred-resolution fallback chain, picking the mode a
//! resolution change applies, and planning orientation changes.

use vstd::prelude::*;
use crate::displays::{ControlError, Resolution};

verus! {

/// Does the list hold this mode (structural equality on all fields)?
pub fn mode_list_contains(v: &Vec<Resolution>, m: Resolution) -> (r: bool)
    ensures
        r == v@.contains(m),
{
    let mut i: usize = 0;
    while i < v.len()
        invariant
            i <= v@.len(),
            forall|k: int| 0 <= k < i ==> v@[k] != m,
        decreases v@.len() - i,
    {
        if v[i] == m {
            assert(v@.contains(m));
            return true;
        }
        i = i + 1;
    }
    assert(!v@.contains(m));
    false
}

/// Builds a display's mode list from the advertised modes: duplicates
/// (by structural equality) collapse, and the current mode is present
/// whether or not the device advertised it.
pub fn build_mode_list(advertised: &Vec<Resolution>, current: Resolution) -> (r: Vec<Resolution>)
    ensures
        forall|i: int, j: int| 0 <= i < j < r@.len() ==> r@[i] != r@[j],
        r@.contains(current),
        forall|x: Resolution| #[trigger] r@.contains(x) <==> (advertised@.contains(x) || x
            == current),
{
    let mut r: Vec<Resolution> = Vec::new();
    let mut i: usize = 0;
    while i < advertised.len()
        invariant
            i <= advertised@.len(),
            forall|a: int, b: int| 0 <= a < b < r@.len() ==> r@[a] != r@[b],
            forall|x: Resolution| #[trigger] r@.contains(x) <==> advertised@.subrange(
                0,
                i as int,
            ).contains(x),
        decreases advertised@.len() - i,
    {
        let m = advertised[i];
        let ghost old_r = r@;
        let present = mode_list_contains(&r, m);
        if !present {
            r.push(m);
        }
        proof {
            let pre = advertised@.subrange(0, i as int);
            let post = advertised@.subrange(0, i + 1);
            assert(post =~= pre.push(advertised@[i as int]));
            assert forall|x: Resolution| #[trigger] post.contains(x) implies (pre.contains(x) || x
                == m) by {
                let k = choose|k: int| 0 <= k < post.len() && post[k] == x;
                if k < pre.len() {
                    assert(pre[k] == x);
                }
            }
            assert forall|x: Resolution| (pre.contains(x) || x == m) implies (
            #[trigger] post.contains(x)) by {
                if pre.contains(x) {
                    let k = choose|k: int| 0 <= k < pre.len() && pre[k] == x;
                    assert(post[k] == x);
                } else {
                    assert(post[pre.len() as int] == x);
                }
            }
            if !present {
                assert(r@ =~= old_r.push(m));
                assert forall|x: Resolution| #[trigger] r@.contains(x) implies (old_r.contains(x)
                    || x == m) by {
                    let k = choose|k: int| 0 <= k < r@.len() && r@[k] == x;
                    if k < old_r.len() {
                        assert(old_r[k] == x);
                    }
                }
                assert forall|x: Resolution| (old_r.contains(x) || x == m) implies (
                #[trigger] r@.contains(x)) by {
                    if old_r.contains(x) {
                        let k = choose|k: int| 0 <= k < old_r.len() && old_r[k] == x;
                        assert(r@[k] == x);
                    } else {
                        assert(r@[old_r.len() as int] == x);
                    }
                }
            }
        }
        i = i + 1;
    }
    proof {
        assert(advertised@.subrange(0, advertised@.len() as int) =~= advertised@);
    }
    let ghost base = r@;
    if !mode_list_contains(&r, current) {
        r.push(current);
        proof {
            assert forall|x: Resolution| #[trigger] r@.contains(x) implies (base.contains(x) || x
                == current) by {
                let k = choose|k: int| 0 <= k < r@.len() && r@[k] == x;
                if k < base.len() {
                    assert(base[k] == x);
                }
            }
            assert forall|x: Resolution| (base.contains(x) || x == current) implies (
            #[trigger] r@.contains(x)) by {
                if base.contains(x) {
                    let k = choose|k: int| 0 <= k < base.len() && base[k] == x;
                    assert(r@[k] == x);
                } else {
                    assert(r@[base.len() as int] == x);
                }
            }
        }
    }
    r
}

/// Modes whose width and height match, in list order.
pub open spec fn matching_modes(s: Seq<Resolution>, w: u32, h: u32) -> Seq<Resolution>
    decreases s.len(),
{
    if s.len() == 0 {
        Seq::empty()
    } else {
        matching_modes(s.drop_last(), w, h) + (if s.last().width == w && s.last().height == h {
            seq![s.last()]
        } else {
            Seq::empty()
        })
    }
}

/// Pixel area of a mode.
pub open spec fn mode_area(m: Resolution) -> int {
    m.width * m.height
}

/// The mode with the highest refresh rate, keeping the later entry on a
/// tie.
pub open spec fn pick_max_refresh(s: Seq<Resolution>) -> Resolution
    recommends
        s.len() > 0,
    decreases s.len(),
{
    if s.len() <= 1 {
        s[0]
    } else {
        let prev = pick_max_refresh(s.drop_last());
        if s.last().refresh_hz >= prev.refresh_hz {
            s.last()
        } else {
            prev
        }
    }
}

/// The mode with the largest pixel area, keeping the later entry on a
/// tie.
pub open spec fn pick_max_area(s: Seq<Resolution>) -> Resolution
    recommends
        s.len() > 0,
    decreases s.len(),
{
    if s.len() <= 1 {
        s[0]
    } else {
        let prev = pick_max_area(s.drop_last());
        if mode_area(s.last()) >= mode_area(prev) {
            s.last()
        } else {
            prev
        }
    }
}

/// The native mode chosen for a display: when a preferred resolution is
/// known, the advertised mode of that size with the highest refresh (or
/// a synthetic mode borrowing the current bit depth and refresh when
/// none is advertised); otherwise the largest-area advertised mode,
/// falling back to the current mode when nothing is advertised.
pub open spec fn spec_native_mode(
    modes: Seq<Resolution>,
    current: Resolution,
    preferred: Option<(u32, u32)>,
) -> Resolution {
    match preferred {
        Some(wh) => {
            let f = matching_modes(modes, wh.0, wh.1);
            if f.len() > 0 {
                pick_max_refresh(f)
            } else {
                Resolution {
                    width: wh.0,
                    height: wh.1,
                    bits_per_pixel: current.bits_per_pixel,
                    refresh_hz: current.refresh_hz,
                }
            }
        },
        None => {
            if modes.len() > 0 {
                pick_max_area(modes)
            } else {
                current
            }
        },
    }
}

/// A chosen maximum always comes from the list and dominates it.
pub proof fn lemma_pick_max_refresh_in(s: Seq<Resolution>)
    requires
        s.len() > 0,
    ensures
        s.contains(pick_max_refresh(s)),
        forall|i: int| 0 <= i < s.len() ==> s[i].refresh_hz <= pick_max_refresh(s).refresh_hz,
    decreases s.len(),
{
    if s.len() == 1 {
        assert(s[0] == pick_max_refresh(s));
    } else {
        lemma_pick_max_refresh_in(s.drop_last());
        let prev = pick_max_refresh(s.drop_last());
        let k = choose|k: int| 0 <= k < s.drop_last().len() && s.drop_last()[k] == prev;
        assert(s[k] == prev);
        if s.last().refresh_hz >= prev.refresh_hz {
            assert(s[s.len() - 1] == pick_max_refresh(s));
        }
        assert forall|i: int| 0 <= i < s.len() implies s[i].refresh_hz <= pick_max_refresh(
            s,
        ).refresh_hz by {
            if i < s.len() - 1 {
                assert(s.drop_last()[i] == s[i]);
            }
        }
    }
}

/// A chosen maximum always comes from the list and dominates it.
pub proof fn lemma_pick_max_area_in(s: Seq<Resolution>)
    requires
        s.len() > 0,
    ensures
        s.contains(pick_max_area(s)),
        forall|i: int| 0 <= i < s.len() ==> mode_area(s[i]) <= mode_area(pick_max_area(s)),
    decreases s.len(),
{
    if s.len() == 1 {
        assert(s[0] == pick_max_area(s));
    } else {
        lemma_pick_max_area_in(s.drop_last());
        let prev = pick_max_area(s.drop_last());
        let k = choose|k: int| 0 <= k < s.drop_last().len() && s.drop_last()[k] == prev;
        assert(s[k] == prev);
        if mode_area(s.last()) >= mode_area(prev) {
            assert(s[s.len() - 1] == pick_max_area(s));
        }
        assert forall|i: int| 0 <= i < s.len() implies mode_area(s[i]) <= mode_area(
            pick_max_area(s),
        ) by {
            if i < s.len() - 1 {
                assert(s.drop_last()[i] == s[i]);
            }
        }
    }
}

/// Filtered modes come from the list and have the asked-for size.
pub proof fn lemma_matching_modes_sub(s: Seq<Resolution>, w: u32, h: u32)
    ensures
        forall|x: Resolution|
            #[trigger] matching_modes(s, w, h).contains(x) ==> s.contains(x) && x.width == w
                && x.height == h,
    decreases s.len(),
{
    if s.len() > 0 {
        lemma_matching_modes_sub(s.drop_last(), w, h);
        assert forall|x: Resolution| #[trigger] matching_modes(s, w, h).contains(x) implies s.contains(
            x,
        ) && x.width == w && x.height == h by {
            let f = matching_modes(s, w, h);
            let fp = matching_modes(s.drop_last(), w, h);
            let k = choose|k: int| 0 <= k < f.len() && f[k] == x;
            if k < fp.len() {
                assert(f[k] == fp[k]);
                assert(fp.contains(x));
                let j = choose|j: int| 0 <= j < s.drop_last().len() && s.drop_last()[j] == x;
                assert(s.drop_last()[j] == s[j]);
                assert(s.contains(x));
            } else {
                assert(x == s.last());
                assert(s[s.len() - 1] == x);
            }
        }
    }
}

/// A first-with-refresh pick comes from the list.
proof fn lemma_first_with_hz_in(f: Seq<Resolution>, hz: u32)
    ensures
        first_with_hz(f, hz) matches Some(m) ==> f.contains(m) && m.refresh_hz == hz,
    decreases f.len(),
{
    if f.len() > 0 {
        lemma_first_with_hz_in(f.drop_last(), hz);
        if first_with_hz(f, hz) is Some {
            let m = first_with_hz(f, hz)->0;
            match first_with_hz(f.drop_last(), hz) {
                Some(p) => {
                    let j = choose|j: int| 0 <= j < f.drop_last().len() && f.drop_last()[j] == p;
                    assert(f[j] == p);
                },
                None => {
                    assert(f[f.len() - 1] == m);
                },
            }
        }
    }
}

/// A first-maximal-refresh pick comes from the list and dominates it.
proof fn lemma_pick_first_max_refresh_in(f: Seq<Resolution>)
    requires
        f.len() > 0,
    ensures
        f.contains(pick_first_max_refresh(f)),
        forall|i: int| 0 <= i < f.len() ==> f[i].refresh_hz <= pick_first_max_refresh(f).refresh_hz,
    decreases f.len(),
{
    if f.len() == 1 {
        assert(f[0] == pick_first_max_refresh(f));
    } else {
        lemma_pick_first_max_refresh_in(f.drop_last());
        let prev = pick_first_max_refresh(f.drop_last());
        let k = choose|k: int| 0 <= k < f.drop_last().len() && f.drop_last()[k] == prev;
        assert(f[k] == prev);
        if f.last().refresh_hz > prev.refresh_hz {
            assert(f[f.len() - 1] == pick_first_max_refresh(f));
        }
        assert forall|i: int| 0 <= i < f.len() implies f[i].refresh_hz <= pick_first_max_refresh(
            f,
        ).refresh_hz by {
            if i < f.len() - 1 {
                assert(f.drop_last()[i] == f[i]);
            }
        }
    }
}

proof fn lemma_area_fits_u64(w: u32, h: u32)
    ensures
        0 <= (w as int) * (h as int) <= u64::MAX,
{
    assert(0 <= (w as int) * (h as int) <= u64::MAX) by (nonlinear_arith)
        requires
            0 <= w <= u32::MAX,
            0 <= h <= u32::MAX,
    ;
}

fn matching_modes_exec(modes: &Vec<Resolution>, w: u32, h: u32) -> (r: Vec<Resolution>)
    ensures
        r@ == matching_modes(modes@, w, h),
{
    let mut r: Vec<Resolution> = Vec::new();
    let mut i: usize = 0;
    while i < modes.len()
        invariant
            i <= modes@.len(),
            r@ == matching_modes(modes@.subrange(0, i as int), w, h),
        decreases modes@.len() - i,
    {
        let m = modes[i];
        proof {
            assert(modes@.subrange(0, i + 1).drop_last() =~= modes@.subrange(0, i as int));
            assert(modes@.subrange(0, i + 1).last() == modes@[i as int]);
        }
        if m.width == w && m.height == h {
            r.push(m);
            assert(r@ =~= matching_modes(modes@.subrange(0, i + 1), w, h));
        } else {
            assert(r@ =~= matching_modes(modes@.subrange(0, i + 1), w, h));
        }
        i = i + 1;
    }
    proof {
        assert(modes@.subrange(0, modes@.len() as int) =~= modes@);
    }
    r
}

/// Chooses the native mode for a display. `preferred` is the
/// registry-stored preferred width and height when the device reports
/// one.
pub fn select_native_mode(
    modes: &Vec<Resolution>,
    current: Resolution,
    preferred: Option<(u32, u32)>,
) -> (r: Resolution)
    ensures
        r == spec_native_mode(modes@, current, preferred),
        // a known preferred size is always honored
        preferred matches Some(wh) ==> r.width == wh.0 && r.height == wh.1,
        // without one, the largest advertised area wins
        preferred is None && modes@.len() > 0 ==> modes@.contains(r) && (forall|i: int|
            0 <= i < modes@.len() ==> mode_area(modes@[i]) <= mode_area(r)),
{
    proof {
        match preferred {
            Some(wh) => {
                lemma_matching_modes_sub(modes@, wh.0, wh.1);
                if matching_modes(modes@, wh.0, wh.1).len() > 0 {
                    lemma_pick_max_refresh_in(matching_modes(modes@, wh.0, wh.1));
                }
            },
            None => {
                if modes@.len() > 0 {
                    lemma_pick_max_area_in(modes@);
                }
            },
        }
    }
    match preferred {
        Some(wh) => {
            let f = matching_modes_exec(modes, wh.0, wh.1);
            if f.len() == 0 {
                Resolution {
                    width: wh.0,
                    height: wh.1,
                    bits_per_pixel: current.bits_per_pixel,
                    refresh_hz: current.refresh_hz,
                }
            } else {
                let mut best = f[0];
                let mut i: usize = 1;
                while i < f.len()
                    invariant
                        1 <= i <= f@.len(),
                        best == pick_max_refresh(f@.subrange(0, i as int)),
                    decreases f@.len() - i,
                {
                    proof {
                        assert(f@.subrange(0, i + 1).drop_last() =~= f@.subrange(0, i as int));
                        assert(f@.subrange(0, i + 1).last() == f@[i as int]);
                    }
                    if f[i].refresh_hz >= best.refresh_hz {
                        best = f[i];
                    }
                    i = i + 1;
                }
                proof {
                    assert(f@.subrange(0, f@.len() as int) =~= f@);
                }
                best
            }
        },
        None => {
            if modes.len() == 0 {
                current
            } else {
                let mut best = modes[0];
                let mut i: usize = 1;
                while i < modes.len()
                    invariant
                        1 <= i <= modes@.len(),
                        best == pick_max_area(modes@.subrange(0, i as int)),
                    decreases modes@.len() - i,
                {
                    proof {
                        assert(modes@.subrange(0, i + 1).drop_last() =~= modes@.subrange(
                            0,
                            i as int,
                        ));
                        assert(modes@.subrange(0, i + 1).last() == modes@[i as int]);
                        lemma_area_fits_u64(modes@[i as int].width, modes@[i as int].height);
                        lemma_area_fits_u64(best.width, best.height);
                    }
                    let m = modes[i];
                    if (m.width as u64) * (m.height as u64) >= (best.width as u64) * (best.height
                        as u64) {
                        best = m;
                    }
                    i = i + 1;
                }
                proof {
                    assert(modes@.subrange(0, modes@.len() as int) =~= modes@);
                }
                best
            }
        },
    }
}

/// The first mode of the list with this exact refresh rate.
pub open spec fn first_with_hz(f: Seq<Resolution>, hz: u32) -> Option<Resolution>
    decreases f.len(),
{
    if f.len() == 0 {
        None
    } else {
        match first_with_hz(f.drop_last(), hz) {
            Some(m) => Some(m),
            None => {
                if f.last().refresh_hz == hz {
                    Some(f.last())
                } else {
                    None
                }
            },
        }
    }
}

/// The mode with the highest refresh rate, keeping the earlier entry on
/// a tie.
pub open spec fn pick_first_max_refresh(f: Seq<Resolution>) -> Resolution
    recommends
        f.len() > 0,
    decreases f.len(),
{
    if f.len() <= 1 {
        f[0]
    } else {
        let prev = pick_first_max_refresh(f.drop_last());
        if f.last().refresh_hz > prev.refresh_hz {
            f.last()
        } else {
            prev
        }
    }
}

/// The mode a resolution change applies: among advertised modes of the
/// requested size, the first with the requested refresh rate when one
/// is asked for, else the highest-refresh one (earliest on a tie).
pub open spec fn spec_change_mode(
    modes: Seq<Resolution>,
    w: u32,
    h: u32,
    refresh: Option<u32>,
) -> Option<Resolution> {
    let f = matching_modes(modes, w, h);
    match refresh {
        Some(hz) => first_with_hz(f, hz),
        None => {
            if f.len() > 0 {
                Some(pick_first_max_refresh(f))
            } else {
                None
            }
        },
    }
}

/// Selects the advertised mode a resolution change is to apply, and
/// rejects the request before any device call when no advertised mode
/// matches.
pub fn select_change_mode(modes: &Vec<Resolution>, width: u32, height: u32, refresh: Option<u32>)
    -> (r: Result<Resolution, ControlError>)
    ensures
        r is Ok <==> spec_change_mode(modes@, width, height, refresh) is Some,
        r is Ok ==> Some(r->Ok_0) == spec_change_mode(modes@, width, height, refresh),
        // the applied mode is always an advertised one of the asked-for size
        r is Ok ==> modes@.contains(r->Ok_0) && r->Ok_0.width == width && r->Ok_0.height
            == height,
        refresh matches Some(hz) ==> (r is Ok ==> r->Ok_0.refresh_hz == hz),
        r is Err ==> r->Err_0 == ControlError::UnsupportedResolution,
{
    proof {
        lemma_matching_modes_sub(modes@, width, height);
        match refresh {
            Some(hz) => {
                lemma_first_with_hz_in(matching_modes(modes@, width, height), hz);
            },
            None => {
                if matching_modes(modes@, width, height).len() > 0 {
                    lemma_pick_first_max_refresh_in(matching_modes(modes@, width, height));
                }
            },
        }
    }
    let f = matching_modes_exec(modes, width, height);
    match refresh {
        Some(hz) => {
            let mut i: usize = 0;
            while i < f.len()
                invariant
                    i <= f@.len(),
                    f@ == matching_modes(modes@, width, height),
                    refresh == Some(hz),
                    first_with_hz(f@.subrange(0, i as int), hz) is None,
                decreases f@.len() - i,
            {
                proof {
                    assert(f@.subrange(0, i + 1).drop_last() =~= f@.subrange(0, i as int));
                    assert(f@.subrange(0, i + 1).last() == f@[i as int]);
                }
                if f[i].refresh_hz == hz {
                    proof {
                        lemma_first_with_hz_extends(f@, hz, i + 1);
                        lemma_matching_modes_sub(modes@, width, height);
                        lemma_first_with_hz_in(f@, hz);
                    }
                    return Ok(f[i]);
                }
                i = i + 1;
            }
            proof {
                assert(f@.subrange(0, f@.len() as int) =~= f@);
            }
            Err(ControlError::UnsupportedResolution)
        },
        None => {
            if f.len() == 0 {
                Err(ControlError::UnsupportedResolution)
            } else {
                let mut best = f[0];
                let mut i: usize = 1;
                while i < f.len()
                    invariant
                        1 <= i <= f@.len(),
                        best == pick_first_max_refresh(f@.subrange(0, i as int)),
                    decreases f@.len() - i,
                {
                    proof {
                        assert(f@.subrange(0, i + 1).drop_last() =~= f@.subrange(0, i as int));
                        assert(f@.subrange(0, i + 1).last() == f@[i as int]);
                    }
                    if f[i].refresh_hz > best.refresh_hz {
                        best = f[i];
                    }
                    i = i + 1;
                }
                proof {
                    assert(f@.subrange(0, f@.len() as int) =~= f@);
                }
                Ok(best)
            }
        },
    }
}

/// Once a prefix holds a mode with the wanted refresh, every extension
/// settles on the same (earliest) pick.
proof fn lemma_first_with_hz_extends(f: Seq<Resolution>, hz: u32, i: int)
    requires
        0 <= i <= f.len(),
        first_with_hz(f.subrange(0, i), hz) is Some,
    ensures
        first_with_hz(f, hz) == first_with_hz(f.subrange(0, i), hz),
    decreases f.len() - i,
{
    if i == f.len() {
        assert(f.subrange(0, i) =~= f);
    } else {
        assert(f.subrange(0, i + 1).drop_last() =~= f.subrange(0, i));
        lemma_first_with_hz_extends(f, hz, i + 1);
    }
}

/// Orientation in degrees denoted by a device orientation code;
/// unrecognized codes fall back to 0.
pub open spec fn spec_orientation_from_code(code: u32) -> u32 {
    if code == 1 {
        90
    } else if code == 2 {
        180
    } else if code == 3 {
        270
    } else {
        0
    }
}

/// Maps a device orientation code (0..3) to degrees.
pub fn orientation_from_code(code: u32) -> (r: u32)
    ensures
        r == spec_orientation_from_code(code),
{
    if code == 1 {
        90
    } else if code == 2 {
        180
    } else if code == 3 {
        270
    } else {
        0
    }
}

/// Device orientation code for a requested angle, reduced modulo a full
/// turn; angles off the quarter-turn grid have no code.
pub open spec fn spec_code_from_degrees(degrees: u32) -> Option<u32> {
    let d = degrees % 360;
    if d == 0 {
        Some(0)
    } else if d == 90 {
        Some(1)
    } else if d == 180 {
        Some(2)
    } else if d == 270 {
        Some(3)
    } else {
        None
    }
}

/// Codes that swap a mode's width and height.
pub open spec fn is_rotated_code(code: u32) -> bool {
    code == 1 || code == 3
}

/// The device-mode update an orientation change applies.
#[derive(Clone, Copy, Debug, PartialEq, Eq, Structural)]
pub struct OrientationPlan {
    pub width: u32,
    pub height: u32,
    pub code: u32,
}

/// Width and height swap exactly when the new orientation's rotation
/// differs from the current one, so the visible geometry is kept.
pub open spec fn spec_orientation_plan(
    cur_w: u32,
    cur_h: u32,
    cur_code: u32,
    new_code: u32,
) -> OrientationPlan {
    if is_rotated_code(new_code) != is_rotated_code(cur_code) {
        OrientationPlan { width: cur_h, height: cur_w, code: new_code }
    } else {
        OrientationPlan { width: cur_w, height: cur_h, code: new_code }
    }
}

/// Plans an orientation change from the current device mode, rejecting
/// any angle off the quarter-turn grid before any device call.
pub fn plan_orientation_change(cur_w: u32, cur_h: u32, cur_code: u32, degrees: u32) -> (r: Result<
    OrientationPlan,
    ControlError,
>)
    ensures
        r is Ok <==> spec_code_from_degrees(degrees) is Some,
        r is Ok ==> r->Ok_0 == spec_orientation_plan(
            cur_w,
            cur_h,
            cur_code,
            spec_code_from_degrees(degrees)->0,
        ),
        r is Err ==> r->Err_0 == ControlError::InvalidOrientation,
{
    let d = degrees % 360;
    let new_code: u32 = if d == 0 {
        0
    } else if d == 90 {
        1
    } else if d == 180 {
        2
    } else if d == 270 {
        3
    } else {
        return Err(ControlError::InvalidOrientation);
    };
    let new_rotated = new_code == 1 || new_code == 3;
    let cur_rotated = cur_code == 1 || cur_code == 3;
    if new_rotated != cur_rotated {
        Ok(OrientationPlan { width: cur_h, height: cur_w, code: new_code })
    } else {
        Ok(OrientationPlan { width: cur_w, height: cur_h, code: new_code })
    }
}

/// Setting the same orientation twice in a row lands on the same final
/// geometry and orientation code as setting it once: the second plan
/// sees a current mode already in the requested rotation, so nothing
/// swaps again.
pub proof fn lemma_set_orientation_idempotent(
    cur_w: u32,
    cur_h: u32,
    cur_code: u32,
    degrees: u32,
)
    requires
        spec_code_from_degrees(degrees) is Some,
    ensures
        ({
            let c = spec_code_from_degrees(degrees)->0;
            let once = spec_orientation_plan(cur_w, cur_h, cur_code, c);
            spec_orientation_plan(once.width, once.height, once.code, c) == once
        }),
{
}

} // verus!
