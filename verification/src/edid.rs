//! EDID identity correlation.
//!
//! One enumeration pass fetches a pool of EDID metadata candidates and
//! assigns at most one to each display, preferring higher-confidence
//! matches: instance-identifier containment against the display's
//! device identifier (directly, then by the vendor/product fragment of
//! the instance name), then case-insensitive model or manufacturer
//! containment against the friendly name or device identifier, then
//! plain enumeration order. The assignment is a pure function of the
//! two lists, and never hands one candidate to two displays.

use vstd::prelude::*;
use vstd::string::StringSliceAdditionalSpecFns;
use crate::text::{
    ascii_lower, contains_bytes, dec_digits_u64, find_byte, lemma_dec_digits_ascii,
    lemma_rest_after_at, lemma_rest_after_none, lower_seq, prefix_to, push_bytes, push_str_bytes,
    rest_after, seq_contains, spec_dec_digits, trim_at_byte, utf8_lossy,
};

verus! {

/// One EDID metadata candidate; missing fields are empty strings,
/// zeros, or `None`.
#[derive(Clone, Debug)]
pub struct EdidEntry {
    pub manufacturer: String,
    pub model: String,
    pub serial: String,
    pub product_code: String,
    pub week_of_manufacture: u32,
    pub year_of_manufacture: u32,
    pub instance_name: Option<String>,
    pub video_output_technology: Option<u32>,
    pub active: Option<bool>,
}

/// What a display contributes to the correlation: its human-readable
/// name and its low-level device identifier.
#[derive(Clone, Debug)]
pub struct IdentityKey {
    pub friendly_name: String,
    pub device_id: String,
}

/// Lower-cased UTF-8 bytes of a string view.
pub open spec fn low(s: Seq<char>) -> Seq<u8> {
    lower_seq(vstd::utf8::encode_utf8(s))
}

/// The vendor/product fragment of an instance name: what stands
/// between its first and second backslashes.
pub open spec fn instance_frag(inst: Seq<u8>) -> Seq<u8> {
    prefix_to(rest_after(inst, 92u8), 92u8)
}

/// High-confidence match: the instance name and the device identifier
/// contain one another (device identifiers start with differing
/// `MONITOR\` or `DISPLAY\` roots, so containment is checked both
/// ways), or the device identifier contains the instance name's
/// vendor/product fragment.
pub open spec fn tier1_match(key: IdentityKey, e: EdidEntry) -> bool {
    match e.instance_name {
        Some(inst) => {
            let il = low(inst@);
            let dl = low(key.device_id@);
            ||| (il.len() > 0 && (seq_contains(dl, il) || seq_contains(il, dl)))
            ||| (instance_frag(il).len() > 0 && seq_contains(dl, instance_frag(il)))
        },
        None => false,
    }
}

/// Fallback match: the candidate's model or manufacturer occurs in the
/// display's friendly name or device identifier, case-insensitively.
pub open spec fn tier2_match(key: IdentityKey, e: EdidEntry) -> bool {
    let fl = low(key.friendly_name@);
    let dl = low(key.device_id@);
    let ml = low(e.model@);
    let mf = low(e.manufacturer@);
    ||| (ml.len() > 0 && (seq_contains(fl, ml) || seq_contains(dl, ml)))
    ||| (mf.len() > 0 && (seq_contains(fl, mf) || seq_contains(dl, mf)))
}

/// First still-unused candidate from position `i` on that satisfies
/// `pred`.
pub open spec fn first_match(
    entries: Seq<EdidEntry>,
    used: Seq<bool>,
    pred: spec_fn(EdidEntry) -> bool,
    i: int,
) -> Option<int>
    decreases entries.len() - i,
{
    if i < 0 || i >= entries.len() {
        None
    } else if !used[i] && pred(entries[i]) {
        Some(i)
    } else {
        first_match(entries, used, pred, i + 1)
    }
}

/// The candidate chosen for one display: the first unused
/// high-confidence match, else the first unused fallback match, else
/// the first unused candidate in pool order.
pub open spec fn pick_for(key: IdentityKey, entries: Seq<EdidEntry>, used: Seq<bool>) -> Option<
    int,
> {
    match first_match(entries, used, |e: EdidEntry| tier1_match(key, e), 0) {
        Some(j) => Some(j),
        None => match first_match(entries, used, |e: EdidEntry| tier2_match(key, e), 0) {
            Some(j) => Some(j),
            None => first_match(entries, used, |e: EdidEntry| true, 0),
        },
    }
}

/// Assignments for the displays from position `i` on, consuming
/// candidates as it goes.
pub open spec fn assign_from(
    keys: Seq<IdentityKey>,
    entries: Seq<EdidEntry>,
    used: Seq<bool>,
    i: int,
) -> Seq<Option<int>>
    decreases keys.len() - i,
{
    if i < 0 || i >= keys.len() {
        Seq::empty()
    } else {
        let c = pick_for(keys[i], entries, used);
        let used2 = match c {
            Some(j) => used.update(j, true),
            None => used,
        };
        seq![c] + assign_from(keys, entries, used2, i + 1)
    }
}

/// The candidate assignment one enumeration pass makes: an index into
/// the candidate pool for each display, or `None` once the pool is
/// exhausted.
pub open spec fn spec_assign(keys: Seq<IdentityKey>, entries: Seq<EdidEntry>) -> Seq<Option<int>> {
    assign_from(keys, entries, Seq::new(entries.len(), |k: int| false), 0)
}

proof fn lemma_first_match_props(
    entries: Seq<EdidEntry>,
    used: Seq<bool>,
    pred: spec_fn(EdidEntry) -> bool,
    i: int,
)
    requires
        used.len() == entries.len(),
    ensures
        first_match(entries, used, pred, i) matches Some(j) ==> i <= j < entries.len() && !used[j]
            && pred(entries[j]),
    decreases entries.len() - i,
{
    if 0 <= i < entries.len() {
        lemma_first_match_props(entries, used, pred, i + 1);
    }
}

proof fn lemma_first_match_complete(
    entries: Seq<EdidEntry>,
    used: Seq<bool>,
    pred: spec_fn(EdidEntry) -> bool,
    i: int,
)
    requires
        used.len() == entries.len(),
        0 <= i,
    ensures
        (exists|j: int| i <= j < entries.len() && !used[j] && pred(#[trigger] entries[j]))
            ==> first_match(entries, used, pred, i) is Some,
    decreases entries.len() - i,
{
    if 0 <= i < entries.len() {
        lemma_first_match_complete(entries, used, pred, i + 1);
        if exists|j: int| i <= j < entries.len() && !used[j] && pred(#[trigger] entries[j]) {
            let j = choose|j: int| i <= j < entries.len() && !used[j] && pred(
                #[trigger] entries[j],
            );
            if !(!used[i] && pred(entries[i]))  {
                assert(i + 1 <= j < entries.len() && !used[j] && pred(entries[j]));
            }
        }
    }
}

/// The correlator prefers higher-confidence matches: as long as an
/// unused instance-identifier match exists it is chosen; otherwise an
/// unused model/manufacturer match when one exists; otherwise any
/// unused candidate; and a display goes without metadata only once the
/// pool is exhausted.
pub proof fn lemma_pick_prefers_confidence(
    key: IdentityKey,
    entries: Seq<EdidEntry>,
    used: Seq<bool>,
)
    requires
        used.len() == entries.len(),
    ensures
        (exists|j: int|
            0 <= j < entries.len() && !used[j] && tier1_match(key, #[trigger] entries[j])) ==> ({
            let p = pick_for(key, entries, used);
            p is Some && tier1_match(key, entries[p->0])
        }),
        (!(exists|j: int|
            0 <= j < entries.len() && !used[j] && tier1_match(key, #[trigger] entries[j]))
            && (exists|j: int|
            0 <= j < entries.len() && !used[j] && tier2_match(key, #[trigger] entries[j]))) ==> ({
            let p = pick_for(key, entries, used);
            p is Some && tier2_match(key, entries[p->0])
        }),
        (exists|j: int| 0 <= j < entries.len() && !(#[trigger] used[j])) ==> pick_for(
            key,
            entries,
            used,
        ) is Some,
{
    let t1 = |e: EdidEntry| tier1_match(key, e);
    let t2 = |e: EdidEntry| tier2_match(key, e);
    let t3 = |e: EdidEntry| true;
    lemma_first_match_complete(entries, used, t1, 0);
    lemma_first_match_complete(entries, used, t2, 0);
    lemma_first_match_complete(entries, used, t3, 0);
    lemma_first_match_props(entries, used, t1, 0);
    lemma_first_match_props(entries, used, t2, 0);
    lemma_first_match_props(entries, used, t3, 0);
    if exists|j: int| 0 <= j < entries.len() && !(#[trigger] used[j]) {
        let j = choose|j: int| 0 <= j < entries.len() && !(#[trigger] used[j]);
        assert(t3(entries[j]));
    }
}

proof fn lemma_pick_for_props(key: IdentityKey, entries: Seq<EdidEntry>, used: Seq<bool>)
    requires
        used.len() == entries.len(),
    ensures
        pick_for(key, entries, used) matches Some(j) ==> 0 <= j < entries.len() && !used[j],
{
    lemma_first_match_props(entries, used, |e: EdidEntry| tier1_match(key, e), 0);
    lemma_first_match_props(entries, used, |e: EdidEntry| tier2_match(key, e), 0);
    lemma_first_match_props(entries, used, |e: EdidEntry| true, 0);
}

proof fn lemma_assign_from_props(
    keys: Seq<IdentityKey>,
    entries: Seq<EdidEntry>,
    used: Seq<bool>,
    i: int,
)
    requires
        used.len() == entries.len(),
        0 <= i <= keys.len(),
    ensures
        ({
            let r = assign_from(keys, entries, used, i);
            &&& r.len() == keys.len() - i
            &&& forall|k: int|
                0 <= k < r.len() && (#[trigger] r[k]) is Some ==> 0 <= r[k]->0 < entries.len()
                    && !used[r[k]->0]
            &&& forall|k1: int, k2: int|
                #![trigger r[k1], r[k2]]
                0 <= k1 < k2 < r.len() && r[k1] is Some && r[k2] is Some ==> r[k1]->0 != r[k2]->0
        }),
    decreases keys.len() - i,
{
    if i == keys.len() {
    } else {
        let c = pick_for(keys[i], entries, used);
        lemma_pick_for_props(keys[i], entries, used);
        let used2 = match c {
            Some(j) => used.update(j, true),
            None => used,
        };
        lemma_assign_from_props(keys, entries, used2, i + 1);
        let r = assign_from(keys, entries, used, i);
        let tail = assign_from(keys, entries, used2, i + 1);
        assert(r == seq![c] + tail);
        assert(r[0] == c);
        assert forall|k: int| 1 <= k < r.len() implies r[k] == tail[k - 1] by {}
        assert forall|k: int| 0 <= k < r.len() && (#[trigger] r[k]) is Some implies 0 <= r[k]->0
            < entries.len() && !used[r[k]->0] by {
            if k == 0 {
            } else {
                assert(tail[k - 1] is Some);
                assert(!used2[tail[k - 1]->0]);
                if c is Some {
                    assert(used[r[k]->0] == used2[r[k]->0] || r[k]->0 == c->0);
                }
            }
        }
        assert forall|k1: int, k2: int|
            #![trigger r[k1], r[k2]]
            0 <= k1 < k2 < r.len() && r[k1] is Some && r[k2] is Some implies r[k1]->0
            != r[k2]->0 by {
            if k1 == 0 {
                assert(tail[k2 - 1] is Some);
                assert(!used2[tail[k2 - 1]->0]);
                assert(used2[c->0]);
            } else {
                assert(tail[k1 - 1] is Some && tail[k2 - 1] is Some);
            }
        }
    }
}

/// Across one enumeration pass, every assigned candidate index is in
/// range and no two displays are assigned the same candidate.
pub proof fn lemma_edid_assignment_injective(keys: Seq<IdentityKey>, entries: Seq<EdidEntry>)
    ensures
        spec_assign(keys, entries).len() == keys.len(),
        forall|k: int|
            0 <= k < keys.len() && (#[trigger] spec_assign(keys, entries)[k]) is Some ==> 0
                <= spec_assign(keys, entries)[k]->0 < entries.len(),
        forall|k1: int, k2: int|
            #![trigger spec_assign(keys, entries)[k1], spec_assign(keys, entries)[k2]]
            0 <= k1 < k2 < keys.len() && spec_assign(keys, entries)[k1] is Some && spec_assign(
                keys,
                entries,
            )[k2] is Some ==> spec_assign(keys, entries)[k1]->0 != spec_assign(keys, entries)[k2]->0,
{
    lemma_assign_from_props(keys, entries, Seq::new(entries.len(), |k: int| false), 0);
}

/// Label of an output-technology code; `None` stands for a code with
/// no label (unknown), which callers render as such.
pub open spec fn spec_connection_label(code: u32) -> Option<Seq<char>> {
    if code == 0 {
        Some("VGA"@)
    } else if code == 1 {
        Some("S-Video"@)
    } else if code == 2 {
        Some("Composite"@)
    } else if code == 3 {
        Some("Component"@)
    } else if code == 4 {
        Some("DVI"@)
    } else if code == 5 {
        Some("HDMI"@)
    } else if code == 6 {
        Some("LVDS / MIPI-DSI"@)
    } else if code == 8 {
        Some("D-Jpn"@)
    } else if code == 9 {
        Some("SDI"@)
    } else if code == 10 {
        Some("DisplayPort (external)"@)
    } else if code == 11 {
        Some("DisplayPort (embedded)"@)
    } else if code == 12 {
        Some("UDI (external)"@)
    } else if code == 13 {
        Some("UDI (embedded)"@)
    } else if code == 14 {
        Some("SDTV dongle"@)
    } else if code == 15 {
        Some("Miracast (wireless)"@)
    } else if code == 16 {
        Some("Indirect (wired)"@)
    } else if code == 0x80000000 {
        Some("Internal (adapter)"@)
    } else {
        None
    }
}

/// The label reported for a code outside the fixed table: `Unknown (n)`
/// with the code rendered in decimal.
pub open spec fn spec_unknown_label(code: u32) -> Seq<char> {
    ("Unknown (".spec_bytes() + spec_dec_digits(code as int) + ")".spec_bytes()).map_values(
        |b: u8| b as char,
    )
}

/// Human-readable connection label for an output-technology code;
/// codes outside the fixed table carry the numeric code.
pub fn connection_label(code: u32) -> (r: String)
    ensures
        spec_connection_label(code) is Some ==> r@ == spec_connection_label(code)->0,
        spec_connection_label(code) is None ==> r@ == spec_unknown_label(code),
{
    if code == 0 {
        "VGA".to_owned()
    } else if code == 1 {
        "S-Video".to_owned()
    } else if code == 2 {
        "Composite".to_owned()
    } else if code == 3 {
        "Component".to_owned()
    } else if code == 4 {
        "DVI".to_owned()
    } else if code == 5 {
        "HDMI".to_owned()
    } else if code == 6 {
        "LVDS / MIPI-DSI".to_owned()
    } else if code == 8 {
        "D-Jpn".to_owned()
    } else if code == 9 {
        "SDI".to_owned()
    } else if code == 10 {
        "DisplayPort (external)".to_owned()
    } else if code == 11 {
        "DisplayPort (embedded)".to_owned()
    } else if code == 12 {
        "UDI (external)".to_owned()
    } else if code == 13 {
        "UDI (embedded)".to_owned()
    } else if code == 14 {
        "SDTV dongle".to_owned()
    } else if code == 15 {
        "Miracast (wireless)".to_owned()
    } else if code == 16 {
        "Indirect (wired)".to_owned()
    } else if code == 0x80000000 {
        "Internal (adapter)".to_owned()
    } else {
        let mut bytes: Vec<u8> = Vec::new();
        push_str_bytes(&mut bytes, "Unknown (");
        let digits = dec_digits_u64(code as u64);
        push_bytes(&mut bytes, digits.as_slice());
        push_str_bytes(&mut bytes, ")");
        proof {
            reveal_strlit("Unknown (");
            reveal_strlit(")");
            vstd::string::is_ascii_spec_bytes("Unknown (");
            vstd::string::is_ascii_spec_bytes(")");
            lemma_dec_digits_ascii(code as int);
            let h = "Unknown (".spec_bytes();
            let d = spec_dec_digits(code as int);
            let t = ")".spec_bytes();
            assert(bytes@ =~= h + d + t);
            assert forall|i: int| 0 <= i < bytes@.len() implies bytes@[i] < 128 by {
                if i < h.len() {
                    assert(bytes@[i] == h[i]);
                } else if i < h.len() + d.len() {
                    assert(bytes@[i] == d[i - h.len()]);
                } else {
                    assert(bytes@[i] == t[i - h.len() - d.len()]);
                }
            }
        }
        let r = utf8_lossy(&bytes);
        proof {
            assert(r@ =~= spec_unknown_label(code));
        }
        r
    }
}

/// Output-technology codes that mark a built-in panel: LVDS/MIPI-DSI,
/// embedded DisplayPort, embedded UDI, and the internal-adapter flag.
pub open spec fn spec_built_in(code: u32) -> bool {
    code == 6 || code == 11 || code == 13 || code == 0x80000000
}

/// Does an output-technology code mark a built-in panel?
pub fn built_in_code(code: u32) -> (r: bool)
    ensures
        r == spec_built_in(code),
{
    code == 6 || code == 11 || code == 13 || code == 0x80000000
}

/// Lower-cased UTF-8 bytes of a string.
pub fn lower_string_bytes(s: &String) -> (r: Vec<u8>)
    ensures
        r@ == low(s@),
{
    let r = ascii_lower(s.as_str().as_bytes());
    proof {
        assert(r@ =~= low(s@));
    }
    r
}

fn tier1_match_exec(key: &IdentityKey, e: &EdidEntry) -> (r: bool)
    ensures
        r == tier1_match(*key, *e),
{
    match &e.instance_name {
        None => false,
        Some(inst) => {
            let il = lower_string_bytes(inst);
            let dl = lower_string_bytes(&key.device_id);
            if il.len() > 0 && (contains_bytes(dl.as_slice(), il.as_slice()) || contains_bytes(
                il.as_slice(),
                dl.as_slice(),
            )) {
                true
            } else {
                match find_byte(il.as_slice(), 92) {
                    None => {
                        proof {
                            lemma_rest_after_none(il@, 92u8);
                        }
                        false
                    },
                    Some(p) => {
                        proof {
                            lemma_rest_after_at(il@, 92u8, p as int);
                        }
                        let sl: &[u8] = il.as_slice();
                        let rest: &[u8] = &sl[p + 1..sl.len()];
                        let frag = trim_at_byte(rest, 92);
                        frag.len() > 0 && contains_bytes(dl.as_slice(), frag.as_slice())
                    },
                }
            }
        },
    }
}

fn tier2_match_exec(key: &IdentityKey, e: &EdidEntry) -> (r: bool)
    ensures
        r == tier2_match(*key, *e),
{
    let fl = lower_string_bytes(&key.friendly_name);
    let dl = lower_string_bytes(&key.device_id);
    let ml = lower_string_bytes(&e.model);
    let mf = lower_string_bytes(&e.manufacturer);
    (ml.len() > 0 && (contains_bytes(fl.as_slice(), ml.as_slice()) || contains_bytes(
        dl.as_slice(),
        ml.as_slice(),
    ))) || (mf.len() > 0 && (contains_bytes(fl.as_slice(), mf.as_slice()) || contains_bytes(
        dl.as_slice(),
        mf.as_slice(),
    )))
}

fn scan_tier1(key: &IdentityKey, entries: &Vec<EdidEntry>, used: &Vec<bool>) -> (r: Option<usize>)
    requires
        used@.len() == entries@.len(),
    ensures
        ({
            let s = first_match(entries@, used@, |e: EdidEntry| tier1_match(*key, e), 0);
            match s {
                Some(j) => r is Some && r->0 == j,
                None => r is None,
            }
        }),
{
    let mut j: usize = 0;
    while j < entries.len()
        invariant
            j <= entries@.len(),
            used@.len() == entries@.len(),
            first_match(entries@, used@, |e: EdidEntry| tier1_match(*key, e), 0) == first_match(
                entries@,
                used@,
                |e: EdidEntry| tier1_match(*key, e),
                j as int,
            ),
        decreases entries@.len() - j,
    {
        if !used[j] && tier1_match_exec(key, &entries[j]) {
            return Some(j);
        }
        j = j + 1;
    }
    None
}

fn scan_tier2(key: &IdentityKey, entries: &Vec<EdidEntry>, used: &Vec<bool>) -> (r: Option<usize>)
    requires
        used@.len() == entries@.len(),
    ensures
        ({
            let s = first_match(entries@, used@, |e: EdidEntry| tier2_match(*key, e), 0);
            match s {
                Some(j) => r is Some && r->0 == j,
                None => r is None,
            }
        }),
{
    let mut j: usize = 0;
    while j < entries.len()
        invariant
            j <= entries@.len(),
            used@.len() == entries@.len(),
            first_match(entries@, used@, |e: EdidEntry| tier2_match(*key, e), 0) == first_match(
                entries@,
                used@,
                |e: EdidEntry| tier2_match(*key, e),
                j as int,
            ),
        decreases entries@.len() - j,
    {
        if !used[j] && tier2_match_exec(key, &entries[j]) {
            return Some(j);
        }
        j = j + 1;
    }
    None
}

fn scan_unused(entries: &Vec<EdidEntry>, used: &Vec<bool>) -> (r: Option<usize>)
    requires
        used@.len() == entries@.len(),
    ensures
        ({
            let s = first_match(entries@, used@, |e: EdidEntry| true, 0);
            match s {
                Some(j) => r is Some && r->0 == j,
                None => r is None,
            }
        }),
{
    let mut j: usize = 0;
    while j < entries.len()
        invariant
            j <= entries@.len(),
            used@.len() == entries@.len(),
            first_match(entries@, used@, |e: EdidEntry| true, 0) == first_match(
                entries@,
                used@,
                |e: EdidEntry| true,
                j as int,
            ),
        decreases entries@.len() - j,
    {
        if !used[j] {
            return Some(j);
        }
        j = j + 1;
    }
    None
}

/// View of an assignment entry as a mathematical index.
pub open spec fn opt_idx(o: Option<usize>) -> Option<int> {
    match o {
        Some(u) => Some(u as int),
        None => None,
    }
}

/// Assigns at most one EDID candidate to each display, as a pure
/// function of the two lists. Candidate indices come back in display
/// order; every assigned index is in range, and no candidate is
/// assigned twice.
pub fn correlate_edid(keys: &Vec<IdentityKey>, entries: &Vec<EdidEntry>) -> (r: Vec<Option<usize>>)
    ensures
        r@.len() == keys@.len(),
        forall|k: int| 0 <= k < keys@.len() ==> opt_idx(#[trigger] r@[k]) == spec_assign(
            keys@,
            entries@,
        )[k],
        forall|k: int| 0 <= k < keys@.len() && (#[trigger] r@[k]) is Some ==> r@[k]->0
            < entries@.len(),
        forall|k1: int, k2: int|
            #![trigger r@[k1], r@[k2]]
            0 <= k1 < k2 < keys@.len() && r@[k1] is Some && r@[k2] is Some ==> r@[k1]->0
                != r@[k2]->0,
{
    let mut used: Vec<bool> = Vec::new();
    let mut u: usize = 0;
    while u < entries.len()
        invariant
            u <= entries@.len(),
            used@ =~= Seq::new(u as nat, |k: int| false),
        decreases entries@.len() - u,
    {
        used.push(false);
        proof {
            assert(used@ =~= Seq::new((u + 1) as nat, |k: int| false));
        }
        u = u + 1;
    }
    let mut out: Vec<Option<usize>> = Vec::new();
    let mut i: usize = 0;
    while i < keys.len()
        invariant
            i <= keys@.len(),
            out@.len() == i,
            used@.len() == entries@.len(),
            spec_assign(keys@, entries@) =~= Seq::new(out@.len(), |k: int| opt_idx(out@[k]))
                + assign_from(keys@, entries@, used@, i as int),
        decreases keys@.len() - i,
    {
        let key = &keys[i];
        let c: Option<usize> = match scan_tier1(key, entries, &used) {
            Some(j) => Some(j),
            None => match scan_tier2(key, entries, &used) {
                Some(j) => Some(j),
                None => scan_unused(entries, &used),
            },
        };
        proof {
            assert(opt_idx(c) == pick_for(keys@[i as int], entries@, used@));
            lemma_pick_for_props(keys@[i as int], entries@, used@);
        }
        let ghost old_used = used@;
        let ghost old_out = out@;
        match c {
            Some(j) => {
                used[j] = true;
                proof {
                    assert(used@ =~= old_used.update(j as int, true));
                }
            },
            None => {},
        }
        out.push(c);
        proof {
            assert(Seq::new(out@.len(), |k: int| opt_idx(out@[k])) =~= Seq::new(
                old_out.len(),
                |k: int| opt_idx(old_out[k]),
            ) + seq![opt_idx(c)]);
            assert(seq![opt_idx(c)] + assign_from(keys@, entries@, used@, i + 1) =~= assign_from(
                keys@,
                entries@,
                old_used,
                i as int,
            ));
        }
        i = i + 1;
    }
    proof {
        assert(spec_assign(keys@, entries@) =~= Seq::new(out@.len(), |k: int| opt_idx(out@[k])));
        lemma_edid_assignment_injective(keys@, entries@);
        assert forall|k: int| 0 <= k < keys@.len() && (#[trigger] out@[k]) is Some implies out@[k]->0
            < entries@.len() by {
            assert(opt_idx(out@[k]) == spec_assign(keys@, entries@)[k]);
        }
        assert forall|k1: int, k2: int|
            #![trigger out@[k1], out@[k2]]
            0 <= k1 < k2 < keys@.len() && out@[k1] is Some && out@[k2] is Some implies out@[k1]->0
            != out@[k2]->0 by {
            assert(opt_idx(out@[k1]) == spec_assign(keys@, entries@)[k1]);
            assert(opt_idx(out@[k2]) == spec_assign(keys@, entries@)[k2]);
        }
    }
    out
}

} // verus!
