//! Parsing a QoS sweep job out of its property lists, and assembling the
//! planned runs: the explicit overrides first, then the swept vrate
//! points.
use vstd::prelude::*;
use crate::num::{fixed3_shape, fixed3_spec_value, parse_fixed3, all_digits, dec_value, parse_u64};
use crate::qos::{
    plan_vrate_points, spec_click, spec_default_ovr, spec_eff_max, spec_eff_min, spec_point_ovr,
    spec_walk_count, IoCostQoSOvr, VratePlan, VRATE_CAP,
};

verus! {

/// The sweep's own knobs, as its property list sets them.
#[derive(Clone, Copy, Debug, PartialEq, Eq, Structural)]
pub struct SweepParams {
    /// thousandths; zero asks for the half-click start
    pub vrate_min: u64,
    /// thousandths
    pub vrate_max: u64,
    pub vrate_intvs: u32,
    pub dither: bool,
    /// thousandths, signed
    pub dither_dist: Option<i64>,
    pub stor_base_loops: u32,
    pub stor_loops: u32,
    /// isolation percentile, whole percents
    pub isol_pct: u64,
    /// isolation threshold, thousandths
    pub isol_thr: u64,
    pub retries: u32,
    pub allow_fail: bool,
    pub ign_min_perf: bool,
}

/// The defaults a sweep starts from: one pass over `(0, 100]`.
pub open spec fn spec_default_params() -> SweepParams {
    SweepParams {
        vrate_min: 0,
        vrate_max: 100_000,
        vrate_intvs: 0,
        dither: false,
        dither_dist: None,
        stor_base_loops: 3,
        stor_loops: 1,
        isol_pct: 5,
        isol_thr: 900,
        retries: 1,
        allow_fail: false,
        ign_min_perf: false,
    }
}

pub fn default_params() -> (r: SweepParams)
    ensures
        r == spec_default_params(),
{
    SweepParams {
        vrate_min: 0,
        vrate_max: 100_000,
        vrate_intvs: 0,
        dither: false,
        dither_dist: None,
        stor_base_loops: 3,
        stor_loops: 1,
        isol_pct: 5,
        isol_thr: 900,
        retries: 1,
        allow_fail: false,
        ign_min_perf: false,
    }
}

/// Compares two strings character for character.
pub fn str_eq(a: &str, b: &str) -> (r: bool)
    ensures
        r == (a@ == b@),
{
    let n = a.unicode_len();
    let m = b.unicode_len();
    if n != m {
        return false;
    }
    let mut i: usize = 0;
    while i < n
        invariant
            i <= n,
            n == a@.len(),
            n == b@.len(),
            forall|j: int| 0 <= j < i ==> a@[j] == b@[j],
        decreases n - i,
    {
        if a.get_char(i) != b.get_char(i) {
            return false;
        }
        i = i + 1;
    }
    proof {
        assert(a@ =~= b@);
    }
    true
}

/// What a boolean property value denotes.
pub open spec fn spec_bool_value(v: Seq<char>) -> Option<bool> {
    if v == "true"@ {
        Some(true)
    } else if v == "false"@ {
        Some(false)
    } else {
        None
    }
}

pub fn parse_bool(v: &str) -> (r: Option<bool>)
    ensures
        r == spec_bool_value(v@),
{
    if str_eq(v, "true") {
        Some(true)
    } else if str_eq(v, "false") {
        Some(false)
    } else {
        None
    }
}

/// What a signed fixed-point value denotes, in thousandths: an optional
/// leading minus, then a plain fixed-point number.
pub open spec fn spec_signed_fixed3(v: Seq<char>) -> Option<int> {
    if v.len() >= 1 && v[0] == '-' {
        if fixed3_shape(v.skip(1)) {
            Some(-(fixed3_spec_value(v.skip(1)) as int))
        } else {
            None
        }
    } else {
        if fixed3_shape(v) {
            Some(fixed3_spec_value(v) as int)
        } else {
            None
        }
    }
}

/// Reads a signed fixed-point value; values beyond the planning cap are
/// refused.
pub fn parse_signed_fixed3(v: &str) -> (r: Option<i64>)
    ensures
        match r {
            Some(x) => spec_signed_fixed3(v@) == Some(x as int) && -(VRATE_CAP as int) <= x
                <= VRATE_CAP as int,
            None => spec_signed_fixed3(v@) is None || (match spec_signed_fixed3(v@) {
                Some(x) => x > VRATE_CAP as int || x < -(VRATE_CAP as int),
                None => true,
            }),
        },
{
    let n = v.unicode_len();
    if n >= 1 && v.get_char(0) == '-' {
        let rest = v.substring_char(1, n);
        proof {
            assert(rest@ =~= v@.skip(1));
        }
        match parse_fixed3(rest) {
            Some(x) => {
                if x <= VRATE_CAP {
                    Some(-(x as i64))
                } else {
                    None
                }
            },
            None => None,
        }
    } else {
        match parse_fixed3(v) {
            Some(x) => {
                if x <= VRATE_CAP {
                    Some(x as i64)
                } else {
                    None
                }
            },
            None => None,
        }
    }
}

/// What one sweep property does to the parameters; `None` marks an
/// unknown key or a malformed or out-of-cap value. Keys under
/// `storage-` other than the loop counts belong to the storage job and
/// pass through untouched.
#[verifier::opaque]
pub open spec fn spec_apply_sweep_prop(p: SweepParams, k: Seq<char>, v: Seq<char>) -> Option<
    SweepParams,
> {
    if k == "vrate-min"@ {
        if fixed3_shape(v) && fixed3_spec_value(v) <= VRATE_CAP {
            Some(SweepParams { vrate_min: fixed3_spec_value(v) as u64, ..p })
        } else {
            None
        }
    } else if k == "vrate-max"@ {
        if fixed3_shape(v) && fixed3_spec_value(v) <= VRATE_CAP {
            Some(SweepParams { vrate_max: fixed3_spec_value(v) as u64, ..p })
        } else {
            None
        }
    } else if k == "vrate-intvs"@ {
        if v.len() >= 1 && all_digits(v) && dec_value(v) <= u32::MAX {
            Some(SweepParams { vrate_intvs: dec_value(v) as u32, ..p })
        } else {
            None
        }
    } else if k == "dither"@ {
        if v.len() == 0 {
            Some(SweepParams { dither: true, ..p })
        } else {
            match spec_signed_fixed3(v) {
                Some(x) => if -(VRATE_CAP as int) <= x <= VRATE_CAP as int {
                    Some(SweepParams { dither: true, dither_dist: Some(x as i64), ..p })
                } else {
                    None
                },
                None => None,
            }
        }
    } else if k == "storage-base-loops"@ {
        if v.len() >= 1 && all_digits(v) && dec_value(v) <= u32::MAX {
            Some(SweepParams { stor_base_loops: dec_value(v) as u32, ..p })
        } else {
            None
        }
    } else if k == "storage-loops"@ {
        if v.len() >= 1 && all_digits(v) && dec_value(v) <= u32::MAX {
            Some(SweepParams { stor_loops: dec_value(v) as u32, ..p })
        } else {
            None
        }
    } else if k == "isol-pct"@ {
        if v.len() >= 1 && all_digits(v) && dec_value(v) <= 100 {
            Some(SweepParams { isol_pct: dec_value(v) as u64, ..p })
        } else {
            None
        }
    } else if k == "isol-thr"@ {
        if fixed3_shape(v) && fixed3_spec_value(v) <= 1000 {
            Some(SweepParams { isol_thr: fixed3_spec_value(v) as u64, ..p })
        } else {
            None
        }
    } else if k == "retries"@ {
        if v.len() >= 1 && all_digits(v) && dec_value(v) <= u32::MAX {
            Some(SweepParams { retries: dec_value(v) as u32, ..p })
        } else {
            None
        }
    } else if k == "allow-fail"@ {
        match spec_bool_value(v) {
            Some(b) => Some(SweepParams { allow_fail: b, ..p }),
            None => None,
        }
    } else if k == "ignore-min-perf"@ {
        if v.len() == 0 {
            Some(SweepParams { ign_min_perf: true, ..p })
        } else {
            match spec_bool_value(v) {
                Some(b) => Some(SweepParams { ign_min_perf: b, ..p }),
                None => None,
            }
        }
    } else if k.len() >= 8 && k.take(8) == "storage-"@ {
        // a storage-job property: passes through unchanged
        Some(p)
    } else {
        None
    }
}

/// Applies one property.
pub fn apply_sweep_prop(p: &SweepParams, k: &str, v: &str) -> (r: Option<SweepParams>)
    ensures
        r == spec_apply_sweep_prop(*p, k@, v@),
{
    proof {
        reveal(spec_apply_sweep_prop);
    }
    if str_eq(k, "vrate-min") {
        match parse_fixed3(v) {
            Some(x) => {
                if x <= VRATE_CAP {
                    Some(SweepParams { vrate_min: x, ..*p })
                } else {
                    None
                }
            },
            None => None,
        }
    } else if str_eq(k, "vrate-max") {
        match parse_fixed3(v) {
            Some(x) => {
                if x <= VRATE_CAP {
                    Some(SweepParams { vrate_max: x, ..*p })
                } else {
                    None
                }
            },
            None => None,
        }
    } else if str_eq(k, "vrate-intvs") {
        match parse_u32(v) {
            Some(x) => Some(SweepParams { vrate_intvs: x, ..*p }),
            None => None,
        }
    } else if str_eq(k, "dither") {
        if v.unicode_len() == 0 {
            Some(SweepParams { dither: true, ..*p })
        } else {
            match parse_signed_fixed3(v) {
                Some(x) => Some(SweepParams { dither: true, dither_dist: Some(x), ..*p }),
                None => None,
            }
        }
    } else if str_eq(k, "storage-base-loops") {
        match parse_u32(v) {
            Some(x) => Some(SweepParams { stor_base_loops: x, ..*p }),
            None => None,
        }
    } else if str_eq(k, "storage-loops") {
        match parse_u32(v) {
            Some(x) => Some(SweepParams { stor_loops: x, ..*p }),
            None => None,
        }
    } else if str_eq(k, "isol-pct") {
        match parse_u64(v) {
            Some(x) => {
                if x <= 100 {
                    Some(SweepParams { isol_pct: x, ..*p })
                } else {
                    None
                }
            },
            None => None,
        }
    } else if str_eq(k, "isol-thr") {
        match parse_fixed3(v) {
            Some(x) => {
                if x <= 1000 {
                    Some(SweepParams { isol_thr: x, ..*p })
                } else {
                    None
                }
            },
            None => None,
        }
    } else if str_eq(k, "retries") {
        match parse_u32(v) {
            Some(x) => Some(SweepParams { retries: x, ..*p }),
            None => None,
        }
    } else if str_eq(k, "allow-fail") {
        match parse_bool(v) {
            Some(b) => Some(SweepParams { allow_fail: b, ..*p }),
            None => None,
        }
    } else if str_eq(k, "ignore-min-perf") {
        if v.unicode_len() == 0 {
            Some(SweepParams { ign_min_perf: true, ..*p })
        } else {
            match parse_bool(v) {
                Some(b) => Some(SweepParams { ign_min_perf: b, ..*p }),
                None => None,
            }
        }
    } else if starts_with_storage(k) {
        Some(*p)
    } else {
        None
    }
}

fn parse_u32(v: &str) -> (r: Option<u32>)
    ensures
        match r {
            Some(x) => v@.len() >= 1 && all_digits(v@) && dec_value(v@) <= u32::MAX && x as nat
                == dec_value(v@),
            None => v@.len() == 0 || !all_digits(v@) || dec_value(v@) > u32::MAX,
        },
{
    match parse_u64(v) {
        Some(x) => {
            if x <= u32::MAX as u64 {
                Some(x as u32)
            } else {
                None
            }
        },
        None => None,
    }
}

fn starts_with_storage(k: &str) -> (r: bool)
    ensures
        r == (k@.len() >= 8 && k@.take(8) == "storage-"@),
{
    proof {
        reveal_strlit("storage-");
    }
    let n = k.unicode_len();
    if n < 8 {
        return false;
    }
    let r = k.get_char(0) == 's' && k.get_char(1) == 't' && k.get_char(2) == 'o' && k.get_char(3)
        == 'r' && k.get_char(4) == 'a' && k.get_char(5) == 'g' && k.get_char(6) == 'e'
        && k.get_char(7) == '-';
    proof {
        if r {
            assert(k@.take(8) =~= "storage-"@);
        } else {
            if k@.take(8) == "storage-"@ {
                assert(k@.take(8)[0] == 's' && k@.take(8)[1] == 't' && k@.take(8)[2] == 'o'
                    && k@.take(8)[3] == 'r' && k@.take(8)[4] == 'a' && k@.take(8)[5] == 'g'
                    && k@.take(8)[6] == 'e' && k@.take(8)[7] == '-');
            }
        }
    }
    r
}

/// The parameters after the whole property list, or the position of the
/// first bad property.
pub open spec fn spec_fold_props(p: SweepParams, props: Seq<(Seq<char>, Seq<char>)>) -> Option<
    SweepParams,
>
    decreases props.len(),
{
    if props.len() == 0 {
        Some(p)
    } else {
        match spec_apply_sweep_prop(p, props[0].0, props[0].1) {
            Some(p2) => spec_fold_props(p2, props.skip(1)),
            None => None,
        }
    }
}

pub open spec fn prop_views(props: Seq<(String, String)>) -> Seq<(Seq<char>, Seq<char>)> {
    props.map_values(|p: (String, String)| (p.0@, p.1@))
}

/// Folds a property list over the defaults.
pub fn parse_sweep_props(props: &Vec<(String, String)>) -> (r: Option<SweepParams>)
    ensures
        r == spec_fold_props(spec_default_params(), prop_views(props@)),
{
    let mut p = default_params();
    let mut i: usize = 0;
    proof {
        assert(prop_views(props@).skip(0) =~= prop_views(props@));
    }
    while i < props.len()
        invariant
            i <= props@.len(),
            spec_fold_props(spec_default_params(), prop_views(props@)) == spec_fold_props(
                p,
                prop_views(props@).skip(i as int),
            ),
        decreases props@.len() - i,
    {
        proof {
            assert(prop_views(props@).skip(i as int)[0] == prop_views(props@)[i as int]);
            assert(prop_views(props@)[i as int] == (props@[i as int].0@, props@[i as int].1@));
            assert(prop_views(props@).skip(i as int).skip(1) =~= prop_views(props@).skip(
                i as int + 1,
            ));
        }
        match apply_sweep_prop(&p, props[i].0.as_str(), props[i].1.as_str()) {
            Some(p2) => {
                p = p2;
            },
            None => {
                return None;
            },
        }
        i = i + 1;
    }
    proof {
        assert(prop_views(props@).skip(props@.len() as int).len() == 0);
    }
    Some(p)
}

/// What one override property does; `None` marks an unknown key or a bad
/// value. Percentages and vrates are fixed-point; latencies are whole
/// microseconds.
#[verifier::opaque]
pub open spec fn spec_apply_ovr_prop(o: IoCostQoSOvr, k: Seq<char>, v: Seq<char>) -> Option<
    IoCostQoSOvr,
> {
    if k == "off"@ {
        Some(IoCostQoSOvr { off: true, ..o })
    } else if k == "rpct"@ {
        if fixed3_shape(v) && fixed3_spec_value(v) <= VRATE_CAP {
            Some(IoCostQoSOvr { rpct: Some(fixed3_spec_value(v) as u64), ..o })
        } else {
            None
        }
    } else if k == "rlat"@ {
        if v.len() >= 1 && all_digits(v) && dec_value(v) <= u64::MAX {
            Some(IoCostQoSOvr { rlat: Some(dec_value(v) as u64), ..o })
        } else {
            None
        }
    } else if k == "wpct"@ {
        if fixed3_shape(v) && fixed3_spec_value(v) <= VRATE_CAP {
            Some(IoCostQoSOvr { wpct: Some(fixed3_spec_value(v) as u64), ..o })
        } else {
            None
        }
    } else if k == "wlat"@ {
        if v.len() >= 1 && all_digits(v) && dec_value(v) <= u64::MAX {
            Some(IoCostQoSOvr { wlat: Some(dec_value(v) as u64), ..o })
        } else {
            None
        }
    } else if k == "min"@ {
        if fixed3_shape(v) && fixed3_spec_value(v) <= VRATE_CAP {
            Some(IoCostQoSOvr { min: Some(fixed3_spec_value(v) as u64), ..o })
        } else {
            None
        }
    } else if k == "max"@ {
        if fixed3_shape(v) && fixed3_spec_value(v) <= VRATE_CAP {
            Some(IoCostQoSOvr { max: Some(fixed3_spec_value(v) as u64), ..o })
        } else {
            None
        }
    } else {
        None
    }
}

pub fn apply_ovr_prop(o: &IoCostQoSOvr, k: &str, v: &str) -> (r: Option<IoCostQoSOvr>)
    ensures
        r == spec_apply_ovr_prop(*o, k@, v@),
{
    proof {
        reveal(spec_apply_ovr_prop);
    }
    if str_eq(k, "off") {
        Some(IoCostQoSOvr { off: true, ..*o })
    } else if str_eq(k, "rpct") {
        match parse_capped_fixed3(v) {
            Some(x) => Some(IoCostQoSOvr { rpct: Some(x), ..*o }),
            None => None,
        }
    } else if str_eq(k, "rlat") {
        match parse_u64(v) {
            Some(x) => Some(IoCostQoSOvr { rlat: Some(x), ..*o }),
            None => None,
        }
    } else if str_eq(k, "wpct") {
        match parse_capped_fixed3(v) {
            Some(x) => Some(IoCostQoSOvr { wpct: Some(x), ..*o }),
            None => None,
        }
    } else if str_eq(k, "wlat") {
        match parse_u64(v) {
            Some(x) => Some(IoCostQoSOvr { wlat: Some(x), ..*o }),
            None => None,
        }
    } else if str_eq(k, "min") {
        match parse_capped_fixed3(v) {
            Some(x) => Some(IoCostQoSOvr { min: Some(x), ..*o }),
            None => None,
        }
    } else if str_eq(k, "max") {
        match parse_capped_fixed3(v) {
            Some(x) => Some(IoCostQoSOvr { max: Some(x), ..*o }),
            None => None,
        }
    } else {
        None
    }
}

fn parse_capped_fixed3(v: &str) -> (r: Option<u64>)
    ensures
        match r {
            Some(x) => fixed3_shape(v@) && fixed3_spec_value(v@) == x as nat && x <= VRATE_CAP,
            None => !fixed3_shape(v@) || fixed3_spec_value(v@) > VRATE_CAP,
        },
{
    match parse_fixed3(v) {
        Some(x) => {
            if x <= VRATE_CAP {
                Some(x)
            } else {
                None
            }
        },
        None => None,
    }
}

pub open spec fn spec_fold_ovr(o: IoCostQoSOvr, props: Seq<(Seq<char>, Seq<char>)>) -> Option<
    IoCostQoSOvr,
>
    decreases props.len(),
{
    if props.len() == 0 {
        Some(o)
    } else {
        match spec_apply_ovr_prop(o, props[0].0, props[0].1) {
            Some(o2) => spec_fold_ovr(o2, props.skip(1)),
            None => None,
        }
    }
}

/// Folds one override property list over the neutral override.
pub fn parse_ovr_props(props: &Vec<(String, String)>) -> (r: Option<IoCostQoSOvr>)
    ensures
        r == spec_fold_ovr(spec_default_ovr(), prop_views(props@)),
{
    let mut o = IoCostQoSOvr::default();
    let mut i: usize = 0;
    proof {
        assert(prop_views(props@).skip(0) =~= prop_views(props@));
    }
    while i < props.len()
        invariant
            i <= props@.len(),
            spec_fold_ovr(spec_default_ovr(), prop_views(props@)) == spec_fold_ovr(
                o,
                prop_views(props@).skip(i as int),
            ),
        decreases props@.len() - i,
    {
        proof {
            assert(prop_views(props@).skip(i as int)[0] == prop_views(props@)[i as int]);
            assert(prop_views(props@)[i as int] == (props@[i as int].0@, props@[i as int].1@));
            assert(prop_views(props@).skip(i as int).skip(1) =~= prop_views(props@).skip(
                i as int + 1,
            ));
        }
        match apply_ovr_prop(&o, props[i].0.as_str(), props[i].1.as_str()) {
            Some(o2) => {
                o = o2;
            },
            None => {
                return None;
            },
        }
        i = i + 1;
    }
    proof {
        assert(prop_views(props@).skip(props@.len() as int).len() == 0);
    }
    Some(o)
}

/// Every override property set folds over the neutral override.
pub open spec fn spec_all_ovrs_ok(ovrs: Seq<Seq<(Seq<char>, Seq<char>)>>) -> bool {
    forall|i: int|
        0 <= i < ovrs.len() ==> spec_fold_ovr(spec_default_ovr(), #[trigger] ovrs[i]) is Some
}

/// Why a sweep spec was refused.
#[derive(Clone, Copy, Debug, PartialEq, Eq, Structural)]
pub enum QoSParseError {
    /// an unknown key or malformed value in the sweep's own properties
    BadProp,
    /// an unknown key or malformed value in an override property set
    BadOvrProp,
    /// the vrate range is empty or inverted
    BadVrateRange,
}


/// What a parsed job owes its property lists: the folded knobs, the
/// leading `off` run, the folded explicit overrides, and (when intervals
/// are swept) the planned points, with any earlier dither distance
/// reused.
pub open spec fn spec_job_ok(
    p: SweepParams,
    job: IoCostQoSJob,
    ovrs: Seq<Seq<(Seq<char>, Seq<char>)>>,
    prev_dither_dist: Option<i64>,
) -> bool {
    let n_expl = ovrs.len() as int;
    let intvs = if n_expl == 0 && p.vrate_intvs == 0 {
        5u32
    } else {
        p.vrate_intvs
    };
    let click = spec_click(p.vrate_min as int, p.vrate_max as int, intvs as int);
    let d: int = if job.dither_dist is Some {
        job.dither_dist->0 as int
    } else {
        0
    };
    let lo = spec_eff_min(p.vrate_min as int, p.vrate_max as int, intvs as int, d);
    let hi = spec_eff_max(p.vrate_max as int, d);
    &&& p.vrate_min < p.vrate_max
    &&& job.stor_base_loops == p.stor_base_loops
    &&& job.stor_loops == p.stor_loops
    &&& job.isol_pct == p.isol_pct
    &&& job.isol_thr == p.isol_thr
    &&& job.ign_min_perf == p.ign_min_perf
    &&& job.retries == p.retries
    &&& job.allow_fail == p.allow_fail
    &&& job.runs.len() >= 1 + n_expl
    &&& job.runs[0] == (IoCostQoSOvr { off: true, ..spec_default_ovr() })
    &&& (forall|i: int|
        0 <= i < n_expl ==> Some(#[trigger] job.runs[1 + i]) == spec_fold_ovr(
            spec_default_ovr(),
            ovrs[i],
        ))
    &&& (intvs == 0 ==> job.runs.len() == 1 + n_expl && job.dither_dist is None)
    &&& (intvs > 0 ==> {
        &&& (!p.dither ==> job.dither_dist is None)
        &&& (p.dither && p.dither_dist is Some ==> job.dither_dist == p.dither_dist)
        &&& (p.dither && p.dither_dist is None && prev_dither_dist is Some ==> job.dither_dist
            == prev_dither_dist)
        &&& job.runs.len() == 1 + n_expl + spec_walk_count(lo, hi, click)
        &&& (forall|i: int|
            0 <= i < spec_walk_count(lo, hi, click) ==> #[trigger] job.runs[1 + n_expl + i]
                == spec_point_ovr((hi - i * click) as u64))
    })
}

/// Folding properties keeps every vrate-like field within the planning
/// cap: each update is range-checked before it is taken.
pub proof fn lemma_fold_props_bounds(p: SweepParams, props: Seq<(Seq<char>, Seq<char>)>)
    requires
        p.vrate_min <= VRATE_CAP,
        p.vrate_max <= VRATE_CAP,
        p.dither_dist is Some ==> -(VRATE_CAP as i64) <= p.dither_dist->0 <= VRATE_CAP as i64,
    ensures
        spec_fold_props(p, props) is Some ==> {
            let q = spec_fold_props(p, props)->0;
            &&& q.vrate_min <= VRATE_CAP
            &&& q.vrate_max <= VRATE_CAP
            &&& (q.dither_dist is Some ==> -(VRATE_CAP as i64) <= q.dither_dist->0
                <= VRATE_CAP as i64)
        },
    decreases props.len(),
{
    reveal(spec_apply_sweep_prop);
    if props.len() > 0 {
        match spec_apply_sweep_prop(p, props[0].0, props[0].1) {
            Some(p2) => {
                lemma_fold_props_bounds(p2, props.skip(1));
            },
            None => {},
        }
    }
}

/// The parsed sweep job: its knobs and the planned run list, an `off`
/// run first.
pub struct IoCostQoSJob {
    pub stor_base_loops: u32,
    pub stor_loops: u32,
    pub isol_pct: u64,
    pub isol_thr: u64,
    pub dither_dist: Option<i64>,
    pub ign_min_perf: bool,
    pub retries: u32,
    pub allow_fail: bool,
    pub runs: Vec<IoCostQoSOvr>,
}

/// The sweep bench itself, as the bench registry sees it.
pub struct IoCostQoSBench {}

impl IoCostQoSBench {
    pub fn name() -> (r: String)
        ensures
            r@ == "iocost-qos"@,
    {
        String::from_str("iocost-qos")
    }

    pub fn description() -> (r: String)
        ensures
            r@ == "Benchmark IO isolation with different io.cost QoS configurations"@,
    {
        String::from_str("Benchmark IO isolation with different io.cost QoS configurations")
    }
}

impl IoCostQoSJob {
    /// Parses a sweep job: folds the sweep properties, folds each
    /// override set, defaults to five intervals when neither overrides
    /// nor intervals were given, and plans the swept points. A dither
    /// distance from the properties, or failing that from a matching
    /// prior record, is reused.
    #[verifier::rlimit(30)]
    pub fn parse(
        props: &Vec<(String, String)>,
        ovr_props: &Vec<Vec<(String, String)>>,
        prev_dither_dist: Option<i64>,
    ) -> (r: Result<IoCostQoSJob, QoSParseError>)
        requires
            prev_dither_dist is Some ==> -(VRATE_CAP as i64) <= prev_dither_dist->0
                <= VRATE_CAP as i64,
        ensures
            ({
                let fold = spec_fold_props(spec_default_params(), prop_views(props@));
                let ovrs = ovr_props@.map_values(|v: Vec<(String, String)>| prop_views(v@));
                &&& ((r is Err && r->Err_0 is BadProp) <==> fold is None)
                &&& ((r is Err && r->Err_0 is BadVrateRange) <==> (fold is Some && fold->0.vrate_min
                    >= fold->0.vrate_max))
                &&& ((r is Err && r->Err_0 is BadOvrProp) <==> (fold is Some && fold->0.vrate_min
                    < fold->0.vrate_max && !spec_all_ovrs_ok(ovrs)))
                &&& (r is Ok <==> (fold is Some && fold->0.vrate_min < fold->0.vrate_max
                    && spec_all_ovrs_ok(ovrs)))
                &&& (r is Ok ==> spec_job_ok(fold->0, r->Ok_0, ovrs, prev_dither_dist))
            }),
    {
        let ghost ovrs_views = ovr_props@.map_values(|v: Vec<(String, String)>| prop_views(v@));
        let p = match parse_sweep_props(props) {
            Some(p) => p,
            None => {
                return Err(QoSParseError::BadProp);
            },
        };
        proof {
            lemma_fold_props_bounds(spec_default_params(), prop_views(props@));
        }
        if p.vrate_min >= p.vrate_max {
            return Err(QoSParseError::BadVrateRange);
        }
        let mut runs: Vec<IoCostQoSOvr> = Vec::new();
        let off_ovr = IoCostQoSOvr { off: true, ..IoCostQoSOvr::default() };
        runs.push(off_ovr);
        let mut i: usize = 0;
        while i < ovr_props.len()
            invariant
                spec_fold_props(spec_default_params(), prop_views(props@)) == Some(p),
                p.vrate_min < p.vrate_max,
                ovrs_views == ovr_props@.map_values(|v: Vec<(String, String)>| prop_views(v@)),
                ovrs_views.len() == ovr_props@.len(),
                i <= ovr_props@.len(),
                runs@.len() == 1 + i,
                runs@[0] == (IoCostQoSOvr { off: true, ..spec_default_ovr() }),
                forall|j: int|
                    0 <= j < i ==> Some(#[trigger] runs@[1 + j]) == spec_fold_ovr(
                        spec_default_ovr(),
                        prop_views(ovr_props@[j]@),
                    ),
            decreases ovr_props@.len() - i,
        {
            proof {
                assert(ovrs_views[i as int] == prop_views(ovr_props@[i as int]@));
            }
            match parse_ovr_props(&ovr_props[i]) {
                Some(o) => {
                    runs.push(o);
                },
                None => {
                    proof {
                        assert(spec_fold_ovr(spec_default_ovr(), ovrs_views[i as int]) is None);
                        assert(!spec_all_ovrs_ok(ovrs_views));
                    }
                    return Err(QoSParseError::BadOvrProp);
                },
            }
            i = i + 1;
        }
        proof {
            assert(spec_all_ovrs_ok(ovrs_views)) by {
                assert forall|j: int|
                    0 <= j < ovrs_views.len() implies spec_fold_ovr(
                    spec_default_ovr(),
                    #[trigger] ovrs_views[j],
                ) is Some by {
                    assert(ovrs_views[j] == prop_views(ovr_props@[j]@));
                    assert(Some(runs@[1 + j]) == spec_fold_ovr(
                        spec_default_ovr(),
                        prop_views(ovr_props@[j]@),
                    ));
                }
            }
        }
        let intvs: u32 = if ovr_props.len() == 0 && p.vrate_intvs == 0 {
            5
        } else {
            p.vrate_intvs
        };
        let mut dither_dist: Option<i64> = None;
        if intvs > 0 {
            let plan: VratePlan = plan_vrate_points(
                p.vrate_min,
                p.vrate_max,
                intvs,
                p.dither,
                p.dither_dist,
                prev_dither_dist,
            );
            dither_dist = plan.dither_dist;
            let ghost pre_points = runs@;
            let mut j: usize = 0;
            while j < plan.points.len()
                invariant
                    j <= plan.points@.len(),
                    runs@.len() == pre_points.len() + j,
                    forall|q: int| 0 <= q < pre_points.len() ==> #[trigger] runs@[q] == pre_points[q],
                    forall|q: int|
                        0 <= q < j ==> #[trigger] runs@[pre_points.len() + q] == plan.points@[q],
                decreases plan.points@.len() - j,
            {
                runs.push(plan.points[j]);
                j = j + 1;
            }
        }
        Ok(
            IoCostQoSJob {
                stor_base_loops: p.stor_base_loops,
                stor_loops: p.stor_loops,
                isol_pct: p.isol_pct,
                isol_thr: p.isol_thr,
                dither_dist,
                ign_min_perf: p.ign_min_perf,
                retries: p.retries,
                allow_fail: p.allow_fail,
                runs,
            },
        )
    }
}

} // verus!
