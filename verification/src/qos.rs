//! IO-cost QoS overrides: composing an override onto base QoS knobs, and
//! planning the vrate points of a sweep.
//!
//! vrates are carried in thousandths, so `100.0` is `100_000`.
use vstd::prelude::*;
use crate::types::{BenchKnobs, IoCostQoSParams};

verus! {

/// Never plan below this vrate (1.0, in thousandths).
pub const VRATE_ABS_MIN: u64 = 1000;

/// Fixed-point vrates above this are refused when parsing a sweep spec, so
/// that planning arithmetic stays inside `i64`.
pub const VRATE_CAP: u64 = 1_000_000_000_000;

/// A QoS override: fields that are set replace the matching base QoS
/// field; `off` turns the QoS off entirely. Two overrides are equal
/// exactly when every field matches.
#[derive(Clone, Copy, Debug, PartialEq, Eq, Structural)]
pub struct IoCostQoSOvr {
    pub off: bool,
    pub rpct: Option<u64>,
    pub rlat: Option<u64>,
    pub wpct: Option<u64>,
    pub wlat: Option<u64>,
    pub min: Option<u64>,
    pub max: Option<u64>,
    /// max is below what the cost model can run: leave this point out
    pub skip: bool,
    /// min was raised to the model's absolute minimum
    pub min_adj: bool,
}

impl Default for IoCostQoSOvr {
    /// The neutral override: nothing replaced, QoS on.
    fn default() -> (r: Self)
        ensures
            r == spec_default_ovr(),
    {
        IoCostQoSOvr {
            off: false,
            rpct: None,
            rlat: None,
            wpct: None,
            wlat: None,
            min: None,
            max: None,
            skip: false,
            min_adj: false,
        }
    }
}

pub open spec fn spec_default_ovr() -> IoCostQoSOvr {
    IoCostQoSOvr {
        off: false,
        rpct: None,
        rlat: None,
        wpct: None,
        wlat: None,
        min: None,
        max: None,
        skip: false,
        min_adj: false,
    }
}

/// A planned vrate point: min and max pinned to the same vrate, every
/// other knob left at the base value.
pub open spec fn spec_point_ovr(v: u64) -> IoCostQoSOvr {
    IoCostQoSOvr {
        off: false,
        rpct: None,
        rlat: None,
        wpct: None,
        wlat: None,
        min: Some(v),
        max: Some(v),
        skip: false,
        min_adj: false,
    }
}

/// What composing `ovr` onto `base` yields: `None` when the override turns
/// QoS off, otherwise the base with the set fields replaced.
pub open spec fn spec_qos_compose(base: IoCostQoSParams, ovr: IoCostQoSOvr) -> Option<
    IoCostQoSParams,
> {
    if ovr.off {
        None
    } else {
        Some(
            IoCostQoSParams {
                rpct: if ovr.rpct is Some {
                    ovr.rpct->0
                } else {
                    base.rpct
                },
                rlat: if ovr.rlat is Some {
                    ovr.rlat->0
                } else {
                    base.rlat
                },
                wpct: if ovr.wpct is Some {
                    ovr.wpct->0
                } else {
                    base.wpct
                },
                wlat: if ovr.wlat is Some {
                    ovr.wlat->0
                } else {
                    base.wlat
                },
                min: if ovr.min is Some {
                    ovr.min->0
                } else {
                    base.min
                },
                max: if ovr.max is Some {
                    ovr.max->0
                } else {
                    base.max
                },
            },
        )
    }
}

/// Composes `ovr` onto `base`.
pub fn qos_compose(base: &IoCostQoSParams, ovr: &IoCostQoSOvr) -> (r: Option<IoCostQoSParams>)
    ensures
        r == spec_qos_compose(*base, *ovr),
{
    if ovr.off {
        None
    } else {
        Some(
            IoCostQoSParams {
                rpct: match ovr.rpct {
                    Some(v) => v,
                    None => base.rpct,
                },
                rlat: match ovr.rlat {
                    Some(v) => v,
                    None => base.rlat,
                },
                wpct: match ovr.wpct {
                    Some(v) => v,
                    None => base.wpct,
                },
                wlat: match ovr.wlat {
                    Some(v) => v,
                    None => base.wlat,
                },
                min: match ovr.min {
                    Some(v) => v,
                    None => base.min,
                },
                max: match ovr.max {
                    Some(v) => v,
                    None => base.max,
                },
            },
        )
    }
}

/// What the bench knob file holds after an override is applied on top of
/// the base QoS: the composed QoS where the override leaves QoS on, the
/// base itself where it turns QoS off.
pub open spec fn spec_apply_ovr(
    knobs: BenchKnobs,
    base: IoCostQoSParams,
    ovr: IoCostQoSOvr,
) -> BenchKnobs {
    let qos = if spec_qos_compose(base, ovr) is Some {
        spec_qos_compose(base, ovr)->0
    } else {
        base
    };
    BenchKnobs {
        iocost: crate::types::IoCostKnobs { model: knobs.iocost.model, qos },
        ..knobs
    }
}

/// Writes the composed QoS into the bench knobs. The composition reads the
/// sweep's base QoS, never the knobs' current QoS, so re-applying the same
/// override cannot drift.
pub fn apply_ovr(knobs: &BenchKnobs, base: &IoCostQoSParams, ovr: &IoCostQoSOvr) -> (r: BenchKnobs)
    ensures
        r == spec_apply_ovr(*knobs, *base, *ovr),
{
    let qos = match qos_compose(base, ovr) {
        Some(q) => q,
        None => *base,
    };
    BenchKnobs {
        iocost: crate::types::IoCostKnobs { model: knobs.iocost.model, qos },
        ..*knobs
    }
}

/// Applying the same override twice produces identical bench knobs: a
/// second application changes nothing.
pub proof fn lemma_apply_ovr_idempotent(
    knobs: BenchKnobs,
    base: IoCostQoSParams,
    ovr: IoCostQoSOvr,
)
    ensures
        spec_apply_ovr(spec_apply_ovr(knobs, base, ovr), base, ovr) == spec_apply_ovr(
            knobs,
            base,
            ovr,
        ),
{
}

/// Marks a point whose max vrate is below what the cost model can run, and
/// raises a too-low min vrate to that minimum.
pub fn skip_or_adj(ovr: &mut IoCostQoSOvr, abs_min_vrate: u64)
    ensures
        *final(ovr) == spec_skip_or_adj(*old(ovr), abs_min_vrate),
{
    let mut skip = ovr.skip;
    if let Some(max) = ovr.max {
        if max < abs_min_vrate {
            skip = true;
        }
    }
    ovr.skip = skip;
    if !skip {
        if let Some(min) = ovr.min {
            if min < abs_min_vrate {
                ovr.min = Some(abs_min_vrate);
                ovr.min_adj = true;
            }
        }
    }
}

pub open spec fn spec_skip_or_adj(ovr: IoCostQoSOvr, abs_min_vrate: u64) -> IoCostQoSOvr {
    let skipped = if ovr.max is Some && ovr.max->0 < abs_min_vrate {
        IoCostQoSOvr { skip: true, ..ovr }
    } else {
        ovr
    };
    if !skipped.skip && skipped.min is Some && skipped.min->0 < abs_min_vrate {
        IoCostQoSOvr { min: Some(abs_min_vrate), min_adj: true, ..skipped }
    } else {
        skipped
    }
}

/// Relies on rand's `Rng::gen_range` over `lo..hi`: the result lies in
/// `[lo, hi)`; the call panics only on an empty range, which the
/// precondition rules out.
#[verifier::external_body]
fn gen_range_i64(lo: i64, hi: i64) -> (r: i64)
    requires
        lo < hi,
    ensures
        lo <= r < hi,
{
    rand::Rng::gen_range(&mut rand::thread_rng(), lo..hi)
}

/// The click (step) between two planned vrate points, before the floor of
/// one thousandth.
pub open spec fn spec_raw_click(vmin: int, vmax: int, intvs: int) -> int {
    if vmin == 0 {
        vmax / intvs
    } else if intvs == 1 {
        vmax - vmin + 1
    } else {
        (vmax - vmin) / (intvs - 1)
    }
}

pub open spec fn spec_click(vmin: int, vmax: int, intvs: int) -> int {
    if spec_raw_click(vmin, vmax, intvs) >= 1 {
        spec_raw_click(vmin, vmax, intvs)
    } else {
        1
    }
}

/// The planning range after the zero-min special case and a dither of `d`:
/// a zero min starts one click up, and the low end never goes below the
/// absolute floor.
pub open spec fn spec_eff_min(vmin: int, vmax: int, intvs: int, d: int) -> int {
    let base = if vmin == 0 {
        spec_click(vmin, vmax, intvs)
    } else {
        vmin
    };
    if base + d >= VRATE_ABS_MIN as int {
        base + d
    } else {
        VRATE_ABS_MIN as int
    }
}

pub open spec fn spec_eff_max(vmax: int, d: int) -> int {
    vmax + d
}

/// How many points the walk from `vmax` down to `vmin` in steps of `click`
/// emits.
pub open spec fn spec_walk_count(vmin: int, vmax: int, click: int) -> int {
    if vmax < vmin {
        0
    } else {
        (vmax - vmin) / click + 1
    }
}

/// The outcome of planning the swept vrate points.
pub struct VratePlan {
    /// the planned points, highest vrate first
    pub points: Vec<IoCostQoSOvr>,
    /// the dither distance used, when dithering
    pub dither_dist: Option<i64>,
}

/// Plans the vrate points of a sweep: walks from the high end of the range
/// down in clicks, optionally dithered. A dither distance given by the
/// caller, or failing that one recorded by a matching earlier sweep, is
/// reused; only when neither exists is a fresh one drawn. The click is an
/// integer count of thousandths, rounded down, so a range that does not
/// divide evenly into clicks walks past the interval count; the planning
/// laws are stated for evenly dividing ranges.
pub fn plan_vrate_points(
    vrate_min: u64,
    vrate_max: u64,
    vrate_intvs: u32,
    dither: bool,
    dither_dist_prop: Option<i64>,
    prev_dither_dist: Option<i64>,
) -> (r: VratePlan)
    requires
        vrate_min < vrate_max,
        vrate_max <= VRATE_CAP,
        vrate_intvs >= 1,
        dither_dist_prop is Some ==> -(VRATE_CAP as i64) <= dither_dist_prop->0
            <= VRATE_CAP as i64,
        prev_dither_dist is Some ==> -(VRATE_CAP as i64) <= prev_dither_dist->0
            <= VRATE_CAP as i64,
    ensures
        ({
            let click = spec_click(vrate_min as int, vrate_max as int, vrate_intvs as int);
            let d: int = if r.dither_dist is Some {
                r.dither_dist->0 as int
            } else {
                0
            };
            let lo = spec_eff_min(vrate_min as int, vrate_max as int, vrate_intvs as int, d);
            let hi = spec_eff_max(vrate_max as int, d);
            &&& (!dither ==> r.dither_dist is None)
            &&& (dither ==> r.dither_dist is Some)
            &&& (dither && dither_dist_prop is Some ==> r.dither_dist == dither_dist_prop)
            &&& (dither && dither_dist_prop is None && prev_dither_dist is Some
                ==> r.dither_dist == prev_dither_dist)
            &&& (r.dither_dist is Some ==> -(VRATE_CAP as i64) - click <= r.dither_dist->0
                <= VRATE_CAP as i64 + click)
            &&& r.points@.len() == spec_walk_count(lo, hi, click)
            &&& (forall|i: int|
                0 <= i < r.points@.len() ==> #[trigger] r.points@[i] == spec_point_ovr(
                    (hi - i * click) as u64,
                ))
        }),
{
    let click_raw: i64 = if vrate_min == 0 {
        proof {
            assert(vrate_max as int / (vrate_intvs as u64) as int <= vrate_max as int) by (
            nonlinear_arith)
                requires
                    vrate_intvs >= 1,
                    vrate_max <= VRATE_CAP,
            ;
        }
        (vrate_max / (vrate_intvs as u64)) as i64
    } else if vrate_intvs == 1 {
        (vrate_max - vrate_min + 1) as i64
    } else {
        proof {
            assert((vrate_max - vrate_min) as int / ((vrate_intvs - 1) as u64) as int
                <= vrate_max as int) by (nonlinear_arith)
                requires
                    vrate_intvs >= 2,
                    vrate_min < vrate_max,
                    vrate_max <= VRATE_CAP,
            ;
        }
        ((vrate_max - vrate_min) / ((vrate_intvs - 1) as u64)) as i64
    };
    let click: i64 = if click_raw >= 1 {
        click_raw
    } else {
        1
    };

    let dither_dist: Option<i64> = if dither {
        match dither_dist_prop {
            Some(d) => Some(d),
            None => match prev_dither_dist {
                Some(d) => Some(d),
                None => {
                    let shift: i64 = if vrate_min == 0 {
                        -(click / 2)
                    } else {
                        0
                    };
                    if click >= 2 {
                        Some(gen_range_i64(-(click / 2), click / 2) + shift)
                    } else {
                        Some(shift)
                    }
                },
            },
        }
    } else {
        None
    };

    let d: i64 = match dither_dist {
        Some(v) => v,
        None => 0,
    };

    let base_min: i64 = if vrate_min == 0 {
        click
    } else {
        vrate_min as i64
    };
    let lo: i64 = if base_min + d >= VRATE_ABS_MIN as i64 {
        base_min + d
    } else {
        VRATE_ABS_MIN as i64
    };
    let hi: i64 = vrate_max as i64 + d;

    let mut points: Vec<IoCostQoSOvr> = Vec::new();
    let mut v: i64 = hi;
    while v >= lo
        invariant
            click >= 1,
            lo >= VRATE_ABS_MIN as i64,
            hi <= 3 * (VRATE_CAP as i64) + 1,
            v as int == hi as int - points@.len() * (click as int),
            points@.len() > 0 ==> hi as int - (points@.len() - 1) * (click as int) >= lo as int,
            forall|i: int|
                0 <= i < points@.len() ==> #[trigger] points@[i] == spec_point_ovr(
                    (hi as int - i * (click as int)) as u64,
                ),
        decreases v - lo + click,
    {
        points.push(
            IoCostQoSOvr {
                off: false,
                rpct: None,
                rlat: None,
                wpct: None,
                wlat: None,
                min: Some(v as u64),
                max: Some(v as u64),
                skip: false,
                min_adj: false,
            },
        );
        v = v - click;
        proof {
            assert(points@.len() * (click as int) == (points@.len() - 1) * (click as int)
                + click as int) by (nonlinear_arith);
        }
    }
    proof {
        let n = points@.len() as int;
        if hi < lo {
            assert(n == 0);
        } else {
            assert(hi - n * click < lo);
            assert(n >= 1);
            assert(hi - (n - 1) * click >= lo);
            assert((hi as int - lo as int) / click as int == n - 1) by (nonlinear_arith)
                requires
                    click as int >= 1,
                    hi as int - n * (click as int) < lo as int,
                    lo as int <= hi as int - (n - 1) * (click as int),
                    n >= 1,
            ;
        }
    }
    VratePlan { points, dither_dist }
}

/// With no dither and a zero low end, a sweep over `(0, vmax]` in `n`
/// intervals plans exactly `n` points: `vmax`, `vmax - click`, down to one
/// click, with `click == vmax / n`. Stated for ranges that divide evenly
/// into clicks of at least the absolute floor; on others (say a `vmax` of
/// 7 thousandths in 5 intervals) the walk emits extra fractional points.
pub proof fn lemma_plan_zero_min(vmax: int, n: int, plan_len: int, click: int)
    requires
        n >= 1,
        vmax % n == 0,
        vmax / n >= VRATE_ABS_MIN as int,
        click == spec_click(0, vmax, n),
        plan_len == spec_walk_count(
            spec_eff_min(0, vmax, n, 0),
            spec_eff_max(vmax, 0),
            click,
        ),
    ensures
        click == vmax / n,
        plan_len == n,
{
    assert(click == vmax / n);
    let lo = spec_eff_min(0, vmax, n, 0);
    assert(lo == click);
    assert(vmax == n * click) by (nonlinear_arith)
        requires
            n >= 1,
            vmax % n == 0,
            click == vmax / n,
    ;
    assert((vmax - click) / click == n - 1) by (nonlinear_arith)
        requires
            vmax == n * click,
            click >= 1,
            n >= 1,
    ;
}

/// With no dither and a positive low end, a sweep over `[vmin, vmax]` in
/// `n` intervals plans exactly `n` points from `vmax` down to `vmin` in
/// clicks of `(vmax - vmin) / (n - 1)`. Stated for ranges that divide
/// evenly into clicks; on others the low end lands above `vmin`.
pub proof fn lemma_plan_pos_min(vmin: int, vmax: int, n: int, plan_len: int, click: int)
    requires
        n >= 2,
        VRATE_ABS_MIN as int <= vmin < vmax,
        (vmax - vmin) % (n - 1) == 0,
        (vmax - vmin) / (n - 1) >= 1,
        click == spec_click(vmin, vmax, n),
        plan_len == spec_walk_count(
            spec_eff_min(vmin, vmax, n, 0),
            spec_eff_max(vmax, 0),
            click,
        ),
    ensures
        click == (vmax - vmin) / (n - 1),
        plan_len == n,
        vmax - (n - 1) * click == vmin,
{
    assert(click == (vmax - vmin) / (n - 1));
    let lo = spec_eff_min(vmin, vmax, n, 0);
    assert(lo == vmin);
    assert(vmax - vmin == (n - 1) * click) by (nonlinear_arith)
        requires
            n >= 2,
            (vmax - vmin) % (n - 1) == 0,
            click == (vmax - vmin) / (n - 1),
    ;
    assert((vmax - vmin) / click == n - 1) by (nonlinear_arith)
        requires
            vmax - vmin == (n - 1) * click,
            click >= 1,
            n >= 2,
    ;
}

} // verus!
