//! The usage sampler's arithmetic: parsing pressure-stall lines and flat
//! keyed cgroup files, the swap-free walk up the cgroup ancestry, and the
//! delta and rate conversions between two sampling instants.
//!
//! Times are in microseconds, fractions in thousandths.
use vstd::prelude::*;
use crate::num::{all_digits, dec_value, parse_u64};
use crate::statmap::{stat_wf, stat_get};

verus! {

/// One cgroup's (or the system's) raw usage at one instant.
pub struct Usage {
    pub cpu_busy_us: u64,
    pub cpu_sys_us: u64,
    pub mem_bytes: u64,
    pub swap_bytes: u64,
    pub swap_free: u64,
    pub io_rbytes: u64,
    pub io_wbytes: u64,
    pub io_usage_us: u64,
    pub cpu_stall_some_us: u64,
    pub cpu_stall_full_us: u64,
    pub mem_stall_some_us: u64,
    pub mem_stall_full_us: u64,
    pub io_stall_some_us: u64,
    pub io_stall_full_us: u64,
    pub mem_stat: Vec<(String, u64)>,
    pub io_stat: Vec<(String, u64)>,
}

impl Usage {
    pub fn zero() -> (r: Usage)
        ensures
            r.cpu_busy_us == 0 && r.cpu_sys_us == 0 && r.mem_bytes == 0 && r.swap_bytes == 0
                && r.swap_free == 0 && r.io_rbytes == 0 && r.io_wbytes == 0 && r.io_usage_us == 0
                && r.cpu_stall_some_us == 0 && r.cpu_stall_full_us == 0 && r.mem_stall_some_us == 0
                && r.mem_stall_full_us == 0 && r.io_stall_some_us == 0 && r.io_stall_full_us == 0,
            r.mem_stat@.len() == 0,
            r.io_stat@.len() == 0,
    {
        Usage {
            cpu_busy_us: 0,
            cpu_sys_us: 0,
            mem_bytes: 0,
            swap_bytes: 0,
            swap_free: 0,
            io_rbytes: 0,
            io_wbytes: 0,
            io_usage_us: 0,
            cpu_stall_some_us: 0,
            cpu_stall_full_us: 0,
            mem_stall_some_us: 0,
            mem_stall_full_us: 0,
            io_stall_some_us: 0,
            io_stall_full_us: 0,
            mem_stat: Vec::new(),
            io_stat: Vec::new(),
        }
    }
}

// ---------------------------------------------------------------------------
// Pressure-stall lines.
/// `p` is where the first `total=` of `s` begins.
pub open spec fn is_first_total(s: Seq<char>, p: int) -> bool {
    &&& 0 <= p
    &&& p + 6 <= s.len()
    &&& s.subrange(p, p + 6) == "total="@
    &&& forall|q: int| 0 <= q < p ==> #[trigger] s.subrange(q, q + 6) != "total="@
}

/// What a pressure line yields: whether it is a `full` line (else
/// `some`), and the stall total in microseconds after its first
/// `total=`. Lines of any other shape yield nothing.
pub open spec fn spec_psi_line(s: Seq<char>) -> Option<(bool, u64)> {
    if s.len() >= 5 && (s.subrange(0, 5) == "some "@ || s.subrange(0, 5) == "full "@) && (
    exists|p: int| is_first_total(s, p)) {
        let p = choose|p: int| is_first_total(s, p);
        let rest = s.skip(p + 6);
        if rest.len() >= 1 && all_digits(rest) && dec_value(rest) <= u64::MAX {
            Some((s.subrange(0, 5) == "full "@, dec_value(rest) as u64))
        } else {
            None
        }
    } else {
        None
    }
}

/// Checks whether `total=` begins at `p`.
fn total_at(s: &str, p: usize, n: usize) -> (r: bool)
    requires
        n == s@.len(),
        p + 6 <= n,
    ensures
        r == (s@.subrange(p as int, p as int + 6) == "total="@),
{
    proof {
        reveal_strlit("total=");
    }
    let r = s.get_char(p) == 't' && s.get_char(p + 1) == 'o' && s.get_char(p + 2) == 't'
        && s.get_char(p + 3) == 'a' && s.get_char(p + 4) == 'l' && s.get_char(p + 5) == '=';
    proof {
        if r {
            assert(s@.subrange(p as int, p as int + 6) =~= "total="@);
        } else {
            if s@.subrange(p as int, p as int + 6) == "total="@ {
                assert(s@.subrange(p as int, p as int + 6)[0] == 't');
                assert(s@.subrange(p as int, p as int + 6)[1] == 'o');
                assert(s@.subrange(p as int, p as int + 6)[2] == 't');
                assert(s@.subrange(p as int, p as int + 6)[3] == 'a');
                assert(s@.subrange(p as int, p as int + 6)[4] == 'l');
                assert(s@.subrange(p as int, p as int + 6)[5] == '=');
            }
        }
    }
    r
}

/// Parses one pressure-stall line.
pub fn parse_psi_line(s: &str) -> (r: Option<(bool, u64)>)
    ensures
        r == spec_psi_line(s@),
{
    proof {
        reveal_strlit("some ");
        reveal_strlit("full ");
    }
    let n = s.unicode_len();
    if n < 5 {
        return None;
    }
    let is_some = s.get_char(0) == 's' && s.get_char(1) == 'o' && s.get_char(2) == 'm'
        && s.get_char(3) == 'e' && s.get_char(4) == ' ';
    let is_full = s.get_char(0) == 'f' && s.get_char(1) == 'u' && s.get_char(2) == 'l'
        && s.get_char(3) == 'l' && s.get_char(4) == ' ';
    proof {
        if is_some {
            assert(s@.subrange(0, 5) =~= "some "@);
        }
        if is_full {
            assert(s@.subrange(0, 5) =~= "full "@);
        }
        if !is_some && s@.subrange(0, 5) == "some "@ {
            assert(s@.subrange(0, 5)[0] == 's' && s@.subrange(0, 5)[1] == 'o' && s@.subrange(
                0,
                5,
            )[2] == 'm' && s@.subrange(0, 5)[3] == 'e' && s@.subrange(0, 5)[4] == ' ');
        }
        if !is_full && s@.subrange(0, 5) == "full "@ {
            assert(s@.subrange(0, 5)[0] == 'f' && s@.subrange(0, 5)[1] == 'u' && s@.subrange(
                0,
                5,
            )[2] == 'l' && s@.subrange(0, 5)[3] == 'l' && s@.subrange(0, 5)[4] == ' ');
        }
    }
    if !is_some && !is_full {
        return None;
    }
    // find the first `total=`
    if n < 6 {
        proof {
            assert forall|q: int| !is_first_total(s@, q) by {}
        }
        return None;
    }
    let mut p: usize = 0;
    let mut found: bool = false;
    while !found && p <= n - 6
        invariant
            n >= 6,
            n == s@.len(),
            p + 6 <= n + 6,
            !found ==> forall|q: int|
                0 <= q < p ==> #[trigger] s@.subrange(q, q + 6) != "total="@,
            found ==> is_first_total(s@, p as int),
        decreases n - p + if found {
            0int
        } else {
            1int
        },
    {
        if total_at(s, p, n) {
            found = true;
        } else {
            p = p + 1;
        }
    }
    if !found {
        proof {
            assert forall|q: int| !is_first_total(s@, q) by {
                if 0 <= q && q + 6 <= s@.len() {
                    assert(s@.subrange(q, q + 6) != "total="@);
                }
            }
        }
        return None;
    }
    let rest = s.substring_char(p + 6, n);
    proof {
        assert(rest@ =~= s@.skip(p as int + 6));
        lemma_first_total_unique(s@, p as int);
    }
    match parse_u64(rest) {
        Some(v) => Some((is_full, v)),
        None => None,
    }
}

proof fn lemma_first_total_unique(s: Seq<char>, p: int)
    requires
        is_first_total(s, p),
    ensures
        (choose|q: int| is_first_total(s, q)) == p,
{
    let c = choose|q: int| is_first_total(s, q);
    assert(is_first_total(s, c)) by {
        assert(is_first_total(s, p));
    }
    if c < p {
        assert(s.subrange(c, c + 6) != "total="@);
    } else if p < c {
        assert(s.subrange(p, p + 6) != "total="@);
    }
}

/// What a whole pressure file yields: the last `some` and `full` totals,
/// zero where a kind never appears.
pub open spec fn spec_stalls(lines: Seq<Seq<char>>) -> (u64, u64)
    decreases lines.len(),
{
    if lines.len() == 0 {
        (0, 0)
    } else {
        let prev = spec_stalls(lines.drop_last());
        match spec_psi_line(lines.last()) {
            Some((full, v)) => if full {
                (prev.0, v)
            } else {
                (v, prev.1)
            },
            None => prev,
        }
    }
}

/// Reads the `some` and `full` stall totals out of a pressure file's
/// lines.
pub fn read_stalls(lines: &Vec<String>) -> (r: (u64, u64))
    ensures
        r == spec_stalls(lines@.map_values(|l: String| l@)),
{
    let ghost views = lines@.map_values(|l: String| l@);
    let mut some_v: u64 = 0;
    let mut full_v: u64 = 0;
    let mut i: usize = 0;
    while i < lines.len()
        invariant
            i <= lines@.len(),
            views == lines@.map_values(|l: String| l@),
            views.len() == lines@.len(),
            (some_v, full_v) == spec_stalls(views.take(i as int)),
        decreases lines@.len() - i,
    {
        match parse_psi_line(lines[i].as_str()) {
            Some((full, v)) => {
                if full {
                    full_v = v;
                } else {
                    some_v = v;
                }
            },
            None => {},
        }
        i = i + 1;
        proof {
            assert(views.take(i as int).drop_last() =~= views.take(i - 1));
            assert(views.take(i as int).last() == views[i - 1]);
            assert(views[i - 1] == lines@[i - 1]@);
        }
    }
    proof {
        assert(views.take(views.len() as int) =~= views);
    }
    (some_v, full_v)
}

// ---------------------------------------------------------------------------
// Flat keyed cgroup files.
/// `p` is where the first space of `s` sits.
pub open spec fn is_first_space(s: Seq<char>, p: int) -> bool {
    0 <= p < s.len() && s[p] == ' ' && forall|q: int| 0 <= q < p ==> s[q] != ' '
}

/// What one `key value` line yields.
pub open spec fn spec_flat_line(s: Seq<char>) -> Option<(Seq<char>, u64)> {
    if exists|p: int| is_first_space(s, p) {
        let p = choose|p: int| is_first_space(s, p);
        let key = s.take(p);
        let rest = s.skip(p + 1);
        if key.len() >= 1 && rest.len() >= 1 && all_digits(rest) && dec_value(rest) <= u64::MAX {
            Some((key, dec_value(rest) as u64))
        } else {
            None
        }
    } else {
        None
    }
}

/// Parses one `key value` line of a flat keyed cgroup file.
pub fn parse_flat_line(s: &str) -> (r: Option<(String, u64)>)
    ensures
        match r {
            Some((k, v)) => spec_flat_line(s@) == Some((k@, v)),
            None => spec_flat_line(s@) is None,
        },
{
    let n = s.unicode_len();
    let mut p: usize = 0;
    while p < n && s.get_char(p) != ' '
        invariant
            p <= n,
            n == s@.len(),
            forall|q: int| 0 <= q < p ==> s@[q] != ' ',
        decreases n - p,
    {
        p = p + 1;
    }
    if p >= n {
        proof {
            assert(forall|q: int| !is_first_space(s@, q));
        }
        return None;
    }
    proof {
        assert(is_first_space(s@, p as int));
        lemma_first_space_unique(s@, p as int);
    }
    if p == 0 {
        return None;
    }
    let key = s.substring_char(0, p);
    let rest = s.substring_char(p + 1, n);
    proof {
        assert(key@ =~= s@.take(p as int));
        assert(rest@ =~= s@.skip(p as int + 1));
    }
    match parse_u64(rest) {
        Some(v) => Some((String::from_str(key), v)),
        None => None,
    }
}

proof fn lemma_first_space_unique(s: Seq<char>, p: int)
    requires
        is_first_space(s, p),
    ensures
        (choose|q: int| is_first_space(s, q)) == p,
{
    let c = choose|q: int| is_first_space(s, q);
    assert(is_first_space(s, c)) by {
        assert(is_first_space(s, p));
    }
    if c < p {
        assert(s[c] == ' ');
    } else if p < c {
        assert(s[p] == ' ');
    }
}

/// The value a flat keyed file holds under `k`: the value of the first
/// parsable `key value` line whose key is `k`.
pub open spec fn spec_flat_first(lines: Seq<Seq<char>>, k: Seq<char>) -> Option<u64>
    decreases lines.len(),
{
    if lines.len() == 0 {
        None
    } else {
        let prev = spec_flat_first(lines.drop_last(), k);
        if prev is Some {
            prev
        } else {
            match spec_flat_line(lines.last()) {
                Some((k0, v)) => if k0 == k {
                    Some(v)
                } else {
                    None
                },
                None => None,
            }
        }
    }
}

/// Parses a flat keyed file: one `key value` entry per parsable line; the
/// first occurrence of a key wins and later ones are dropped, so keys
/// stay unique and every lookup yields the first line's value.
pub fn parse_flat_keyed(lines: &Vec<String>) -> (r: Vec<(String, u64)>)
    ensures
        stat_wf(r@),
        forall|k: Seq<char>|
            #[trigger] stat_get(r@, k) == spec_flat_first(lines@.map_values(|l: String| l@), k),
{
    let mut r: Vec<(String, u64)> = Vec::new();
    let ghost views = lines@.map_values(|l: String| l@);
    let mut i: usize = 0;
    proof {
        assert(views.take(0) =~= Seq::<Seq<char>>::empty());
    }
    while i < lines.len()
        invariant
            i <= lines@.len(),
            views == lines@.map_values(|l: String| l@),
            views.len() == lines@.len(),
            stat_wf(r@),
            forall|k: Seq<char>|
                #[trigger] stat_get(r@, k) == spec_flat_first(views.take(i as int), k),
        decreases lines@.len() - i,
    {
        let ghost before = r@;
        proof {
            assert(views[i as int] == lines@[i as int]@);
            assert(views.take(i + 1).drop_last() =~= views.take(i as int));
            assert(views.take(i + 1).last() == views[i as int]);
        }
        match parse_flat_line(lines[i].as_str()) {
            Some((k, v)) => {
                let dup = crate::statmap::stat_find(&r, &k);
                match dup {
                    Some(_) => {
                        proof {
                            assert forall|q: Seq<char>| #[trigger] stat_get(r@, q)
                                == spec_flat_first(views.take(i + 1), q) by {
                                if q == k@ {
                                    assert(spec_flat_first(views.take(i as int), q) is Some);
                                } else {
                                    assert(spec_flat_first(views.take(i + 1), q)
                                        == spec_flat_first(views.take(i as int), q));
                                }
                            }
                        }
                    },
                    None => {
                        let entry = (k, v);
                        proof {
                            crate::statmap::lemma_stat_get_absent(before, entry.0@);
                        }
                        r.push(entry);
                        proof {
                            assert(stat_wf(r@)) by {
                                assert(forall|x: int|
                                    0 <= x < before.len() ==> #[trigger] r@[x] == before[x]);
                                assert(forall|x: int, y: int|
                                    0 <= x < y < r@.len() ==> (#[trigger] r@[x].0@) != (
                                    #[trigger] r@[y].0@));
                            }
                            assert forall|q: Seq<char>| #[trigger] stat_get(r@, q)
                                == spec_flat_first(views.take(i + 1), q) by {
                                crate::statmap::lemma_stat_get_push(before, entry, q);
                                if q == entry.0@ {
                                    assert(spec_flat_first(views.take(i as int), q) is None);
                                } else {
                                    assert(spec_flat_first(views.take(i + 1), q)
                                        == spec_flat_first(views.take(i as int), q));
                                }
                            }
                        }
                    },
                }
            },
            None => {
                proof {
                    assert forall|q: Seq<char>| #[trigger] stat_get(r@, q) == spec_flat_first(
                        views.take(i + 1),
                        q,
                    ) by {
                        assert(spec_flat_first(views.take(i + 1), q) == spec_flat_first(
                            views.take(i as int),
                            q,
                        ));
                    }
                }
            },
        }
        i = i + 1;
    }
    proof {
        assert(views.take(views.len() as int) =~= views);
    }
    r
}

// ---------------------------------------------------------------------------
// Swap-free walk.
/// The effective swap headroom along an ancestor chain: the minimum of
/// the system-wide free swap and, per ancestor, its swap limit minus its
/// swap use (an absent limit binds nothing).
pub open spec fn spec_swap_free(base: u64, chain: Seq<(Option<u64>, u64)>) -> u64
    decreases chain.len(),
{
    if chain.len() == 0 {
        base
    } else {
        let prev = spec_swap_free(base, chain.drop_last());
        let (limit, cur) = chain.last();
        let head = match limit {
            Some(l) => if l >= cur {
                (l - cur) as u64
            } else {
                0u64
            },
            None => u64::MAX,
        };
        if head < prev {
            head
        } else {
            prev
        }
    }
}

/// Walks the ancestor chain, taking the minimum headroom.
pub fn swap_free_min(base: u64, chain: &Vec<(Option<u64>, u64)>) -> (r: u64)
    ensures
        r == spec_swap_free(base, chain@),
        r <= base,
{
    let mut free = base;
    let mut i: usize = 0;
    while i < chain.len()
        invariant
            i <= chain@.len(),
            free == spec_swap_free(base, chain@.take(i as int)),
            free <= base,
        decreases chain@.len() - i,
    {
        let head = match chain[i].0 {
            Some(l) => l.saturating_sub(chain[i].1),
            None => u64::MAX,
        };
        if head < free {
            free = head;
        }
        i = i + 1;
        proof {
            assert(chain@.take(i as int).drop_last() =~= chain@.take(i - 1));
            assert(chain@.take(i as int).last() == chain@[i - 1]);
        }
    }
    proof {
        assert(chain@.take(chain@.len() as int) =~= chain@);
    }
    free
}

// ---------------------------------------------------------------------------
// Rates and deltas.
/// One unit's usage rates over an interval, as the per-second report
/// carries them. Utilisations and pressures are in thousandths, clamped
/// to one; byte rates are per second.
pub struct UsageReport {
    pub cpu_util_milli: u64,
    pub cpu_sys_milli: u64,
    pub cpu_usage_us: u64,
    pub cpu_usage_sys_us: u64,
    pub cpu_usage_base_us: u64,
    pub mem_bytes: u64,
    pub swap_bytes: u64,
    pub swap_free: u64,
    pub io_rbytes: u64,
    pub io_wbytes: u64,
    pub io_rbps: u64,
    pub io_wbps: u64,
    pub io_util_milli: u64,
    pub cpu_pressure_some_milli: u64,
    pub cpu_pressure_full_milli: u64,
    pub mem_pressure_some_milli: u64,
    pub mem_pressure_full_milli: u64,
    pub io_pressure_some_milli: u64,
    pub io_pressure_full_milli: u64,
}

/// `(delta * 1000 / den)` clamped into `[0, 1000]`; zero when the
/// denominator is empty or the counter went backwards.
pub open spec fn spec_clamped_ratio(cur: u64, last: u64, den: u64) -> u64 {
    if den == 0 || cur < last {
        0
    } else {
        let v = (cur - last) as int * 1000 / den as int;
        if v > 1000 {
            1000
        } else {
            v as u64
        }
    }
}

pub fn clamped_ratio(cur: u64, last: u64, den: u64) -> (r: u64)
    ensures
        r == spec_clamped_ratio(cur, last, den),
        r <= 1000,
{
    if den == 0 || cur < last {
        return 0;
    }
    let wide: u128 = (cur - last) as u128 * 1000 / den as u128;
    proof {
        assert((cur - last) as int * 1000 / den as int >= 0) by (nonlinear_arith)
            requires
                den > 0,
                cur >= last,
        ;
    }
    if wide > 1000 {
        1000
    } else {
        wide as u64
    }
}

/// `delta * scale / den`, saturating; zero when the denominator is empty
/// or the counter went backwards.
pub open spec fn spec_rate(cur: u64, last: u64, scale: u64, den: u64) -> u64 {
    if den == 0 || cur < last {
        0
    } else {
        let v = (cur - last) as int * scale as int / den as int;
        if v > u64::MAX {
            u64::MAX as int as u64
        } else {
            v as u64
        }
    }
}

pub fn rate_of(cur: u64, last: u64, scale: u64, den: u64) -> (r: u64)
    requires
        scale <= 1_000_000_000,
    ensures
        r == spec_rate(cur, last, scale, den),
{
    if den == 0 || cur < last {
        return 0;
    }
    proof {
        assert((cur - last) as int * scale as int <= 0xFFFF_FFFF_FFFF_FFFF as int
            * 1_000_000_000) by (nonlinear_arith)
            requires
                cur - last <= 0xFFFF_FFFF_FFFF_FFFF as int,
                0 <= scale <= 1_000_000_000,
                cur >= last,
        ;
    }
    let wide: u128 = (cur - last) as u128 * scale as u128 / den as u128;
    proof {
        assert((cur - last) as int * scale as int / den as int >= 0 && (cur - last) as int * scale
            as int / den as int <= (cur - last) as int * scale as int) by (nonlinear_arith)
            requires
                den > 0,
                cur >= last,
                scale >= 0,
        ;
    }
    if wide > u64::MAX as u128 {
        u64::MAX
    } else {
        wide as u64
    }
}

/// Turns two samples of one unit into its usage report for the interval:
/// CPU shares against the total-CPU delta, byte and stall rates against
/// the wall-clock interval, instantaneous values copied through.
pub fn usage_report_delta(
    cur: &Usage,
    last: &Usage,
    cpu_total_delta_us: u64,
    cpu_total_us: u64,
    dur_us: u64,
) -> (r: UsageReport)
    ensures
        r == spec_usage_report(
            scalars_of(*cur),
            scalars_of(*last),
            cpu_total_delta_us,
            cpu_total_us,
            dur_us,
        ),
{
    UsageReport {
        cpu_util_milli: clamped_ratio(cur.cpu_busy_us, last.cpu_busy_us, cpu_total_delta_us),
        cpu_sys_milli: clamped_ratio(cur.cpu_sys_us, last.cpu_sys_us, cpu_total_delta_us),
        cpu_usage_us: cur.cpu_busy_us,
        cpu_usage_sys_us: cur.cpu_sys_us,
        cpu_usage_base_us: cpu_total_us,
        mem_bytes: cur.mem_bytes,
        swap_bytes: cur.swap_bytes,
        swap_free: cur.swap_free,
        io_rbytes: cur.io_rbytes,
        io_wbytes: cur.io_wbytes,
        io_rbps: rate_of(cur.io_rbytes, last.io_rbytes, 1_000_000, dur_us),
        io_wbps: rate_of(cur.io_wbytes, last.io_wbytes, 1_000_000, dur_us),
        io_util_milli: rate_of(cur.io_usage_us, last.io_usage_us, 1000, dur_us),
        cpu_pressure_some_milli: clamped_ratio(
            cur.cpu_stall_some_us,
            last.cpu_stall_some_us,
            dur_us,
        ),
        cpu_pressure_full_milli: clamped_ratio(
            cur.cpu_stall_full_us,
            last.cpu_stall_full_us,
            dur_us,
        ),
        mem_pressure_some_milli: clamped_ratio(
            cur.mem_stall_some_us,
            last.mem_stall_some_us,
            dur_us,
        ),
        mem_pressure_full_milli: clamped_ratio(
            cur.mem_stall_full_us,
            last.mem_stall_full_us,
            dur_us,
        ),
        io_pressure_some_milli: clamped_ratio(cur.io_stall_some_us, last.io_stall_some_us, dur_us),
        io_pressure_full_milli: clamped_ratio(cur.io_stall_full_us, last.io_stall_full_us, dur_us),
    }
}

// ---------------------------------------------------------------------------
// The usage tracker.
/// The scalar half of a `Usage`, as the delta arithmetic reads it.
#[derive(Clone, Copy, Debug, PartialEq, Eq, Structural)]
pub struct UsageScalars {
    pub cpu_busy_us: u64,
    pub cpu_sys_us: u64,
    pub mem_bytes: u64,
    pub swap_bytes: u64,
    pub swap_free: u64,
    pub io_rbytes: u64,
    pub io_wbytes: u64,
    pub io_usage_us: u64,
    pub cpu_stall_some_us: u64,
    pub cpu_stall_full_us: u64,
    pub mem_stall_some_us: u64,
    pub mem_stall_full_us: u64,
    pub io_stall_some_us: u64,
    pub io_stall_full_us: u64,
}

pub open spec fn scalars_of(u: Usage) -> UsageScalars {
    UsageScalars {
        cpu_busy_us: u.cpu_busy_us,
        cpu_sys_us: u.cpu_sys_us,
        mem_bytes: u.mem_bytes,
        swap_bytes: u.swap_bytes,
        swap_free: u.swap_free,
        io_rbytes: u.io_rbytes,
        io_wbytes: u.io_wbytes,
        io_usage_us: u.io_usage_us,
        cpu_stall_some_us: u.cpu_stall_some_us,
        cpu_stall_full_us: u.cpu_stall_full_us,
        mem_stall_some_us: u.mem_stall_some_us,
        mem_stall_full_us: u.mem_stall_full_us,
        io_stall_some_us: u.io_stall_some_us,
        io_stall_full_us: u.io_stall_full_us,
    }
}

pub open spec fn zero_scalars() -> UsageScalars {
    UsageScalars {
        cpu_busy_us: 0,
        cpu_sys_us: 0,
        mem_bytes: 0,
        swap_bytes: 0,
        swap_free: 0,
        io_rbytes: 0,
        io_wbytes: 0,
        io_usage_us: 0,
        cpu_stall_some_us: 0,
        cpu_stall_full_us: 0,
        mem_stall_some_us: 0,
        mem_stall_full_us: 0,
        io_stall_some_us: 0,
        io_stall_full_us: 0,
    }
}

/// The whole report that two samples of one unit yield.
pub open spec fn spec_usage_report(
    cur: UsageScalars,
    last: UsageScalars,
    cpu_total_delta_us: u64,
    cpu_total_us: u64,
    dur_us: u64,
) -> UsageReport {
    UsageReport {
        cpu_util_milli: spec_clamped_ratio(cur.cpu_busy_us, last.cpu_busy_us, cpu_total_delta_us),
        cpu_sys_milli: spec_clamped_ratio(cur.cpu_sys_us, last.cpu_sys_us, cpu_total_delta_us),
        cpu_usage_us: cur.cpu_busy_us,
        cpu_usage_sys_us: cur.cpu_sys_us,
        cpu_usage_base_us: cpu_total_us,
        mem_bytes: cur.mem_bytes,
        swap_bytes: cur.swap_bytes,
        swap_free: cur.swap_free,
        io_rbytes: cur.io_rbytes,
        io_wbytes: cur.io_wbytes,
        io_rbps: spec_rate(cur.io_rbytes, last.io_rbytes, 1_000_000, dur_us),
        io_wbps: spec_rate(cur.io_wbytes, last.io_wbytes, 1_000_000, dur_us),
        io_util_milli: spec_rate(cur.io_usage_us, last.io_usage_us, 1000, dur_us),
        cpu_pressure_some_milli: spec_clamped_ratio(
            cur.cpu_stall_some_us,
            last.cpu_stall_some_us,
            dur_us,
        ),
        cpu_pressure_full_milli: spec_clamped_ratio(
            cur.cpu_stall_full_us,
            last.cpu_stall_full_us,
            dur_us,
        ),
        mem_pressure_some_milli: spec_clamped_ratio(
            cur.mem_stall_some_us,
            last.mem_stall_some_us,
            dur_us,
        ),
        mem_pressure_full_milli: spec_clamped_ratio(
            cur.mem_stall_full_us,
            last.mem_stall_full_us,
            dur_us,
        ),
        io_pressure_some_milli: spec_clamped_ratio(
            cur.io_stall_some_us,
            last.io_stall_some_us,
            dur_us,
        ),
        io_pressure_full_milli: spec_clamped_ratio(
            cur.io_stall_full_us,
            last.io_stall_full_us,
            dur_us,
        ),
    }
}

/// The remembered sample for a unit: the first entry under that name.
pub open spec fn spec_lookup(us: Seq<(String, Usage)>, name: Seq<char>) -> Option<UsageScalars>
    decreases us.len(),
{
    if us.len() == 0 {
        None
    } else if us[0].0@ == name {
        Some(scalars_of(us[0].1))
    } else {
        spec_lookup(us.skip(1), name)
    }
}

pub open spec fn spec_lookup_or_zero(us: Seq<(String, Usage)>, name: Seq<char>) -> UsageScalars {
    match spec_lookup(us, name) {
        Some(s) => s,
        None => zero_scalars(),
    }
}

/// Remembers the previous sample per unit, so each update can report
/// deltas. A unit seen for the first time is measured against zero.
pub struct UsageTracker {
    pub at_us: u64,
    pub cpu_total_us: u64,
    pub usages: Vec<(String, Usage)>,
}

impl UsageTracker {
    pub fn new(now_us: u64) -> (r: UsageTracker)
        ensures
            r.at_us == now_us,
            r.cpu_total_us == 0,
            r.usages@.len() == 0,
    {
        UsageTracker { at_us: now_us, cpu_total_us: 0, usages: Vec::new() }
    }

    /// Folds a fresh set of samples in: reports one delta per sampled
    /// unit, against the remembered sample where one exists and against
    /// zero otherwise, then remembers the fresh set. The total-CPU delta
    /// divides the CPU shares; the wall-clock interval divides the rates.
    pub fn update(&mut self, fresh: Vec<(String, Usage)>, cpu_total_us: u64, now_us: u64) -> (r:
        Vec<(String, UsageReport)>)
        requires
            now_us >= old(self).at_us,
        ensures
            final(self).at_us == now_us,
            final(self).cpu_total_us == cpu_total_us,
            r@.len() == final(self).usages@.len(),
            forall|i: int|
                0 <= i < r@.len() ==> (#[trigger] r@[i].0@) == final(self).usages@[i].0@
                    && r@[i].1 == spec_usage_report(
                    scalars_of(final(self).usages@[i].1),
                    spec_lookup_or_zero(old(self).usages@, final(self).usages@[i].0@),
                    spec_sat_sub64(cpu_total_us, old(self).cpu_total_us),
                    cpu_total_us,
                    (now_us - old(self).at_us) as u64,
                ),
    {
        let dur_us = now_us - self.at_us;
        let cpu_delta = cpu_total_us.saturating_sub(self.cpu_total_us);
        let mut reps: Vec<(String, UsageReport)> = Vec::new();
        let ghost old_usages = self.usages@;
        let mut i: usize = 0;
        while i < fresh.len()
            invariant
                i <= fresh@.len(),
                reps@.len() == i,
                self.usages@ == old_usages,
                dur_us == now_us - old(self).at_us,
                cpu_delta == spec_sat_sub64(cpu_total_us, old(self).cpu_total_us),
                forall|j: int|
                    0 <= j < i ==> (#[trigger] reps@[j].0@) == fresh@[j].0@ && reps@[j].1
                        == spec_usage_report(
                        scalars_of(fresh@[j].1),
                        spec_lookup_or_zero(old_usages, fresh@[j].0@),
                        cpu_delta,
                        cpu_total_us,
                        dur_us,
                    ),
            decreases fresh@.len() - i,
        {
            let prev_zero = Usage::zero();
            let found = lookup_usage(&self.usages, &fresh[i].0);
            let rep = match found {
                Some(at) => usage_report_delta(
                    &fresh[i].1,
                    &self.usages[at].1,
                    cpu_delta,
                    cpu_total_us,
                    dur_us,
                ),
                None => usage_report_delta(&fresh[i].1, &prev_zero, cpu_delta, cpu_total_us, dur_us),
            };
            proof {
                match found {
                    Some(at) => {
                        assert(spec_lookup_or_zero(old_usages, fresh@[i as int].0@) == scalars_of(
                            old_usages[at as int].1,
                        ));
                    },
                    None => {
                        assert(spec_lookup_or_zero(old_usages, fresh@[i as int].0@)
                            == zero_scalars());
                        assert(scalars_of(prev_zero) == zero_scalars());
                    },
                }
            }
            reps.push((copy_name(&fresh[i].0), rep));
            proof {
                assert(reps@[i as int].0@ == fresh@[i as int].0@);
                assert(reps@[i as int].1 == spec_usage_report(
                    scalars_of(fresh@[i as int].1),
                    spec_lookup_or_zero(old_usages, fresh@[i as int].0@),
                    cpu_delta,
                    cpu_total_us,
                    dur_us,
                ));
            }
            i = i + 1;
        }
        self.at_us = now_us;
        self.cpu_total_us = cpu_total_us;
        self.usages = fresh;
        reps
    }
}

pub open spec fn spec_sat_sub64(a: u64, b: u64) -> u64 {
    if a >= b {
        (a - b) as u64
    } else {
        0u64
    }
}

/// Finds the first remembered sample under `name`, and ties it to the
/// lookup the contracts speak of.
fn lookup_usage(us: &Vec<(String, Usage)>, name: &String) -> (r: Option<usize>)
    ensures
        match r {
            Some(at) => at < us@.len() && spec_lookup(us@, name@) == Some(
                scalars_of(us@[at as int].1),
            ),
            None => spec_lookup(us@, name@) is None,
        },
{
    proof {
        assert(us@.skip(0) =~= us@);
    }
    let mut at: usize = 0;
    while at < us.len()
        invariant
            at <= us@.len(),
            spec_lookup(us@, name@) == spec_lookup(us@.skip(at as int), name@),
        decreases us@.len() - at,
    {
        proof {
            assert(us@.skip(at as int)[0] == us@[at as int]);
            assert(us@.skip(at as int).skip(1) =~= us@.skip(at as int + 1));
        }
        if us[at].0.eq(name) {
            return Some(at);
        }
        at = at + 1;
    }
    proof {
        assert(us@.skip(us@.len() as int).len() == 0);
    }
    None
}

fn copy_name(s: &String) -> (r: String)
    ensures
        r@ == s@,
{
    String::from_str(s.as_str())
}

// ---------------------------------------------------------------------------
// Whole-system usage assembly.
/// The per-mode CPU tick counters of the whole machine, plus the tick
/// rate.
#[derive(Clone, Copy, Debug, PartialEq, Eq, Structural)]
pub struct SystemCpuTicks {
    pub user: u64,
    pub nice: u64,
    pub system: u64,
    pub idle: u64,
    pub iowait: u64,
    pub irq: u64,
    pub softirq: u64,
    pub steal: u64,
    pub guest: u64,
    pub guest_nice: u64,
    /// ticks per second
    pub tps: u64,
}

/// The machine's total CPU time in ticks: every mode summed, saturating.
pub open spec fn spec_total_ticks(t: SystemCpuTicks) -> nat {
    sat8(
        sat8(
            sat8(
                sat8(
                    sat8(
                        sat8(
                            sat8(
                                sat8(sat8(t.user as nat, t.nice as nat), t.system as nat),
                                t.idle as nat,
                            ),
                            t.iowait as nat,
                        ),
                        t.irq as nat,
                    ),
                    t.softirq as nat,
                ),
                t.steal as nat,
            ),
            t.guest as nat,
        ),
        t.guest_nice as nat,
    )
}

pub open spec fn sat8(a: nat, b: nat) -> nat {
    if a + b > u64::MAX {
        u64::MAX as nat
    } else {
        a + b
    }
}

/// Ticks turned into microseconds at the machine's tick rate, saturating.
pub open spec fn spec_ticks_to_us(ticks: nat, tps: u64) -> u64 {
    if tps == 0 {
        0
    } else if ticks * 1_000_000 / tps as nat > u64::MAX {
        u64::MAX as int as u64
    } else {
        (ticks * 1_000_000 / tps as nat) as u64
    }
}

fn ticks_to_us(ticks: u64, tps: u64) -> (r: u64)
    ensures
        r == spec_ticks_to_us(ticks as nat, tps),
{
    if tps == 0 {
        return 0;
    }
    proof {
        assert(ticks as int * 1_000_000 <= 0xFFFF_FFFF_FFFF_FFFF as int * 1_000_000) by (
        nonlinear_arith)
            requires
                0 <= ticks <= 0xFFFF_FFFF_FFFF_FFFF as int,
        ;
        assert(ticks as int * 1_000_000 / tps as int >= 0) by (nonlinear_arith)
            requires
                ticks >= 0,
                tps > 0,
        ;
    }
    let wide: u128 = ticks as u128 * 1_000_000 / tps as u128;
    if wide > u64::MAX as u128 {
        u64::MAX
    } else {
        wide as u64
    }
}

/// The system-wide CPU times one sample yields: total, busy (total minus
/// idle and iowait) and system time, in microseconds.
pub fn system_cpu_times(t: &SystemCpuTicks) -> (r: (u64, u64, u64))
    ensures
        r.0 == spec_ticks_to_us(spec_total_ticks(*t), t.tps),
        r.1 == spec_ticks_to_us(
            spec_sat_sub_nat(
                spec_sat_sub_nat(spec_total_ticks(*t), t.idle as nat),
                t.iowait as nat,
            ),
            t.tps,
        ),
        r.2 == spec_ticks_to_us(t.system as nat, t.tps),
{
    let total: u64 = t
        .user
        .saturating_add(t.nice)
        .saturating_add(t.system)
        .saturating_add(t.idle)
        .saturating_add(t.iowait)
        .saturating_add(t.irq)
        .saturating_add(t.softirq)
        .saturating_add(t.steal)
        .saturating_add(t.guest)
        .saturating_add(t.guest_nice);
    let busy: u64 = total.saturating_sub(t.idle).saturating_sub(t.iowait);
    (ticks_to_us(total, t.tps), ticks_to_us(busy, t.tps), ticks_to_us(t.system, t.tps))
}

pub open spec fn spec_sat_sub_nat(a: nat, b: nat) -> nat {
    if a >= b {
        (a - b) as nat
    } else {
        0
    }
}

/// Assembles the whole-system usage record out of the kernel readers'
/// raw values: used memory and swap as total minus free, disk bytes from
/// sectors, and the machine-wide pressure totals.
pub fn system_usage_from_raw(
    ticks: &SystemCpuTicks,
    mem_total: u64,
    mem_free: u64,
    swap_total: u64,
    swap_free: u64,
    sectors_read: u64,
    sectors_written: u64,
    io_usage_us: u64,
    cpu_psi: (u64, u64),
    mem_psi: (u64, u64),
    io_psi: (u64, u64),
    mem_stat: Vec<(String, u64)>,
    io_stat: Vec<(String, u64)>,
) -> (r: (Usage, u64))
    requires
        sectors_read <= u64::MAX / 512,
        sectors_written <= u64::MAX / 512,
    ensures
        r.1 == spec_ticks_to_us(spec_total_ticks(*ticks), ticks.tps),
        r.0.cpu_busy_us == spec_ticks_to_us(
            spec_sat_sub_nat(
                spec_sat_sub_nat(spec_total_ticks(*ticks), ticks.idle as nat),
                ticks.iowait as nat,
            ),
            ticks.tps,
        ),
        r.0.cpu_sys_us == spec_ticks_to_us(ticks.system as nat, ticks.tps),
        r.0.mem_bytes == spec_sat_sub64(mem_total, mem_free),
        r.0.swap_bytes == spec_sat_sub64(swap_total, swap_free),
        r.0.swap_free == swap_free,
        r.0.io_rbytes == sectors_read * 512,
        r.0.io_wbytes == sectors_written * 512,
        r.0.io_usage_us == io_usage_us,
        r.0.cpu_stall_some_us == cpu_psi.0 && r.0.cpu_stall_full_us == cpu_psi.1,
        r.0.mem_stall_some_us == mem_psi.0 && r.0.mem_stall_full_us == mem_psi.1,
        r.0.io_stall_some_us == io_psi.0 && r.0.io_stall_full_us == io_psi.1,
        r.0.mem_stat@ == mem_stat@,
        r.0.io_stat@ == io_stat@,
{
    let (total_us, busy_us, sys_us) = system_cpu_times(ticks);
    let u = Usage {
        cpu_busy_us: busy_us,
        cpu_sys_us: sys_us,
        mem_bytes: mem_total.saturating_sub(mem_free),
        swap_bytes: swap_total.saturating_sub(swap_free),
        swap_free,
        io_rbytes: sectors_read * 512,
        io_wbytes: sectors_written * 512,
        io_usage_us,
        cpu_stall_some_us: cpu_psi.0,
        cpu_stall_full_us: cpu_psi.1,
        mem_stall_some_us: mem_psi.0,
        mem_stall_full_us: mem_psi.1,
        io_stall_some_us: io_psi.0,
        io_stall_full_us: io_psi.1,
        mem_stat,
        io_stat,
    };
    (u, total_us)
}

/// Assembles one cgroup's usage record out of its parsed files: the CPU
/// times come from the flat `cpu.stat` keys, everything else is carried
/// through.
pub fn cgroup_usage_assemble(
    cpu_stat: &Vec<(String, u64)>,
    mem_current: u64,
    swap_current: u64,
    swap_free: u64,
    io_rbytes: u64,
    io_wbytes: u64,
    io_usage_us: u64,
    cpu_psi: (u64, u64),
    mem_psi: (u64, u64),
    io_psi: (u64, u64),
    mem_stat: Vec<(String, u64)>,
    io_stat: Vec<(String, u64)>,
) -> (r: Usage)
    requires
        stat_wf(cpu_stat@),
    ensures
        r.cpu_busy_us == (match stat_get(cpu_stat@, "usage_usec"@) {
            Some(v) => v,
            None => 0u64,
        }),
        r.cpu_sys_us == (match stat_get(cpu_stat@, "system_usec"@) {
            Some(v) => v,
            None => 0u64,
        }),
        r.mem_bytes == mem_current,
        r.swap_bytes == swap_current,
        r.swap_free == swap_free,
        r.io_rbytes == io_rbytes,
        r.io_wbytes == io_wbytes,
        r.io_usage_us == io_usage_us,
        r.cpu_stall_some_us == cpu_psi.0 && r.cpu_stall_full_us == cpu_psi.1,
        r.mem_stall_some_us == mem_psi.0 && r.mem_stall_full_us == mem_psi.1,
        r.io_stall_some_us == io_psi.0 && r.io_stall_full_us == io_psi.1,
        r.mem_stat@ == mem_stat@,
        r.io_stat@ == io_stat@,
{
    let busy_key = String::from_str("usage_usec");
    let sys_key = String::from_str("system_usec");
    let cpu_busy_us = match crate::statmap::stat_find(cpu_stat, &busy_key) {
        Some(i) => cpu_stat[i].1,
        None => 0,
    };
    let cpu_sys_us = match crate::statmap::stat_find(cpu_stat, &sys_key) {
        Some(i) => cpu_stat[i].1,
        None => 0,
    };
    Usage {
        cpu_busy_us,
        cpu_sys_us,
        mem_bytes: mem_current,
        swap_bytes: swap_current,
        swap_free,
        io_rbytes,
        io_wbytes,
        io_usage_us,
        cpu_stall_some_us: cpu_psi.0,
        cpu_stall_full_us: cpu_psi.1,
        mem_stall_some_us: mem_psi.0,
        mem_stall_full_us: mem_psi.1,
        io_stall_some_us: io_psi.0,
        io_stall_full_us: io_psi.1,
        mem_stat,
        io_stat,
    }
}

} // verus!
