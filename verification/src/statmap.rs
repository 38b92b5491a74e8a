//! Keyed stat maps as the report pipeline carries them: association lists
//! from stat name to value, with unique keys. Samples are merged by adding
//! values key-wise (saturating) and summaries are taken by dividing every
//! value by the sample count.
use vstd::prelude::*;

verus! {

/// `a + b` clamped to the `u64` range.
pub open spec fn sat_add(a: nat, b: nat) -> nat {
    if a + b > u64::MAX {
        u64::MAX as nat
    } else {
        a + b
    }
}

/// Keys occur at most once.
pub open spec fn stat_wf(m: Seq<(String, u64)>) -> bool {
    forall|i: int, j: int| 0 <= i < j < m.len() ==> (#[trigger] m[i].0@) != (#[trigger] m[j].0@)
}

/// The value under `k`, scanning from the back.
pub open spec fn stat_get(m: Seq<(String, u64)>, k: Seq<char>) -> Option<u64>
    decreases m.len(),
{
    if m.len() == 0 {
        None
    } else if m.last().0@ == k {
        Some(m.last().1)
    } else {
        stat_get(m.drop_last(), k)
    }
}

/// What merging `b` into `a` leaves under each key.
pub open spec fn spec_merged(a: Seq<(String, u64)>, b: Seq<(String, u64)>, k: Seq<char>) -> Option<
    u64,
> {
    match (stat_get(a, k), stat_get(b, k)) {
        (Some(x), Some(y)) => Some(sat_add(x as nat, y as nat) as u64),
        (Some(x), None) => Some(x),
        (None, Some(y)) => Some(y),
        (None, None) => None,
    }
}

/// A found key is the key of exactly the found entry.
pub proof fn lemma_stat_get_index(m: Seq<(String, u64)>, i: int)
    requires
        stat_wf(m),
        0 <= i < m.len(),
    ensures
        stat_get(m, m[i].0@) == Some(m[i].1),
    decreases m.len(),
{
    if i == m.len() - 1 {
    } else {
        assert(m.last().0@ != m[i].0@);
        assert(m.drop_last()[i] == m[i]);
        assert(stat_wf(m.drop_last())) by {
            assert(forall|x: int, y: int|
                0 <= x < y < m.len() - 1 ==> (#[trigger] m.drop_last()[x].0@) != (
                #[trigger] m.drop_last()[y].0@)) by {
                assert(forall|x: int|
                    0 <= x < m.len() - 1 ==> #[trigger] m.drop_last()[x] == m[x]);
            }
        }
        lemma_stat_get_index(m.drop_last(), i);
    }
}

/// A key under which nothing is found keys no entry.
pub proof fn lemma_stat_get_absent(m: Seq<(String, u64)>, k: Seq<char>)
    requires
        stat_get(m, k) is None,
    ensures
        forall|i: int| 0 <= i < m.len() ==> (#[trigger] m[i].0@) != k,
    decreases m.len(),
{
    if m.len() > 0 {
        lemma_stat_get_absent(m.drop_last(), k);
        assert forall|i: int| 0 <= i < m.len() implies (#[trigger] m[i].0@) != k by {
            if i < m.len() - 1 {
                assert(m.drop_last()[i] == m[i]);
                assert(m.drop_last()[i].0@ != k);
            } else {
                assert(m[i] == m.last());
            }
        }
    }
}

/// Pushing a fresh key leaves every other key's value alone.
pub proof fn lemma_stat_get_push(m: Seq<(String, u64)>, e: (String, u64), k: Seq<char>)
    ensures
        stat_get(m.push(e), k) == if e.0@ == k {
            Some(e.1)
        } else {
            stat_get(m, k)
        },
{
    assert(m.push(e).drop_last() =~= m);
}

/// Updating index `i` changes that entry's key only.
pub proof fn lemma_stat_get_update(m: Seq<(String, u64)>, i: int, e: (String, u64), k: Seq<char>)
    requires
        0 <= i < m.len(),
        stat_wf(m),
        e.0@ == m[i].0@,
    ensures
        stat_get(m.update(i, e), k) == if m[i].0@ == k {
            Some(e.1)
        } else {
            stat_get(m, k)
        },
        stat_wf(m.update(i, e)),
    decreases m.len(),
{
    let u = m.update(i, e);
    assert(stat_wf(u)) by {
        assert(forall|x: int, y: int|
            0 <= x < y < u.len() ==> (#[trigger] u[x].0@) != (#[trigger] u[y].0@)) by {
            assert(forall|x: int| 0 <= x < u.len() && x != i ==> #[trigger] u[x] == m[x]);
            assert(u[i].0@ == m[i].0@);
        }
    }
    if i == m.len() - 1 {
        assert(u.last() == e);
        assert(u.drop_last() =~= m.drop_last());
        if m[i].0@ != k {
            assert(m.last().0@ != k);
        }
    } else {
        assert(u.last() == m.last());
        assert(u.drop_last() =~= m.drop_last().update(i, e));
        assert(m.drop_last()[i] == m[i]);
        assert(stat_wf(m.drop_last())) by {
            assert(forall|x: int| 0 <= x < m.len() - 1 ==> #[trigger] m.drop_last()[x] == m[x]);
        }
        lemma_stat_get_update(m.drop_last(), i, e, k);
        if m.last().0@ == k {
            assert(m[i].0@ != k);
        }
    }
}

/// Finds the entry keyed `k`.
pub fn stat_find(m: &Vec<(String, u64)>, k: &String) -> (r: Option<usize>)
    requires
        stat_wf(m@),
    ensures
        match r {
            Some(i) => i < m@.len() && m@[i as int].0@ == k@ && stat_get(m@, k@) == Some(
                m@[i as int].1,
            ),
            None => stat_get(m@, k@) is None,
        },
{
    let mut i: usize = 0;
    while i < m.len()
        invariant
            stat_wf(m@),
            i <= m@.len(),
            forall|j: int| 0 <= j < i ==> (#[trigger] m@[j].0@) != k@,
        decreases m@.len() - i,
    {
        if m[i].0.eq(k) {
            proof {
                lemma_stat_get_index(m@, i as int);
            }
            return Some(i);
        }
        i = i + 1;
    }
    proof {
        if stat_get(m@, k@) is Some {
            lemma_stat_get_some_index(m@, k@);
        }
    }
    None
}

/// A found value belongs to some entry.
proof fn lemma_stat_get_some_index(m: Seq<(String, u64)>, k: Seq<char>)
    requires
        stat_get(m, k) is Some,
    ensures
        exists|i: int| 0 <= i < m.len() && (#[trigger] m[i].0@) == k,
    decreases m.len(),
{
    if m.len() > 0 {
        if m.last().0@ == k {
            assert(m[m.len() - 1].0@ == k);
        } else {
            lemma_stat_get_some_index(m.drop_last(), k);
            let i = choose|i: int|
                0 <= i < m.drop_last().len() && (#[trigger] m.drop_last()[i].0@) == k;
            assert(m[i].0@ == k);
        }
    }
}

/// Merges `rhs` into `lhs`: key-wise saturating addition, fresh keys
/// appended in `rhs` order.
pub fn acc_stat_map(lhs: &mut Vec<(String, u64)>, rhs: &Vec<(String, u64)>)
    requires
        stat_wf(old(lhs)@),
        stat_wf(rhs@),
    ensures
        stat_wf(final(lhs)@),
        forall|k: Seq<char>|
            #[trigger] stat_get(final(lhs)@, k) == spec_merged(old(lhs)@, rhs@, k),
{
    let ghost lhs0 = lhs@;
    let mut i: usize = 0;
    while i < rhs.len()
        invariant
            stat_wf(rhs@),
            stat_wf(lhs@),
            i <= rhs@.len(),
            forall|k: Seq<char>|
                #[trigger] stat_get(lhs@, k) == spec_merged(lhs0, rhs@.take(i as int), k),
        decreases rhs@.len() - i,
    {
        let ghost before = lhs@;
        let key = &rhs[i].0;
        let v = rhs[i].1;
        proof {
            lemma_stat_get_index(rhs@, i as int);
            assert(rhs@.take(i + 1).drop_last() =~= rhs@.take(i as int));
            assert(rhs@.take(i + 1).last() == rhs@[i as int]);
            // the key at i is fresh within the prefix
            if stat_get(rhs@.take(i as int), key@) is Some {
                lemma_stat_get_some_index(rhs@.take(i as int), key@);
                let w = choose|x: int|
                    0 <= x < rhs@.take(i as int).len() && (#[trigger] rhs@.take(
                        i as int,
                    )[x].0@) == key@;
                assert(rhs@[w].0@ == rhs@[i as int].0@);
                assert(false);
            }
        }
        match stat_find(lhs, key) {
            Some(at) => {
                let merged = v.saturating_add(lhs[at].1);
                let entry = (string_copy_local(key), merged);
                proof {
                    lemma_stat_get_update(lhs@, at as int, entry, key@);
                }
                lhs[at] = entry;
                proof {
                    assert forall|k: Seq<char>| #[trigger] stat_get(lhs@, k) == spec_merged(
                        lhs0,
                        rhs@.take(i + 1),
                        k,
                    ) by {
                        lemma_stat_get_update(before, at as int, entry, k);
                    }
                }
            },
            None => {
                let entry = (string_copy_local(key), v);
                lhs.push(entry);
                proof {
                    assert forall|k: Seq<char>| #[trigger] stat_get(lhs@, k) == spec_merged(
                        lhs0,
                        rhs@.take(i + 1),
                        k,
                    ) by {
                        lemma_stat_get_push(before, entry, k);
                    }
                    assert(stat_wf(lhs@)) by {
                        lemma_stat_get_absent(before, key@);
                        assert(forall|x: int|
                            0 <= x < before.len() ==> #[trigger] lhs@[x] == before[x]);
                        assert(forall|x: int, y: int|
                            0 <= x < y < lhs@.len() ==> (#[trigger] lhs@[x].0@) != (
                            #[trigger] lhs@[y].0@));
                    }
                }
            },
        }
        i = i + 1;
    }
    proof {
        assert(rhs@.take(rhs@.len() as int) =~= rhs@);
    }
}

/// Divides every value by `div`, keeping keys.
pub fn div_stat_map(lhs: &mut Vec<(String, u64)>, div: u64)
    requires
        stat_wf(old(lhs)@),
        div > 0,
    ensures
        stat_wf(final(lhs)@),
        final(lhs)@.len() == old(lhs)@.len(),
        forall|i: int|
            0 <= i < final(lhs)@.len() ==> (#[trigger] final(lhs)@[i].0@) == old(lhs)@[i].0@
                && final(lhs)@[i].1 == old(lhs)@[i].1 / div,
{
    let mut i: usize = 0;
    while i < lhs.len()
        invariant
            div > 0,
            lhs@.len() == old(lhs)@.len(),
            i <= lhs@.len(),
            forall|j: int|
                i <= j < lhs@.len() ==> #[trigger] lhs@[j] == old(lhs)@[j],
            forall|j: int|
                0 <= j < i ==> (#[trigger] lhs@[j].0@) == old(lhs)@[j].0@ && lhs@[j].1 == old(
                    lhs,
                )@[j].1 / div,
        decreases lhs@.len() - i,
    {
        let nv = lhs[i].1 / div;
        let key = string_copy_local(&lhs[i].0);
        lhs[i] = (key, nv);
        proof {
            assert(lhs@[i as int].0@ == old(lhs)@[i as int].0@ && lhs@[i as int].1 == old(
                lhs,
            )@[i as int].1 / div);
        }
        i = i + 1;
    }
    proof {
        assert(stat_wf(lhs@)) by {
            assert(forall|x: int, y: int|
                0 <= x < y < lhs@.len() ==> (#[trigger] lhs@[x].0@) != (#[trigger] lhs@[y].0@))
                by {
                assert(forall|x: int|
                    0 <= x < lhs@.len() ==> (#[trigger] lhs@[x].0@) == old(lhs)@[x].0@);
            }
        }
    }
}


/// Division mapped over an optional value.
pub open spec fn spec_div_opt(v: Option<u64>, div: u64) -> Option<u64> {
    match v {
        Some(x) => Some((x as int / div as int) as u64),
        None => None,
    }
}

/// Key-wise: dividing every value divides every lookup.
pub proof fn lemma_stat_get_divided(before: Seq<(String, u64)>, after: Seq<(String, u64)>, div: u64)
    requires
        div > 0,
        after.len() == before.len(),
        forall|i: int|
            0 <= i < after.len() ==> (#[trigger] after[i].0@) == before[i].0@ && after[i].1
                == before[i].1 / div,
    ensures
        forall|k: Seq<char>|
            #[trigger] stat_get(after, k) == spec_div_opt(stat_get(before, k), div),
    decreases before.len(),
{
    if before.len() > 0 {
        assert(after.drop_last().len() == before.drop_last().len());
        assert(forall|i: int|
            0 <= i < after.len() - 1 ==> #[trigger] after.drop_last()[i] == after[i]
                && before.drop_last()[i] == before[i]);
        lemma_stat_get_divided(before.drop_last(), after.drop_last(), div);
        assert(after.last().0@ == before.last().0@);
        assert(after.last().1 == before.last().1 / div);
        assert forall|k: Seq<char>| #[trigger] stat_get(after, k) == spec_div_opt(
            stat_get(before, k),
            div,
        ) by {
            if after.last().0@ == k {
            } else {
                assert(stat_get(after, k) == stat_get(after.drop_last(), k));
                assert(stat_get(before, k) == stat_get(before.drop_last(), k));
            }
        }
    }
}

/// Key-wise: equal entries give equal lookups.
pub proof fn lemma_stat_get_pointwise(a: Seq<(String, u64)>, b: Seq<(String, u64)>)
    requires
        a.len() == b.len(),
        forall|i: int|
            0 <= i < a.len() ==> (#[trigger] a[i].0@) == b[i].0@ && a[i].1 == b[i].1,
    ensures
        forall|k: Seq<char>| #[trigger] stat_get(a, k) == stat_get(b, k),
    decreases a.len(),
{
    if a.len() > 0 {
        assert(forall|i: int|
            0 <= i < a.len() - 1 ==> #[trigger] a.drop_last()[i] == a[i] && b.drop_last()[i]
                == b[i]);
        lemma_stat_get_pointwise(a.drop_last(), b.drop_last());
        assert forall|k: Seq<char>| #[trigger] stat_get(a, k) == stat_get(b, k) by {
            if a.last().0@ == k {
            } else {
                assert(stat_get(a, k) == stat_get(a.drop_last(), k));
                assert(stat_get(b, k) == stat_get(b.drop_last(), k));
            }
        }
    }
}

/// Per-slice stat maps: slice name -> stat map.
pub open spec fn slice_wf(m: Seq<(String, Vec<(String, u64)>)>) -> bool {
    &&& (forall|i: int, j: int|
        0 <= i < j < m.len() ==> (#[trigger] m[i].0@) != (#[trigger] m[j].0@))
    &&& (forall|i: int| 0 <= i < m.len() ==> stat_wf(#[trigger] m[i].1@))
}

/// Slice names occur at most once.
pub open spec fn slice_keys_unique(m: Seq<(String, Vec<(String, u64)>)>) -> bool {
    forall|i: int, j: int| 0 <= i < j < m.len() ==> (#[trigger] m[i].0@) != (#[trigger] m[j].0@)
}

/// The inner map under a slice name, scanning from the back.
pub open spec fn slice_get(m: Seq<(String, Vec<(String, u64)>)>, name: Seq<char>) -> Option<
    Seq<(String, u64)>,
>
    decreases m.len(),
{
    if m.len() == 0 {
        None
    } else if m.last().0@ == name {
        Some(m.last().1@)
    } else {
        slice_get(m.drop_last(), name)
    }
}

/// A key's value within a named slice.
pub open spec fn spec_slice_val(
    m: Seq<(String, Vec<(String, u64)>)>,
    name: Seq<char>,
    k: Seq<char>,
) -> Option<u64> {
    match slice_get(m, name) {
        Some(inner) => stat_get(inner, k),
        None => None,
    }
}

/// What the per-slice merge leaves under each slice and key: maps are
/// merged key-wise where both sides know the slice, carried through where
/// only one does.
pub open spec fn spec_slice_merged(
    a: Seq<(String, Vec<(String, u64)>)>,
    b: Seq<(String, Vec<(String, u64)>)>,
    name: Seq<char>,
    k: Seq<char>,
) -> Option<u64> {
    match (slice_get(a, name), slice_get(b, name)) {
        (Some(x), Some(y)) => spec_merged(x, y, k),
        (Some(x), None) => stat_get(x, k),
        (None, Some(y)) => stat_get(y, k),
        (None, None) => None,
    }
}

/// A present slice name is the name of exactly the found entry.
proof fn lemma_slice_get_index(m: Seq<(String, Vec<(String, u64)>)>, i: int)
    requires
        slice_keys_unique(m),
        0 <= i < m.len(),
    ensures
        slice_get(m, m[i].0@) == Some(m[i].1@),
    decreases m.len(),
{
    if i == m.len() - 1 {
    } else {
        assert(m.last().0@ != m[i].0@);
        assert(m.drop_last()[i] == m[i]);
        assert(slice_keys_unique(m.drop_last())) by {
            assert(forall|x: int| 0 <= x < m.len() - 1 ==> #[trigger] m.drop_last()[x] == m[x]);
        }
        lemma_slice_get_index(m.drop_last(), i);
    }
}

/// A found inner map belongs to some entry.
proof fn lemma_slice_get_some_index(m: Seq<(String, Vec<(String, u64)>)>, name: Seq<char>)
    requires
        slice_get(m, name) is Some,
    ensures
        exists|i: int| 0 <= i < m.len() && (#[trigger] m[i].0@) == name,
    decreases m.len(),
{
    if m.len() > 0 {
        if m.last().0@ == name {
            assert(m[m.len() - 1].0@ == name);
        } else {
            lemma_slice_get_some_index(m.drop_last(), name);
            let i = choose|i: int|
                0 <= i < m.drop_last().len() && (#[trigger] m.drop_last()[i].0@) == name;
            assert(m[i].0@ == name);
        }
    }
}

/// Pushing a fresh slice leaves every other name's lookup alone.
proof fn lemma_slice_get_push(
    m: Seq<(String, Vec<(String, u64)>)>,
    e: (String, Vec<(String, u64)>),
    name: Seq<char>,
)
    ensures
        slice_get(m.push(e), name) == (if e.0@ == name {
            Some(e.1@)
        } else {
            slice_get(m, name)
        }),
{
    assert(m.push(e).drop_last() =~= m);
}

/// Changing one entry (keeping its name) changes that name's lookup only.
proof fn lemma_slice_get_change_at(
    before: Seq<(String, Vec<(String, u64)>)>,
    after: Seq<(String, Vec<(String, u64)>)>,
    at: int,
    name: Seq<char>,
)
    requires
        before.len() == after.len(),
        0 <= at < before.len(),
        forall|j: int| 0 <= j < before.len() && j != at ==> #[trigger] after[j] == before[j],
        after[at].0@ == before[at].0@,
        slice_keys_unique(before),
    ensures
        slice_get(after, name) == (if before[at].0@ == name {
            Some(after[at].1@)
        } else {
            slice_get(before, name)
        }),
    decreases before.len(),
{
    if at == before.len() - 1 {
        assert(after.last() == after[at]);
        if before[at].0@ != name {
            assert(after.drop_last() =~= before.drop_last());
        }
    } else {
        assert(after.last() == before.last());
        if before.last().0@ == name {
            assert(before[at].0@ != name);
            assert(after.last().0@ == name);
        } else {
            assert(after.drop_last().len() == before.drop_last().len());
            assert(forall|j: int|
                0 <= j < before.len() - 1 && j != at ==> #[trigger] after.drop_last()[j]
                    == before.drop_last()[j]) by {
                assert(forall|j: int|
                    0 <= j < before.len() - 1 ==> #[trigger] after.drop_last()[j] == after[j]
                        && before.drop_last()[j] == before[j]);
            }
            assert(after.drop_last()[at].0@ == before.drop_last()[at].0@) by {
                assert(after.drop_last()[at] == after[at] && before.drop_last()[at] == before[at]);
            }
            assert(slice_keys_unique(before.drop_last())) by {
                assert(forall|x: int|
                    0 <= x < before.len() - 1 ==> #[trigger] before.drop_last()[x] == before[x]);
            }
            lemma_slice_get_change_at(before.drop_last(), after.drop_last(), at, name);
            assert(before.drop_last()[at] == before[at] && after.drop_last()[at] == after[at]);
        }
    }
}

/// Name-wise: dividing every inner value divides every lookup.
pub proof fn lemma_slice_get_divided(
    before: Seq<(String, Vec<(String, u64)>)>,
    after: Seq<(String, Vec<(String, u64)>)>,
    div: u64,
)
    requires
        div > 0,
        after.len() == before.len(),
        forall|i: int|
            0 <= i < after.len() ==> (#[trigger] after[i].0@) == before[i].0@ && after[i].1@.len()
                == before[i].1@.len(),
        forall|i: int, j: int|
            0 <= i < after.len() && 0 <= j < after[i].1@.len()
                ==> (#[trigger] after[i].1@[j].0@) == before[i].1@[j].0@ && after[i].1@[j].1
                == before[i].1@[j].1 / div,
    ensures
        forall|name: Seq<char>, k: Seq<char>|
            #[trigger] spec_slice_val(after, name, k) == spec_div_opt(
                spec_slice_val(before, name, k),
                div,
            ),
    decreases before.len(),
{
    if before.len() > 0 {
        assert(forall|i: int|
            0 <= i < after.len() - 1 ==> #[trigger] after.drop_last()[i] == after[i]
                && before.drop_last()[i] == before[i]);
        assert forall|i2: int, j2: int|
            0 <= i2 < after.drop_last().len() && 0 <= j2
                < after.drop_last()[i2].1@.len() implies (#[trigger] after.drop_last()[i2].1@[j2].0@)
            == before.drop_last()[i2].1@[j2].0@ && after.drop_last()[i2].1@[j2].1
            == before.drop_last()[i2].1@[j2].1 / div by {
            assert(after.drop_last()[i2] == after[i2] && before.drop_last()[i2] == before[i2]);
            assert(after[i2].1@[j2].0@ == before[i2].1@[j2].0@ && after[i2].1@[j2].1
                == before[i2].1@[j2].1 / div);
        }
        lemma_slice_get_divided(before.drop_last(), after.drop_last(), div);
        assert(after.last() == after[after.len() - 1] && before.last() == before[before.len()
            - 1]);
        lemma_stat_get_divided(before.last().1@, after.last().1@, div);
        assert forall|name: Seq<char>, k: Seq<char>| #[trigger] spec_slice_val(after, name, k)
            == spec_div_opt(spec_slice_val(before, name, k), div) by {
            if after.last().0@ == name {
            } else {
                assert(slice_get(after, name) == slice_get(after.drop_last(), name));
                assert(slice_get(before, name) == slice_get(before.drop_last(), name));
                assert(spec_slice_val(after.drop_last(), name, k) == spec_div_opt(
                    spec_slice_val(before.drop_last(), name, k),
                    div,
                ));
            }
        }
    }
}

/// Merges a per-slice sample into a per-slice accumulator: maps are merged
/// key-wise for known slices, fresh slices appended in sample order.
pub fn acc_slice_stat_map(
    lhs: &mut Vec<(String, Vec<(String, u64)>)>,
    rhs: &Vec<(String, Vec<(String, u64)>)>,
)
    requires
        slice_wf(old(lhs)@),
        slice_wf(rhs@),
    ensures
        slice_wf(final(lhs)@),
        final(lhs)@.len() <= old(lhs)@.len() + rhs@.len(),
        forall|name: Seq<char>, k: Seq<char>|
            #[trigger] spec_slice_val(final(lhs)@, name, k) == spec_slice_merged(
                old(lhs)@,
                rhs@,
                name,
                k,
            ),
{
    let ghost lhs0 = lhs@;
    let mut i: usize = 0;
    proof {
        assert(rhs@.take(0) =~= Seq::<(String, Vec<(String, u64)>)>::empty());
    }
    while i < rhs.len()
        invariant
            slice_wf(rhs@),
            slice_wf(lhs@),
            lhs0 == old(lhs)@,
            slice_wf(lhs0),
            i <= rhs@.len(),
            lhs@.len() <= lhs0.len() + i,
            forall|name: Seq<char>, k: Seq<char>|
                #[trigger] spec_slice_val(lhs@, name, k) == spec_slice_merged(
                    lhs0,
                    rhs@.take(i as int),
                    name,
                    k,
                ),
            forall|name: Seq<char>|
                #[trigger] slice_get(lhs0, name) is Some ==> slice_get(lhs@, name) is Some,
        decreases rhs@.len() - i,
    {
        let ghost pre = lhs@;
        let key = &rhs[i].0;
        proof {
            // the sample's slice name is fresh within the sample prefix
            if slice_get(rhs@.take(i as int), key@) is Some {
                lemma_slice_get_some_index(rhs@.take(i as int), key@);
                let w = choose|x: int|
                    0 <= x < rhs@.take(i as int).len() && (#[trigger] rhs@.take(
                        i as int,
                    )[x].0@) == key@;
                assert(rhs@[w].0@ == rhs@[i as int].0@);
                assert(false);
            }
            assert(rhs@.take(i + 1).drop_last() =~= rhs@.take(i as int));
            assert(rhs@.take(i + 1).last() == rhs@[i as int]);
        }
        let where_at = slice_find(lhs, key);
        if let Some(at) = where_at {
            let sample = &rhs[i].1;
            let nk = string_copy_local(key);
            proof {
                lemma_slice_get_index(pre, at as int);
            }
            let mut inner: Vec<(String, u64)> = take_inner(lhs, at);
            let ghost mid = lhs@;
            let ghost inner0 = inner@;
            acc_stat_map(&mut inner, sample);
            lhs[at] = (nk, inner);
            proof {
                assert(slice_wf(lhs@)) by {
                    assert(forall|x: int|
                        0 <= x < lhs@.len() && x != at ==> #[trigger] lhs@[x] == pre[x]);
                    assert(lhs@[at as int].0@ == pre[at as int].0@);
                    assert(forall|x: int, y: int|
                        0 <= x < y < lhs@.len() ==> (#[trigger] lhs@[x].0@) != (
                        #[trigger] lhs@[y].0@));
                    assert(forall|x: int|
                        0 <= x < lhs@.len() ==> stat_wf(#[trigger] lhs@[x].1@));
                }
                assert(slice_keys_unique(mid)) by {
                    assert(forall|x: int|
                        0 <= x < mid.len() && x != at ==> #[trigger] mid[x] == pre[x]);
                    assert(mid[at as int].0@ == pre[at as int].0@);
                }
                assert forall|name: Seq<char>, k: Seq<char>| #[trigger] spec_slice_val(
                    lhs@,
                    name,
                    k,
                ) == spec_slice_merged(lhs0, rhs@.take(i + 1), name, k) by {
                    lemma_slice_get_change_at(pre, mid, at as int, name);
                    lemma_slice_get_change_at(mid, lhs@, at as int, name);
                    assert(mid[at as int].0@ == key@ && lhs@[at as int].0@ == key@);
                    if key@ == name {
                        assert(slice_get(lhs@, name) == Some(lhs@[at as int].1@));
                        assert(stat_get(lhs@[at as int].1@, k) == spec_merged(
                            inner0,
                            sample@,
                            k,
                        ));
                        // the accumulated inner looks up like the merge of the
                        // old value under this slice and the sample
                        assert(spec_slice_val(pre, name, k) == stat_get(inner0, k));
                        assert(stat_get(inner0, k) == spec_slice_merged(
                            lhs0,
                            rhs@.take(i as int),
                            name,
                            k,
                        ));
                        assert(slice_get(rhs@.take(i as int), name) is None);
                        match slice_get(lhs0, name) {
                            Some(base) => {
                                assert(stat_get(inner0, k) == stat_get(base, k));
                                assert(spec_merged(inner0, sample@, k) == spec_merged(
                                    base,
                                    sample@,
                                    k,
                                )) by {
                                    assert(stat_get(inner0, k) == stat_get(base, k));
                                }
                            },
                            None => {
                                assert(stat_get(inner0, k) is None);
                                assert(spec_merged(inner0, sample@, k) == stat_get(sample@, k));
                            },
                        }
                        assert(slice_get(rhs@.take(i + 1), name) == Some(sample@));
                    } else {
                        assert(spec_slice_val(pre, name, k) == spec_slice_merged(
                            lhs0,
                            rhs@.take(i as int),
                            name,
                            k,
                        ));
                        assert(slice_get(lhs@, name) == slice_get(pre, name));
                        assert(slice_get(rhs@.take(i + 1), name) == slice_get(
                            rhs@.take(i as int),
                            name,
                        ));
                    }
                }
                assert forall|name: Seq<char>| #[trigger] slice_get(lhs0, name)
                    is Some implies slice_get(lhs@, name) is Some by {
                    lemma_slice_get_change_at(pre, mid, at as int, name);
                    lemma_slice_get_change_at(mid, lhs@, at as int, name);
                }
            }
        } else {
            let nk = string_copy_local(key);
            let copy = copy_stat_map(&rhs[i].1);
            let ghost copied = copy@;
            lhs.push((nk, copy));
            proof {
                assert(slice_wf(lhs@)) by {
                    assert(forall|x: int|
                        0 <= x < pre.len() ==> #[trigger] lhs@[x] == pre[x]);
                    assert(forall|x: int, y: int|
                        0 <= x < y < lhs@.len() ==> (#[trigger] lhs@[x].0@) != (
                        #[trigger] lhs@[y].0@));
                    assert(forall|x: int|
                        0 <= x < lhs@.len() ==> stat_wf(#[trigger] lhs@[x].1@));
                }
                // the slice was known to neither side
                assert(slice_get(pre, key@) is None) by {
                    if slice_get(pre, key@) is Some {
                        lemma_slice_get_some_index(pre, key@);
                    }
                }
                assert(slice_get(lhs0, key@) is None) by {
                    if slice_get(lhs0, key@) is Some {
                        assert(slice_get(pre, key@) is Some);
                    }
                }
                lemma_stat_get_pointwise(copied, rhs@[i as int].1@);
                assert forall|name: Seq<char>, k: Seq<char>| #[trigger] spec_slice_val(
                    lhs@,
                    name,
                    k,
                ) == spec_slice_merged(lhs0, rhs@.take(i + 1), name, k) by {
                    lemma_slice_get_push(pre, (nk, copy), name);
                    if key@ == name {
                        assert(slice_get(lhs@, name) == Some(copied));
                        assert(slice_get(rhs@.take(i + 1), name) == Some(rhs@[i as int].1@));
                        assert(stat_get(copied, k) == stat_get(rhs@[i as int].1@, k));
                    } else {
                        assert(spec_slice_val(pre, name, k) == spec_slice_merged(
                            lhs0,
                            rhs@.take(i as int),
                            name,
                            k,
                        ));
                        assert(slice_get(lhs@, name) == slice_get(pre, name));
                        assert(slice_get(rhs@.take(i + 1), name) == slice_get(
                            rhs@.take(i as int),
                            name,
                        ));
                    }
                }
                assert forall|name: Seq<char>| #[trigger] slice_get(lhs0, name)
                    is Some implies slice_get(lhs@, name) is Some by {
                    lemma_slice_get_push(pre, (nk, copy), name);
                }
            }
        }
        i = i + 1;
    }
    proof {
        assert(rhs@.take(rhs@.len() as int) =~= rhs@);
    }
}

/// Finds the slice entry keyed `k`.
fn slice_find(m: &Vec<(String, Vec<(String, u64)>)>, k: &String) -> (r: Option<usize>)
    ensures
        match r {
            Some(i) => i < m@.len() && m@[i as int].0@ == k@,
            None => forall|j: int| 0 <= j < m@.len() ==> (#[trigger] m@[j].0@) != k@,
        },
{
    let mut i: usize = 0;
    while i < m.len()
        invariant
            i <= m@.len(),
            forall|j: int| 0 <= j < i ==> (#[trigger] m@[j].0@) != k@,
        decreases m@.len() - i,
    {
        if m[i].0.eq(k) {
            return Some(i);
        }
        i = i + 1;
    }
    None
}

/// Swaps the inner map at `i` out, leaving an empty one.
fn take_inner(m: &mut Vec<(String, Vec<(String, u64)>)>, i: usize) -> (r: Vec<(String, u64)>)
    requires
        i < old(m)@.len(),
    ensures
        r@ == old(m)@[i as int].1@,
        final(m)@.len() == old(m)@.len(),
        forall|j: int| 0 <= j < old(m)@.len() && j != i ==> #[trigger] final(m)@[j] == old(m)@[j],
        final(m)@[i as int].0@ == old(m)@[i as int].0@,
        final(m)@[i as int].1@.len() == 0,
{
    let mut tmp: Vec<(String, u64)> = Vec::new();
    let entry = &mut m[i];
    core::mem::swap(&mut entry.1, &mut tmp);
    tmp
}

/// Divides every value of every slice map by `div`.
pub fn div_slice_stat_map(lhs: &mut Vec<(String, Vec<(String, u64)>)>, div: u64)
    requires
        slice_wf(old(lhs)@),
        div > 0,
    ensures
        slice_wf(final(lhs)@),
        final(lhs)@.len() == old(lhs)@.len(),
        forall|i: int|
            0 <= i < final(lhs)@.len() ==> (#[trigger] final(lhs)@[i].0@) == old(lhs)@[i].0@
                && final(lhs)@[i].1@.len() == old(lhs)@[i].1@.len(),
        forall|i: int, j: int|
            0 <= i < final(lhs)@.len() && 0 <= j < final(lhs)@[i].1@.len()
                ==> (#[trigger] final(lhs)@[i].1@[j].0@) == old(lhs)@[i].1@[j].0@
                && final(lhs)@[i].1@[j].1 == old(lhs)@[i].1@[j].1 / div,
        forall|name: Seq<char>, k: Seq<char>|
            #[trigger] spec_slice_val(final(lhs)@, name, k) == spec_div_opt(
                spec_slice_val(old(lhs)@, name, k),
                div,
            ),
{
    let mut i: usize = 0;
    while i < lhs.len()
        invariant
            div > 0,
            slice_wf(old(lhs)@),
            slice_wf(lhs@),
            lhs@.len() == old(lhs)@.len(),
            i <= lhs@.len(),
            forall|j: int| i <= j < lhs@.len() ==> #[trigger] lhs@[j] == old(lhs)@[j],
            forall|j: int|
                0 <= j < i ==> (#[trigger] lhs@[j].0@) == old(lhs)@[j].0@ && lhs@[j].1@.len()
                    == old(lhs)@[j].1@.len(),
            forall|x: int, j: int|
                0 <= x < i && 0 <= j < lhs@[x].1@.len() ==> (#[trigger] lhs@[x].1@[j].0@) == old(
                    lhs,
                )@[x].1@[j].0@ && lhs@[x].1@[j].1 == old(lhs)@[x].1@[j].1 / div,
        decreases lhs@.len() - i,
    {
        let ghost before = lhs@;
        let nk = string_copy_local(&lhs[i].0);
        let mut inner = take_inner(lhs, i);
        proof {
            assert(stat_wf(inner@));
        }
        div_stat_map(&mut inner, div);
        lhs[i] = (nk, inner);
        proof {
            assert(slice_wf(lhs@)) by {
                assert(forall|x: int|
                    0 <= x < lhs@.len() && x != i ==> #[trigger] lhs@[x] == before[x]);
                assert(lhs@[i as int].0@ == before[i as int].0@);
                assert(forall|x: int, y: int|
                    0 <= x < y < lhs@.len() ==> (#[trigger] lhs@[x].0@) != (
                    #[trigger] lhs@[y].0@));
                assert(forall|x: int| 0 <= x < lhs@.len() ==> stat_wf(#[trigger] lhs@[x].1@));
            }
        }
        i = i + 1;
    }
    proof {
        lemma_slice_get_divided(old(lhs)@, lhs@, div);
    }
}

/// A copy of a stat map with the same keys and values.
pub fn copy_stat_map(m: &Vec<(String, u64)>) -> (r: Vec<(String, u64)>)
    ensures
        r@.len() == m@.len(),
        forall|i: int|
            0 <= i < m@.len() ==> (#[trigger] r@[i].0@) == m@[i].0@ && r@[i].1 == m@[i].1,
        stat_wf(m@) ==> stat_wf(r@),
{
    let mut r: Vec<(String, u64)> = Vec::new();
    let mut i: usize = 0;
    while i < m.len()
        invariant
            i <= m@.len(),
            r@.len() == i,
            forall|j: int|
                0 <= j < i ==> (#[trigger] r@[j].0@) == m@[j].0@ && r@[j].1 == m@[j].1,
        decreases m@.len() - i,
    {
        r.push((string_copy_local(&m[i].0), m[i].1));
        i = i + 1;
    }
    r
}

/// A copy of `s` with the same characters.
fn string_copy_local(s: &String) -> (r: String)
    ensures
        r@ == s@,
{
    String::from_str(s.as_str())
}

} // verus!
