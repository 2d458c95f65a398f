//! Resolution of each class's hierarchy set: the set of classes reachable
//! from it along base-class edges, itself included and first, in the order
//! the bases are discovered.
//!
//! The set is computed by fixed-point iteration: it is seeded with the class
//! itself, and each pass scans the direct base edges of every class already
//! in the set, appending any base not yet present. A table of `n` classes
//! needs at most `n` passes: every pass before the fixed point adds at least
//! one class, the set never holds duplicates, and it can never exceed the
//! table's size (`lemma_hierarchy_stable`). A base name that no class of the
//! table carries is a fatal lookup failure.

use vstd::prelude::*;
use vstd::set_lib::{lemma_int_range, lemma_len_subset, set_int_range};

use crate::model::{lemma_lookup_found, lookup_spec, ClassTable, ClassView};

verus! {

/// Every entry is an index into the table.
pub open spec fn valid_idxs(t: Seq<ClassView>, s: Seq<int>) -> bool {
    forall|k: int| 0 <= k < s.len() ==> 0 <= #[trigger] s[k] < t.len()
}

/// `a` is a prefix of `b`.
pub open spec fn prefix_of(a: Seq<int>, b: Seq<int>) -> bool {
    a.len() <= b.len() && forall|k: int| 0 <= k < a.len() ==> a[k] == #[trigger] b[k]
}

/// The indices of a sequence of table positions, as mathematical integers.
pub open spec fn idx_seq(v: Seq<usize>) -> Seq<int> {
    v.map_values(|x: usize| x as int)
}

/// Appends to `acc` the not-yet-present classes that the base names
/// `bases[b..]` resolve to, in order; a name that resolves to no class of the
/// table is the error.
pub open spec fn extend_bases(
    t: Seq<ClassView>,
    acc: Seq<int>,
    bases: Seq<Seq<char>>,
    b: int,
) -> Result<Seq<int>, Seq<char>>
    decreases bases.len() - b,
{
    if b < 0 || b >= bases.len() {
        Ok(acc)
    } else {
        match lookup_spec(t, bases[b]) {
            None => Err(bases[b]),
            Some(k) => extend_bases(
                t,
                if acc.contains(k) {
                    acc
                } else {
                    acc.push(k)
                },
                bases,
                b + 1,
            ),
        }
    }
}

/// One fixed-point pass from position `j` on: scans the direct base edges of
/// the classes `s[j..]` and accumulates into `acc`.
pub open spec fn pass_loop(
    t: Seq<ClassView>,
    s: Seq<int>,
    j: int,
    acc: Seq<int>,
) -> Result<Seq<int>, Seq<char>>
    decreases s.len() - j,
{
    if j < 0 || j >= s.len() {
        Ok(acc)
    } else {
        match extend_bases(t, acc, t[s[j]].bases, 0) {
            Err(e) => Err(e),
            Ok(a2) => pass_loop(t, s, j + 1, a2),
        }
    }
}

/// One full fixed-point pass over the set `s`.
pub open spec fn one_pass(t: Seq<ClassView>, s: Seq<int>) -> Result<Seq<int>, Seq<char>> {
    pass_loop(t, s, 0, s)
}

/// `n` passes starting from the singleton set holding class `i` itself.
pub open spec fn resolve_n(t: Seq<ClassView>, i: int, n: nat) -> Result<Seq<int>, Seq<char>>
    decreases n,
{
    if n == 0 {
        Ok(seq![i])
    } else {
        match resolve_n(t, i, (n - 1) as nat) {
            Err(e) => Err(e),
            Ok(s) => one_pass(t, s),
        }
    }
}

/// The hierarchy set of class `i`: as many passes as the table has classes,
/// which always reaches the fixed point (`lemma_hierarchy_stable`).
pub open spec fn resolve_spec(t: Seq<ClassView>, i: int) -> Result<Seq<int>, Seq<char>> {
    resolve_n(t, i, t.len())
}

proof fn lemma_extend_props(t: Seq<ClassView>, acc: Seq<int>, bases: Seq<Seq<char>>, b: int)
    ensures
        match extend_bases(t, acc, bases, b) {
            Ok(r) => {
                &&& prefix_of(acc, r)
                &&& (valid_idxs(t, acc) ==> valid_idxs(t, r))
                &&& (acc.no_duplicates() ==> r.no_duplicates())
            },
            Err(_) => true,
        },
    decreases bases.len() - b,
{
    if b < 0 || b >= bases.len() {
    } else {
        match lookup_spec(t, bases[b]) {
            None => {},
            Some(k) => {
                lemma_lookup_found(t, 0, bases[b]);
                let acc2 = if acc.contains(k) {
                    acc
                } else {
                    acc.push(k)
                };
                if !acc.contains(k) && acc.no_duplicates() {
                    assert forall|p: int, q: int|
                        0 <= p < q < acc2.len() implies acc2[p] != acc2[q] by {
                        if q == acc.len() {
                            assert(!acc.contains(k));
                            assert(acc[p] != k);
                        }
                    }
                }
                lemma_extend_props(t, acc2, bases, b + 1);
            },
        }
    }
}

proof fn lemma_pass_props(t: Seq<ClassView>, s: Seq<int>, j: int, acc: Seq<int>)
    ensures
        match pass_loop(t, s, j, acc) {
            Ok(r) => {
                &&& prefix_of(acc, r)
                &&& (valid_idxs(t, acc) ==> valid_idxs(t, r))
                &&& (acc.no_duplicates() ==> r.no_duplicates())
            },
            Err(_) => true,
        },
    decreases s.len() - j,
{
    if j < 0 || j >= s.len() {
    } else {
        match extend_bases(t, acc, t[s[j]].bases, 0) {
            Err(_) => {},
            Ok(a2) => {
                lemma_extend_props(t, acc, t[s[j]].bases, 0);
                lemma_pass_props(t, s, j + 1, a2);
            },
        }
    }
}

proof fn lemma_resolve_n_props(t: Seq<ClassView>, i: int, n: nat)
    requires
        0 <= i < t.len(),
    ensures
        match resolve_n(t, i, n) {
            Ok(s) => {
                &&& s.len() >= 1
                &&& s[0] == i
                &&& valid_idxs(t, s)
                &&& s.no_duplicates()
            },
            Err(_) => true,
        },
    decreases n,
{
    if n == 0 {
        assert(seq![i].no_duplicates());
    } else {
        lemma_resolve_n_props(t, i, (n - 1) as nat);
        match resolve_n(t, i, (n - 1) as nat) {
            Err(_) => {},
            Ok(s) => {
                lemma_pass_props(t, s, 0, s);
            },
        }
    }
}

/// The hierarchy set is never empty, holds its own class first, holds only
/// indices of the table, and holds no class twice.
pub proof fn lemma_hierarchy_wf(t: Seq<ClassView>, i: int, h: Seq<int>)
    requires
        0 <= i < t.len(),
        resolve_spec(t, i) == Ok::<Seq<int>, Seq<char>>(h),
    ensures
        h.len() >= 1,
        h[0] == i,
        valid_idxs(t, h),
        h.no_duplicates(),
{
    lemma_resolve_n_props(t, i, t.len());
}

/// A sequence of distinct indices into the table is no longer than the table.
proof fn lemma_nodup_len_bound(t: Seq<ClassView>, s: Seq<int>)
    requires
        s.no_duplicates(),
        valid_idxs(t, s),
    ensures
        s.len() <= t.len(),
{
    s.unique_seq_to_set();
    assert forall|x: int| s.to_set().contains(x) implies set_int_range(
        0,
        t.len() as int,
    ).contains(x) by {
        let k = choose|k: int| 0 <= k < s.len() && s[k] == x;
        assert(0 <= s[k] < t.len());
    }
    lemma_int_range(0, t.len() as int);
    lemma_len_subset(s.to_set(), set_int_range(0, t.len() as int));
}

proof fn lemma_err_stays(t: Seq<ClassView>, i: int, n: nat, m: nat)
    requires
        n <= m,
        resolve_n(t, i, n) is Err,
    ensures
        resolve_n(t, i, m) == resolve_n(t, i, n),
    decreases m - n,
{
    if m > n {
        lemma_err_stays(t, i, n, (m - 1) as nat);
    }
}

proof fn lemma_fix_stays(t: Seq<ClassView>, i: int, n: nat, m: nat, s: Seq<int>)
    requires
        n <= m,
        resolve_n(t, i, n) == Ok::<Seq<int>, Seq<char>>(s),
        one_pass(t, s) == Ok::<Seq<int>, Seq<char>>(s),
    ensures
        resolve_n(t, i, m) == Ok::<Seq<int>, Seq<char>>(s),
    decreases m - n,
{
    if m > n {
        lemma_fix_stays(t, i, n, (m - 1) as nat, s);
    }
}

proof fn lemma_growth(t: Seq<ClassView>, i: int, n: nat, s: Seq<int>)
    requires
        0 <= i < t.len(),
        resolve_n(t, i, n) == Ok::<Seq<int>, Seq<char>>(s),
    ensures
        s.len() >= n + 1 || one_pass(t, s) == Ok::<Seq<int>, Seq<char>>(s),
    decreases n,
{
    if n == 0 {
    } else {
        match resolve_n(t, i, (n - 1) as nat) {
            Err(_) => {
                assert(false);
            },
            Ok(sp) => {
                lemma_growth(t, i, (n - 1) as nat, sp);
                if one_pass(t, sp) == Ok::<Seq<int>, Seq<char>>(sp) {
                    assert(s == sp);
                } else {
                    lemma_pass_props(t, sp, 0, sp);
                    if s.len() == sp.len() {
                        assert(s =~= sp);
                    }
                }
            },
        }
    }
}

/// The hierarchy set is a fixed point: one more pass over it adds nothing.
/// With `lemma_hierarchy_wf` this is the termination bound: the set of a
/// table of `n` classes is closed after at most `n` passes.
pub proof fn lemma_hierarchy_fixpoint(t: Seq<ClassView>, i: int, h: Seq<int>)
    requires
        0 <= i < t.len(),
        resolve_spec(t, i) == Ok::<Seq<int>, Seq<char>>(h),
    ensures
        one_pass(t, h) == Ok::<Seq<int>, Seq<char>>(h),
{
    lemma_growth(t, i, t.len(), h);
    if one_pass(t, h) != Ok::<Seq<int>, Seq<char>>(h) {
        lemma_resolve_n_props(t, i, t.len());
        lemma_nodup_len_bound(t, h);
        assert(false);
    }
}

/// Passes beyond the table's size change nothing: the resolution reaches its
/// fixed point within as many passes as the table has classes.
pub proof fn lemma_hierarchy_stable(t: Seq<ClassView>, i: int, n: nat)
    requires
        0 <= i < t.len(),
        t.len() <= n,
    ensures
        resolve_n(t, i, n) == resolve_spec(t, i),
{
    match resolve_spec(t, i) {
        Err(_) => {
            lemma_err_stays(t, i, t.len(), n);
        },
        Ok(h) => {
            lemma_hierarchy_fixpoint(t, i, h);
            lemma_fix_stays(t, i, t.len(), n, h);
        },
    }
}

proof fn lemma_extend_nogrowth(t: Seq<ClassView>, acc: Seq<int>, bases: Seq<Seq<char>>, b: int)
    requires
        0 <= b,
        extend_bases(t, acc, bases, b) == Ok::<Seq<int>, Seq<char>>(acc),
    ensures
        forall|k: int|
            b <= k < bases.len() ==> (#[trigger] lookup_spec(t, bases[k])) is Some && acc.contains(
                lookup_spec(t, bases[k])->0,
            ),
    decreases bases.len() - b,
{
    if b < bases.len() {
        match lookup_spec(t, bases[b]) {
            None => {
                assert(false);
            },
            Some(k) => {
                let acc2 = if acc.contains(k) {
                    acc
                } else {
                    acc.push(k)
                };
                lemma_extend_props(t, acc2, bases, b + 1);
                assert(acc.contains(k));
                lemma_extend_nogrowth(t, acc, bases, b + 1);
            },
        }
    }
}

proof fn lemma_pass_nogrowth(t: Seq<ClassView>, s: Seq<int>, j: int, acc: Seq<int>)
    requires
        0 <= j,
        pass_loop(t, s, j, acc) == Ok::<Seq<int>, Seq<char>>(acc),
    ensures
        forall|k: int|
            j <= k < s.len() ==> extend_bases(t, acc, #[trigger] t[s[k]].bases, 0)
                == Ok::<Seq<int>, Seq<char>>(acc),
    decreases s.len() - j,
{
    if j < s.len() {
        match extend_bases(t, acc, t[s[j]].bases, 0) {
            Err(_) => {
                assert(false);
            },
            Ok(a2) => {
                lemma_extend_props(t, acc, t[s[j]].bases, 0);
                lemma_pass_props(t, s, j + 1, a2);
                assert(a2 =~= acc);
                lemma_pass_nogrowth(t, s, j + 1, acc);
            },
        }
    }
}

/// The hierarchy set is transitively closed: every direct base of every
/// class in the set resolves to a class of the table that the set holds too.
/// With `lemma_hierarchy_wf`, a chain of classes each inheriting the
/// previous resolves to a set holding every ancestor exactly once.
pub proof fn lemma_hierarchy_closed(t: Seq<ClassView>, i: int, h: Seq<int>)
    requires
        0 <= i < t.len(),
        resolve_spec(t, i) == Ok::<Seq<int>, Seq<char>>(h),
    ensures
        forall|j: int, b: int|
            0 <= j < h.len() && 0 <= b < t[h[j]].bases.len() ==> (#[trigger] lookup_spec(
                t,
                t[h[j]].bases[b],
            )) is Some && h.contains(lookup_spec(t, t[h[j]].bases[b])->0),
{
    lemma_hierarchy_fixpoint(t, i, h);
    lemma_pass_nogrowth(t, h, 0, h);
    assert forall|j: int, b: int|
        0 <= j < h.len() && 0 <= b < t[h[j]].bases.len() implies (#[trigger] lookup_spec(
        t,
        t[h[j]].bases[b],
    )) is Some && h.contains(lookup_spec(t, t[h[j]].bases[b])->0) by {
        assert(extend_bases(t, h, t[h[j]].bases, 0) == Ok::<Seq<int>, Seq<char>>(h));
        lemma_extend_nogrowth(t, h, t[h[j]].bases, 0);
    }
}

/// Every direct base edge of every class of the table resolves to a class
/// of the table.
pub open spec fn all_bases_resolve(t: Seq<ClassView>) -> bool {
    forall|c: int, b: int|
        0 <= c < t.len() && 0 <= b < t[c].bases.len() ==> (#[trigger] lookup_spec(
            t,
            t[c].bases[b],
        )) is Some
}

proof fn lemma_extend_total(t: Seq<ClassView>, acc: Seq<int>, c: int, b: int)
    requires
        all_bases_resolve(t),
        0 <= c < t.len(),
    ensures
        extend_bases(t, acc, t[c].bases, b) is Ok,
    decreases t[c].bases.len() - b,
{
    let bases = t[c].bases;
    if b < 0 || b >= bases.len() {
    } else {
        assert(lookup_spec(t, bases[b]) is Some);
        let k = lookup_spec(t, bases[b])->0;
        let acc2 = if acc.contains(k) {
            acc
        } else {
            acc.push(k)
        };
        lemma_extend_total(t, acc2, c, b + 1);
    }
}

proof fn lemma_pass_total(t: Seq<ClassView>, s: Seq<int>, j: int, acc: Seq<int>)
    requires
        all_bases_resolve(t),
        valid_idxs(t, s),
    ensures
        pass_loop(t, s, j, acc) is Ok,
    decreases s.len() - j,
{
    if 0 <= j < s.len() {
        lemma_extend_total(t, acc, s[j], 0);
        match extend_bases(t, acc, t[s[j]].bases, 0) {
            Err(_) => {},
            Ok(a2) => {
                lemma_pass_total(t, s, j + 1, a2);
            },
        }
    }
}

proof fn lemma_resolve_n_total(t: Seq<ClassView>, i: int, n: nat)
    requires
        all_bases_resolve(t),
        0 <= i < t.len(),
    ensures
        resolve_n(t, i, n) is Ok,
    decreases n,
{
    if n > 0 {
        lemma_resolve_n_total(t, i, (n - 1) as nat);
        lemma_resolve_n_props(t, i, (n - 1) as nat);
        match resolve_n(t, i, (n - 1) as nat) {
            Err(_) => {},
            Ok(s) => {
                lemma_pass_total(t, s, 0, s);
            },
        }
    }
}

/// When every base edge of the table resolves, no class's hierarchy
/// resolution can fail.
pub proof fn lemma_resolve_total(t: Seq<ClassView>, i: int)
    requires
        all_bases_resolve(t),
        0 <= i < t.len(),
    ensures
        resolve_spec(t, i) is Ok,
{
    lemma_resolve_n_total(t, i, t.len());
}

/// Whether the set of table indices `v` holds `x`.
fn contains_idx(v: &Vec<usize>, x: usize) -> (r: bool)
    ensures
        r == idx_seq(v@).contains(x as int),
{
    let n = v.len();
    let mut j: usize = 0;
    while j < n
        invariant
            n == v@.len(),
            j <= n,
            forall|k: int| 0 <= k < j ==> #[trigger] v@[k] != x,
        decreases n - j,
    {
        if v[j] == x {
            proof {
                assert(idx_seq(v@)[j as int] == x as int);
            }
            return true;
        }
        j += 1;
    }
    proof {
        if idx_seq(v@).contains(x as int) {
            let k = choose|k: int| 0 <= k < idx_seq(v@).len() && idx_seq(v@)[k] == x as int;
            assert(v@[k] != x);
            assert(false);
        }
    }
    false
}

/// Runs one fixed-point pass over `v` in place.
fn one_pass_exec(table: &ClassTable, v: &mut Vec<usize>) -> (r: Result<(), String>)
    requires
        forall|k: int| 0 <= k < old(v)@.len() ==> (#[trigger] old(v)@[k]) < table@.len(),
    ensures
        match r {
            Ok(_) => {
                &&& one_pass(table@, idx_seq(old(v)@)) == Ok::<Seq<int>, Seq<char>>(
                    idx_seq(final(v)@),
                )
                &&& forall|k: int|
                    0 <= k < final(v)@.len() ==> (#[trigger] final(v)@[k]) < table@.len()
            },
            Err(e) => one_pass(table@, idx_seq(old(v)@)) == Err::<Seq<int>, Seq<char>>(e@),
        },
{
    let ghost t = table@;
    let ghost s = idx_seq(old(v)@);
    let len0 = v.len();
    let mut j: usize = 0;
    while j < len0
        invariant
            t == table@,
            s == idx_seq(old(v)@),
            len0 == old(v)@.len(),
            s.len() == len0,
            j <= len0,
            len0 <= v@.len(),
            forall|k: int| 0 <= k < len0 ==> v@[k] == old(v)@[k],
            forall|k: int| 0 <= k < v@.len() ==> (#[trigger] v@[k]) < t.len(),
            pass_loop(t, s, j as int, idx_seq(v@)) == one_pass(t, s),
        decreases len0 - j,
    {
        proof {
            assert(s[j as int] == v@[j as int] as int);
        }
        let ci = v[j];
        let cls = table.class_at(ci);
        let ghost bv = t[s[j as int]].bases;
        proof {
            assert(bv == cls.bases.deep_view());
        }
        let nb = cls.bases.len();
        let mut b: usize = 0;
        while b < nb
            invariant
                t == table@,
                s == idx_seq(old(v)@),
                len0 == old(v)@.len(),
                s.len() == len0,
                j < len0,
                len0 <= v@.len(),
                forall|k: int| 0 <= k < len0 ==> v@[k] == old(v)@[k],
                forall|k: int| 0 <= k < v@.len() ==> (#[trigger] v@[k]) < t.len(),
                bv == cls.bases.deep_view(),
                nb == bv.len(),
                b <= nb,
                (match extend_bases(t, idx_seq(v@), bv, b as int) {
                    Err(e) => Err::<Seq<int>, Seq<char>>(e),
                    Ok(a2) => pass_loop(t, s, j as int + 1, a2),
                }) == one_pass(t, s),
            decreases nb - b,
        {
            let bname: &String = &cls.bases[b];
            proof {
                assert(bv[b as int] == cls.bases@[b as int]@);
            }
            match table.lookup(bname) {
                None => {
                    return Err(bname.clone());
                },
                Some(k) => {
                    proof {
                        lemma_lookup_found(t, 0, bv[b as int]);
                    }
                    let ghost acc_before = idx_seq(v@);
                    if !contains_idx(v, k) {
                        v.push(k);
                        proof {
                            assert(idx_seq(v@) =~= acc_before.push(k as int));
                        }
                    }
                },
            }
            b += 1;
        }
        j += 1;
    }
    proof {
        assert(pass_loop(t, s, len0 as int, idx_seq(v@)) == Ok::<Seq<int>, Seq<char>>(idx_seq(v@)));
    }
    Ok(())
}

/// Computes the hierarchy set of class `i`: the classes reachable from it
/// along base edges, transitively, itself included and first, as indices
/// into the table; or the first base class name that resolves to no class of
/// the table.
pub fn resolve_hierarchy(table: &ClassTable, i: usize) -> (r: Result<Vec<usize>, String>)
    requires
        (i as int) < table@.len(),
    ensures
        match r {
            Ok(v) => resolve_spec(table@, i as int) == Ok::<Seq<int>, Seq<char>>(idx_seq(v@)),
            Err(e) => resolve_spec(table@, i as int) == Err::<Seq<int>, Seq<char>>(e@),
        },
{
    let ghost t = table@;
    let mut v: Vec<usize> = Vec::new();
    v.push(i);
    proof {
        assert(idx_seq(v@) =~= seq![i as int]);
    }
    let n = table.len();
    let mut p: usize = 0;
    while p < n
        invariant
            t == table@,
            n == t.len(),
            (i as int) < t.len(),
            p <= n,
            resolve_n(t, i as int, p as nat) == Ok::<Seq<int>, Seq<char>>(idx_seq(v@)),
            forall|k: int| 0 <= k < v@.len() ==> (#[trigger] v@[k]) < t.len(),
        decreases n - p,
    {
        let ghost prev = idx_seq(v@);
        match one_pass_exec(table, &mut v) {
            Ok(_) => {
                proof {
                    assert(resolve_n(t, i as int, (p + 1) as nat) == Ok::<Seq<int>, Seq<char>>(
                        idx_seq(v@),
                    ));
                }
            },
            Err(e) => {
                proof {
                    assert(resolve_n(t, i as int, (p + 1) as nat) == Err::<Seq<int>, Seq<char>>(
                        e@,
                    ));
                    lemma_err_stays(t, i as int, (p + 1) as nat, t.len());
                }
                return Err(e);
            },
        }
        p += 1;
    }
    Ok(v)
}

} // verus!
