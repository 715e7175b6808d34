//! Planning how an engine instance is opened, created, or reconciled
//! against the configured column-family set.
//!
//! The plan is computed from plain values: whether the path already holds
//! an engine, the column families found on disk, and the configured ones.
//! Executing the plan against the engine happens outside the library.
//! The `default` column family is never dropped, whatever the
//! configuration asks for.

use vstd::prelude::*;

verus! {

/// The name of the column family that is never dropped.
pub open spec fn default_cf_name() -> Seq<char> {
    "default"@
}

/// The views of a list of names.
pub open spec fn names_view(v: Seq<String>) -> Seq<Seq<char>> {
    v.map_values(|s: String| s@)
}

/// Whether `x` occurs among the names `b`.
pub open spec fn seq_contains_str(b: Seq<Seq<char>>, x: Seq<char>) -> bool {
    exists|i: int| 0 <= i < b.len() && b[i] == x
}

/// The predicate selecting names absent from `b`.
pub open spec fn not_in(b: Seq<Seq<char>>) -> spec_fn(Seq<char>) -> bool {
    |x: Seq<char>| !seq_contains_str(b, x)
}

/// The predicate selecting names absent from `b` other than `default`.
pub open spec fn droppable(b: Seq<Seq<char>>) -> spec_fn(Seq<char>) -> bool {
    |x: Seq<char>| !seq_contains_str(b, x) && x != default_cf_name()
}

/// The predicate selecting names other than `default`.
pub open spec fn not_default() -> spec_fn(Seq<char>) -> bool {
    |x: Seq<char>| x != default_cf_name()
}

/// Whether `x` occurs among the names `b`.
fn contains_name(b: &Vec<String>, x: &String) -> (r: bool)
    ensures
        r == seq_contains_str(names_view(b@), x@),
{
    let n = b.len();
    let mut j: usize = 0;
    while j < n
        invariant
            0 <= j <= n,
            n == b@.len(),
            forall|k: int| 0 <= k < j ==> names_view(b@)[k] != x@,
        decreases n - j,
    {
        if b[j].eq(x) {
            proof {
                assert(names_view(b@)[j as int] == x@);
            }
            return true;
        }
        j = j + 1;
    }
    false
}

/// The names of `a` that do not occur in `b`, in the order of `a`,
/// duplicates kept.
pub fn cfs_diff(a: &Vec<String>, b: &Vec<String>) -> (r: Vec<String>)
    ensures
        names_view(r@) == names_view(a@).filter(not_in(names_view(b@))),
{
    let ghost nv_a = names_view(a@);
    let ghost pred = not_in(names_view(b@));
    let n = a.len();
    let mut r: Vec<String> = Vec::new();
    proof {
        reveal(Seq::filter);
        assert(nv_a.take(0) =~= Seq::<Seq<char>>::empty());
        assert(names_view(r@) =~= nv_a.take(0).filter(pred));
    }
    let mut i: usize = 0;
    while i < n
        invariant
            0 <= i <= n,
            n == a@.len(),
            nv_a == names_view(a@),
            pred == not_in(names_view(b@)),
            names_view(r@) == nv_a.take(i as int).filter(pred),
        decreases n - i,
    {
        let ghost before = r@;
        proof {
            reveal(Seq::filter);
            assert(nv_a.take(i as int + 1).drop_last() =~= nv_a.take(i as int));
            assert(nv_a.take(i as int + 1).last() == nv_a[i as int]);
            assert(nv_a[i as int] == a@[i as int]@);
        }
        if !contains_name(b, &a[i]) {
            let name = a[i].clone();
            r.push(name);
            proof {
                assert(names_view(r@) =~= names_view(before).push(a@[i as int]@));
            }
        }
        i = i + 1;
    }
    proof {
        assert(nv_a.take(n as int) =~= nv_a);
    }
    r
}

/// How to bring an engine at a path to the configured column-family set.
pub enum OpenPlan {
    /// The path holds no engine yet: create it with only the `default`
    /// family, then create each other configured family.
    Create { creates: Vec<String> },
    /// The on-disk families equal the configured list: open directly
    /// with all configured options.
    OpenMatching,
    /// Open with the on-disk families, then drop each on-disk family
    /// absent from the configuration (never `default`), then create each
    /// configured family absent from disk.
    Reconcile { drops: Vec<String>, creates: Vec<String> },
}

/// Whether the two name lists are equal, element by element.
fn names_equal(a: &Vec<String>, b: &Vec<String>) -> (r: bool)
    ensures
        r == (names_view(a@) == names_view(b@)),
{
    let n = a.len();
    if n != b.len() {
        proof {
            assert(names_view(a@).len() != names_view(b@).len());
        }
        return false;
    }
    let mut i: usize = 0;
    while i < n
        invariant
            0 <= i <= n,
            n == a@.len(),
            n == b@.len(),
            forall|k: int| 0 <= k < i ==> names_view(a@)[k] == names_view(b@)[k],
        decreases n - i,
    {
        if !a[i].eq(&b[i]) {
            proof {
                assert(names_view(a@)[i as int] != names_view(b@)[i as int]);
            }
            return false;
        }
        i = i + 1;
    }
    proof {
        assert(names_view(a@) =~= names_view(b@));
    }
    true
}

/// The names of `a` not occurring in `b` and not named `default`: what
/// reconciliation may drop.
fn diff_droppable(a: &Vec<String>, b: &Vec<String>) -> (r: Vec<String>)
    ensures
        names_view(r@) == names_view(a@).filter(droppable(names_view(b@))),
{
    let ghost nv_a = names_view(a@);
    let ghost pred = droppable(names_view(b@));
    let def: String = "default".to_owned();
    let n = a.len();
    let mut r: Vec<String> = Vec::new();
    proof {
        reveal(Seq::filter);
        assert(nv_a.take(0) =~= Seq::<Seq<char>>::empty());
        assert(names_view(r@) =~= nv_a.take(0).filter(pred));
    }
    let mut i: usize = 0;
    while i < n
        invariant
            0 <= i <= n,
            n == a@.len(),
            nv_a == names_view(a@),
            pred == droppable(names_view(b@)),
            def@ == default_cf_name(),
            names_view(r@) == nv_a.take(i as int).filter(pred),
        decreases n - i,
    {
        let ghost before = r@;
        proof {
            reveal(Seq::filter);
            assert(nv_a.take(i as int + 1).drop_last() =~= nv_a.take(i as int));
            assert(nv_a.take(i as int + 1).last() == nv_a[i as int]);
            assert(nv_a[i as int] == a@[i as int]@);
        }
        if !contains_name(b, &a[i]) && !a[i].eq(&def) {
            let name = a[i].clone();
            r.push(name);
            proof {
                assert(names_view(r@) =~= names_view(before).push(a@[i as int]@));
            }
        }
        i = i + 1;
    }
    proof {
        assert(nv_a.take(n as int) =~= nv_a);
    }
    r
}

/// The names of `a` other than `default`: what is created one by one
/// after a fresh engine is created with only the `default` family.
fn all_but_default(a: &Vec<String>) -> (r: Vec<String>)
    ensures
        names_view(r@) == names_view(a@).filter(not_default()),
{
    let ghost nv_a = names_view(a@);
    let ghost pred = not_default();
    let def: String = "default".to_owned();
    let n = a.len();
    let mut r: Vec<String> = Vec::new();
    proof {
        reveal(Seq::filter);
        assert(nv_a.take(0) =~= Seq::<Seq<char>>::empty());
        assert(names_view(r@) =~= nv_a.take(0).filter(pred));
    }
    let mut i: usize = 0;
    while i < n
        invariant
            0 <= i <= n,
            n == a@.len(),
            nv_a == names_view(a@),
            pred == not_default(),
            def@ == default_cf_name(),
            names_view(r@) == nv_a.take(i as int).filter(pred),
        decreases n - i,
    {
        let ghost before = r@;
        proof {
            reveal(Seq::filter);
            assert(nv_a.take(i as int + 1).drop_last() =~= nv_a.take(i as int));
            assert(nv_a.take(i as int + 1).last() == nv_a[i as int]);
            assert(nv_a[i as int] == a@[i as int]@);
        }
        if !a[i].eq(&def) {
            let name = a[i].clone();
            r.push(name);
            proof {
                assert(names_view(r@) =~= names_view(before).push(a@[i as int]@));
            }
        }
        i = i + 1;
    }
    proof {
        assert(nv_a.take(n as int) =~= nv_a);
    }
    r
}

/// Plan how to open the engine: create it when the path holds none, open
/// directly when the on-disk families equal the configured list, and
/// otherwise reconcile by dropping the obsolete families (never
/// `default`) and creating the missing ones.
pub fn plan_open(db_exists: bool, existing: &Vec<String>, needed: &Vec<String>) -> (r: OpenPlan)
    ensures
        !db_exists ==> (r matches OpenPlan::Create { creates } && names_view(creates@)
            == names_view(needed@).filter(not_default())),
        db_exists && names_view(existing@) == names_view(needed@) ==> r
            == OpenPlan::OpenMatching,
        db_exists && names_view(existing@) != names_view(needed@) ==> (r
            matches OpenPlan::Reconcile { drops, creates } && names_view(drops@)
            == names_view(existing@).filter(droppable(names_view(needed@))) && names_view(
            creates@,
        ) == names_view(needed@).filter(not_in(names_view(existing@)))),
        match r {
            OpenPlan::Create { creates } => !seq_contains_str(
                names_view(creates@),
                default_cf_name(),
            ),
            OpenPlan::OpenMatching => true,
            OpenPlan::Reconcile { drops, creates: _ } => !seq_contains_str(
                names_view(drops@),
                default_cf_name(),
            ),
        },
{
    if !db_exists {
        let creates = all_but_default(needed);
        proof {
            lemma_filter_excludes(names_view(needed@), not_default(), default_cf_name());
        }
        return OpenPlan::Create { creates };
    }
    if names_equal(existing, needed) {
        return OpenPlan::OpenMatching;
    }
    let drops = diff_droppable(existing, needed);
    let creates = cfs_diff(needed, existing);
    proof {
        lemma_filter_excludes(names_view(existing@), droppable(names_view(needed@)), default_cf_name());
    }
    OpenPlan::Reconcile { drops, creates }
}

/// A name that the filter predicate rejects does not occur in the
/// filtered sequence.
proof fn lemma_filter_excludes(s: Seq<Seq<char>>, pred: spec_fn(Seq<char>) -> bool, x: Seq<char>)
    requires
        !pred(x),
    ensures
        !seq_contains_str(s.filter(pred), x),
    decreases s.len(),
{
    reveal(Seq::filter);
    if s.len() > 0 {
        lemma_filter_excludes(s.drop_last(), pred, x);
        let f = s.filter(pred);
        let fprev = s.drop_last().filter(pred);
        if pred(s.last()) {
            assert forall|i: int| 0 <= i < f.len() implies f[i] != x by {
                if i < fprev.len() {
                    assert(fprev[i] != x);
                } else {
                    assert(f[i] == s.last());
                }
            }
        }
    }
}

} // verus!
