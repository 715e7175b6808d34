//! The batched multi-column-family write engine.
//!
//! For a selected subset of the four column families, each paired with a
//! key and a value generator, the engine repeatedly fills one write
//! batch per active family — plus a separate delete batch for the lock
//! family — in lock step: each step takes one key and one value from
//! every active family, and the first exhausted generator ends the run
//! after the current batch.  The batches are produced in submission
//! order: put batches first, the lock delete batch last.  Submitting
//! them to the storage engine happens outside the library.

use vstd::prelude::*;

use crate::key::KeyGenKind;
use crate::key::copy_bytes;
use crate::val::ValGenKind;

verus! {

/// Which of the four column families take part in a run.
#[derive(Debug, Clone, Copy, PartialEq, Eq, Structural)]
pub struct ColumnFamilies {
    pub default: bool,
    pub lock: bool,
    pub raft: bool,
    pub write: bool,
}

impl ColumnFamilies {
    /// Which families the operation-role string selects: the letters
    /// `d`, `l`, `r` and `w` anywhere in the string switch on the
    /// default, lock, raft and write families.
    pub fn from_operations(operations: &str) -> (r: ColumnFamilies)
        ensures
            r.default == operations@.contains('d'),
            r.lock == operations@.contains('l'),
            r.raft == operations@.contains('r'),
            r.write == operations@.contains('w'),
    {
        let n = operations.unicode_len();
        let mut cfs = ColumnFamilies { default: false, lock: false, raft: false, write: false };
        let mut i: usize = 0;
        while i < n
            invariant
                0 <= i <= n,
                n == operations@.len(),
                cfs.default == (exists|j: int| 0 <= j < i && operations@[j] == 'd'),
                cfs.lock == (exists|j: int| 0 <= j < i && operations@[j] == 'l'),
                cfs.raft == (exists|j: int| 0 <= j < i && operations@[j] == 'r'),
                cfs.write == (exists|j: int| 0 <= j < i && operations@[j] == 'w'),
            decreases n - i,
        {
            let c = operations.get_char(i);
            if c == 'd' {
                cfs.default = true;
            } else if c == 'l' {
                cfs.lock = true;
            } else if c == 'r' {
                cfs.raft = true;
            } else if c == 'w' {
                cfs.write = true;
            }
            i = i + 1;
        }
        cfs
    }
}

/// The role a batch belongs to: one of the four column families.
#[derive(Debug, Clone, Copy, PartialEq, Eq, Structural)]
pub enum CfRole {
    Default,
    Lock,
    Raft,
    Write,
}

/// One pending mutation inside a batch.
#[derive(Debug)]
pub enum Mutation {
    Put { key: Vec<u8>, value: Vec<u8> },
    Delete { key: Vec<u8> },
}

/// One batch of mutations bound for one column family.
#[derive(Debug)]
pub struct Batch {
    pub cf: CfRole,
    pub ops: Vec<Mutation>,
}

/// Whether a role takes part in the run.
pub open spec fn role_active(cfs: ColumnFamilies, role: CfRole) -> bool {
    match role {
        CfRole::Default => cfs.default,
        CfRole::Lock => cfs.lock,
        CfRole::Raft => cfs.raft,
        CfRole::Write => cfs.write,
    }
}

/// The keys of the put mutations in a batch body, in order.
pub open spec fn ops_put_keys(ops: Seq<Mutation>) -> Seq<Seq<u8>>
    decreases ops.len(),
{
    if ops.len() == 0 {
        Seq::empty()
    } else {
        ops_put_keys(ops.drop_last()) + (match ops.last() {
            Mutation::Put { key, value } => seq![key@],
            Mutation::Delete { key } => Seq::empty(),
        })
    }
}

/// The keys of the delete mutations in a batch body, in order.
pub open spec fn ops_del_keys(ops: Seq<Mutation>) -> Seq<Seq<u8>>
    decreases ops.len(),
{
    if ops.len() == 0 {
        Seq::empty()
    } else {
        ops_del_keys(ops.drop_last()) + (match ops.last() {
            Mutation::Put { key, value } => Seq::empty(),
            Mutation::Delete { key } => seq![key@],
        })
    }
}

/// The keys of all put mutations bound for one role, over a whole run,
/// in submission order.
pub open spec fn put_keys_for(bs: Seq<Batch>, role: CfRole) -> Seq<Seq<u8>>
    decreases bs.len(),
{
    if bs.len() == 0 {
        Seq::empty()
    } else {
        put_keys_for(bs.drop_last(), role) + (if bs.last().cf == role {
            ops_put_keys(bs.last().ops@)
        } else {
            Seq::empty()
        })
    }
}

/// The keys of all delete mutations bound for one role, over a whole
/// run, in submission order.
pub open spec fn del_keys_for(bs: Seq<Batch>, role: CfRole) -> Seq<Seq<u8>>
    decreases bs.len(),
{
    if bs.len() == 0 {
        Seq::empty()
    } else {
        del_keys_for(bs.drop_last(), role) + (if bs.last().cf == role {
            ops_del_keys(bs.last().ops@)
        } else {
            Seq::empty()
        })
    }
}

/// The smaller of two counts when the second takes part.
pub open spec fn min_if(a: nat, b: nat, use_b: bool) -> nat {
    if use_b && b < a {
        b
    } else {
        a
    }
}

/// The smallest remaining count among the active roles: the number of
/// items the run writes to every active family.  Meaningful only when at
/// least one role is active.
pub open spec fn min_active(cfs: ColumnFamilies, d: nat, l: nat, r: nat, w: nat) -> nat {
    let m1 = if cfs.default {
        d
    } else if cfs.lock {
        l
    } else if cfs.raft {
        r
    } else {
        w
    };
    min_if(min_if(min_if(min_if(m1, d, cfs.default), l, cfs.lock), r, cfs.raft), w, cfs.write)
}

/// The remaining count of one active key generator after the run:
/// a generator that held exactly the minimum is drained; one pulled on
/// the final, failing step loses one extra key that is never written;
/// the rest keep everything past the minimum.  `pulled_last` says
/// whether every active role ahead of this one still had keys on the
/// failing step, so that this one was pulled on it.
pub open spec fn remaining_after(orig: nat, m0: nat, pulled_last: bool) -> nat {
    if orig == m0 {
        0
    } else if pulled_last {
        (orig - m0 - 1) as nat
    } else {
        (orig - m0) as nat
    }
}

/// Everything one run promises of its output and of the key generators:
/// every active family receives exactly `min_active` puts; the lock
/// family's deletes repeat exactly its put keys, in order, and at every
/// point of the submission sequence the lock deletes seen so far are a
/// prefix of the lock puts seen so far (no key is deleted before it was
/// put); no other family sees a delete; every produced batch is
/// non-empty, holds at most `batch_size` mutations, belongs to an
/// active family, and is pure (all puts or all deletes); and each
/// active key generator ends with the remaining count that the
/// lock-step pull order leaves it.
pub open spec fn spec_run_summary(
    cfs: ColumnFamilies,
    od: nat,
    ol: nat,
    orr: nat,
    ow: nat,
    batch_size: nat,
    out: Seq<Batch>,
    fd: nat,
    fl: nat,
    fr: nat,
    fw: nat,
) -> bool {
    let m0 = min_active(cfs, od, ol, orr, ow);
    let pulled_l = !cfs.default || od > m0;
    let pulled_r = pulled_l && (!cfs.lock || ol > m0);
    let pulled_w = pulled_r && (!cfs.raft || orr > m0);
    &&& put_keys_for(out, CfRole::Default).len() == (if cfs.default {
        m0
    } else {
        0
    })
    &&& put_keys_for(out, CfRole::Lock).len() == (if cfs.lock {
        m0
    } else {
        0
    })
    &&& put_keys_for(out, CfRole::Raft).len() == (if cfs.raft {
        m0
    } else {
        0
    })
    &&& put_keys_for(out, CfRole::Write).len() == (if cfs.write {
        m0
    } else {
        0
    })
    &&& del_keys_for(out, CfRole::Lock) == put_keys_for(out, CfRole::Lock)
    &&& del_keys_for(out, CfRole::Default).len() == 0
    &&& del_keys_for(out, CfRole::Raft).len() == 0
    &&& del_keys_for(out, CfRole::Write).len() == 0
    &&& forall|i: int|
        0 <= i < out.len() ==> out[i].ops@.len() >= 1 && out[i].ops@.len() <= batch_size
            && role_active(cfs, out[i].cf) && (ops_put_keys(out[i].ops@).len() == 0
            || ops_del_keys(out[i].ops@).len() == 0)
    &&& forall|i: int|
        0 <= i <= out.len() ==> (#[trigger] del_keys_for(out.take(i), CfRole::Lock)).is_prefix_of(
            put_keys_for(out.take(i), CfRole::Lock),
        )
    &&& (cfs.default ==> fd == remaining_after(od, m0, true))
    &&& (cfs.lock ==> fl == remaining_after(ol, m0, pulled_l))
    &&& (cfs.raft ==> fr == remaining_after(orr, m0, pulled_r))
    &&& (cfs.write ==> fw == remaining_after(ow, m0, pulled_w))
}

/// Appending one batch extends its own role's put and delete key lists
/// by the batch's keys and leaves every other role's lists unchanged.
proof fn lemma_push_batch(before: Seq<Batch>, b: Batch)
    ensures
        put_keys_for(before.push(b), b.cf) == put_keys_for(before, b.cf) + ops_put_keys(b.ops@),
        del_keys_for(before.push(b), b.cf) == del_keys_for(before, b.cf) + ops_del_keys(b.ops@),
        forall|role: CfRole|
            role != b.cf ==> #[trigger] put_keys_for(before.push(b), role) == put_keys_for(
                before,
                role,
            ),
        forall|role: CfRole|
            role != b.cf ==> #[trigger] del_keys_for(before.push(b), role) == del_keys_for(
                before,
                role,
            ),
{
    assert(before.push(b).drop_last() =~= before);
    assert(before.push(b).last() == b);
    assert forall|role: CfRole|
        role != b.cf implies #[trigger] put_keys_for(before.push(b), role) == put_keys_for(
        before,
        role,
    ) by {
        assert(put_keys_for(before, role) + Seq::<Seq<u8>>::empty() =~= put_keys_for(
            before,
            role,
        ));
    }
    assert forall|role: CfRole|
        role != b.cf implies #[trigger] del_keys_for(before.push(b), role) == del_keys_for(
        before,
        role,
    ) by {
        assert(del_keys_for(before, role) + Seq::<Seq<u8>>::empty() =~= del_keys_for(
            before,
            role,
        ));
    }
}

/// A prefix stays a prefix when the longer sequence is extended.
proof fn lemma_prefix_of_extension(d: Seq<Seq<u8>>, p: Seq<Seq<u8>>, x: Seq<Seq<u8>>)
    requires
        d.is_prefix_of(p),
    ensures
        d.is_prefix_of(p + x),
{
    assert((p + x).subrange(0, d.len() as int) =~= p.subrange(0, d.len() as int));
}

/// Appending a batch preserves "the lock deletes seen so far are a
/// prefix of the lock puts seen so far" at every old boundary; the new
/// boundary is supplied by the caller.
proof fn lemma_deletes_trail_push(before: Seq<Batch>, after: Seq<Batch>, b: Batch)
    requires
        after == before.push(b),
        forall|i: int|
            0 <= i <= before.len() ==> (#[trigger] del_keys_for(
                before.take(i),
                CfRole::Lock,
            )).is_prefix_of(put_keys_for(before.take(i), CfRole::Lock)),
        del_keys_for(after, CfRole::Lock).is_prefix_of(put_keys_for(after, CfRole::Lock)),
    ensures
        forall|i: int|
            0 <= i <= after.len() ==> (#[trigger] del_keys_for(
                after.take(i),
                CfRole::Lock,
            )).is_prefix_of(put_keys_for(after.take(i), CfRole::Lock)),
{
    assert forall|i: int|
        0 <= i <= after.len() implies (#[trigger] del_keys_for(
        after.take(i),
        CfRole::Lock,
    )).is_prefix_of(put_keys_for(after.take(i), CfRole::Lock)) by {
        if i <= before.len() {
            assert(after.take(i) =~= before.take(i));
            assert(del_keys_for(before.take(i), CfRole::Lock).is_prefix_of(
                put_keys_for(before.take(i), CfRole::Lock),
            ));
        } else {
            assert(after.take(i) =~= after);
        }
    }
}

/// Run the batched write engine: produce, in submission order, the
/// batches that one run writes to the active column families.
///
/// Each outer round fills one put batch per active family — and a
/// separate delete batch for the lock family, submitted after all put
/// batches — with up to `batch_size` items.  Each item takes one key and
/// one value from every active family's generators, in lock step; the
/// first exhausted key generator ends the run after the current round.
/// Every active family is written `min_active` items; the lock family's
/// delete batches repeat exactly the keys of its put batches, in order.
#[verifier::rlimit(100)]
pub fn cfs_write(
    cfs: &ColumnFamilies,
    keys_d: &mut KeyGenKind,
    vals_d: &mut ValGenKind,
    keys_l: &mut KeyGenKind,
    vals_l: &mut ValGenKind,
    keys_r: &mut KeyGenKind,
    vals_r: &mut ValGenKind,
    keys_w: &mut KeyGenKind,
    vals_w: &mut ValGenKind,
    batch_size: usize,
) -> (out: Vec<Batch>)
    requires
        cfs.default || cfs.lock || cfs.raft || cfs.write,
        batch_size >= 1,
        old(keys_d).wf(),
        old(vals_d).wf(),
        old(keys_l).wf(),
        old(vals_l).wf(),
        old(keys_r).wf(),
        old(vals_r).wf(),
        old(keys_w).wf(),
        old(vals_w).wf(),
    ensures
        final(keys_d).wf(),
        final(vals_d).wf(),
        final(keys_l).wf(),
        final(vals_l).wf(),
        final(keys_r).wf(),
        final(vals_r).wf(),
        final(keys_w).wf(),
        final(vals_w).wf(),
        spec_run_summary(
            *cfs,
            old(keys_d).remaining(),
            old(keys_l).remaining(),
            old(keys_r).remaining(),
            old(keys_w).remaining(),
            batch_size as nat,
            out@,
            final(keys_d).remaining(),
            final(keys_l).remaining(),
            final(keys_r).remaining(),
            final(keys_w).remaining(),
        ),
        !cfs.default ==> *final(keys_d) == *old(keys_d) && *final(vals_d) == *old(vals_d),
        !cfs.lock ==> *final(keys_l) == *old(keys_l) && *final(vals_l) == *old(vals_l),
        !cfs.raft ==> *final(keys_r) == *old(keys_r) && *final(vals_r) == *old(vals_r),
        !cfs.write ==> *final(keys_w) == *old(keys_w) && *final(vals_w) == *old(vals_w),
{
    let ghost od = keys_d.remaining();
    let ghost ol = keys_l.remaining();
    let ghost orr = keys_r.remaining();
    let ghost ow = keys_w.remaining();
    let ghost m0 = min_active(*cfs, od, ol, orr, ow);
    let ghost kd0 = *keys_d;
    let ghost vd0 = *vals_d;
    let ghost kl0 = *keys_l;
    let ghost vl0 = *vals_l;
    let ghost kr0 = *keys_r;
    let ghost vr0 = *vals_r;
    let ghost kw0 = *keys_w;
    let ghost vw0 = *vals_w;
    let ghost pulled_l = !cfs.default || od > m0;
    let ghost pulled_r = pulled_l && (!cfs.lock || ol > m0);
    let ghost pulled_w = pulled_r && (!cfs.raft || orr > m0);
    let mut out: Vec<Batch> = Vec::new();
    let mut finish = false;
    let ghost mut written: nat = 0;
    proof {
        let e = Seq::<Batch>::empty();
        assert(del_keys_for(e, CfRole::Lock) =~= Seq::<Seq<u8>>::empty());
        assert(put_keys_for(e, CfRole::Lock) =~= Seq::<Seq<u8>>::empty());
        assert(put_keys_for(e, CfRole::Lock).subrange(0, 0) =~= Seq::<Seq<u8>>::empty());
        assert forall|i: int|
            0 <= i <= out@.len() implies (#[trigger] del_keys_for(
            out@.take(i),
            CfRole::Lock,
        )).is_prefix_of(put_keys_for(out@.take(i), CfRole::Lock)) by {
            assert(out@.take(i) =~= e);
        }
    }
    while !finish
        invariant
            cfs.default || cfs.lock || cfs.raft || cfs.write,
            batch_size >= 1,
            m0 == min_active(*cfs, od, ol, orr, ow),
            pulled_l == (!cfs.default || od > m0),
            pulled_r == (pulled_l && (!cfs.lock || ol > m0)),
            pulled_w == (pulled_r && (!cfs.raft || orr > m0)),
            keys_d.wf(),
            vals_d.wf(),
            keys_l.wf(),
            vals_l.wf(),
            keys_r.wf(),
            vals_r.wf(),
            keys_w.wf(),
            vals_w.wf(),
            written <= m0,
            !finish ==> {
                &&& (cfs.default ==> keys_d.remaining() == od - written)
                &&& (cfs.lock ==> keys_l.remaining() == ol - written)
                &&& (cfs.raft ==> keys_r.remaining() == orr - written)
                &&& (cfs.write ==> keys_w.remaining() == ow - written)
            },
            finish ==> {
                &&& written == m0
                &&& (cfs.default ==> keys_d.remaining() == remaining_after(od, m0, true))
                &&& (cfs.lock ==> keys_l.remaining() == remaining_after(ol, m0, pulled_l))
                &&& (cfs.raft ==> keys_r.remaining() == remaining_after(orr, m0, pulled_r))
                &&& (cfs.write ==> keys_w.remaining() == remaining_after(ow, m0, pulled_w))
            },
            !cfs.default ==> *keys_d == kd0 && *vals_d == vd0,
            !cfs.lock ==> *keys_l == kl0 && *vals_l == vl0,
            !cfs.raft ==> *keys_r == kr0 && *vals_r == vr0,
            !cfs.write ==> *keys_w == kw0 && *vals_w == vw0,
            put_keys_for(out@, CfRole::Default).len() == (if cfs.default {
                written
            } else {
                0
            }),
            put_keys_for(out@, CfRole::Lock).len() == (if cfs.lock {
                written
            } else {
                0
            }),
            put_keys_for(out@, CfRole::Raft).len() == (if cfs.raft {
                written
            } else {
                0
            }),
            put_keys_for(out@, CfRole::Write).len() == (if cfs.write {
                written
            } else {
                0
            }),
            del_keys_for(out@, CfRole::Lock) == put_keys_for(out@, CfRole::Lock),
            del_keys_for(out@, CfRole::Default).len() == 0,
            del_keys_for(out@, CfRole::Raft).len() == 0,
            del_keys_for(out@, CfRole::Write).len() == 0,
            forall|i: int|
                0 <= i < out@.len() ==> out@[i].ops@.len() >= 1 && out@[i].ops@.len()
                    <= batch_size && role_active(*cfs, out@[i].cf) && (ops_put_keys(
                    out@[i].ops@,
                ).len() == 0 || ops_del_keys(out@[i].ops@).len() == 0),
            forall|i: int|
                0 <= i <= out@.len() ==> (#[trigger] del_keys_for(
                    out@.take(i),
                    CfRole::Lock,
                )).is_prefix_of(put_keys_for(out@.take(i), CfRole::Lock)),
        decreases keys_d.remaining() + keys_l.remaining() + keys_r.remaining()
            + keys_w.remaining() + (if finish {
            0int
        } else {
            1int
        }),
    {
        let mut ops_d: Vec<Mutation> = Vec::new();
        let mut ops_l: Vec<Mutation> = Vec::new();
        let mut ops_r: Vec<Mutation> = Vec::new();
        let mut ops_w: Vec<Mutation> = Vec::new();
        let mut dels_l: Vec<Mutation> = Vec::new();
        let ghost w0 = written;
        let mut j: usize = 0;
        while j < batch_size && !finish
            invariant
                cfs.default || cfs.lock || cfs.raft || cfs.write,
                m0 == min_active(*cfs, od, ol, orr, ow),
                pulled_l == (!cfs.default || od > m0),
                pulled_r == (pulled_l && (!cfs.lock || ol > m0)),
                pulled_w == (pulled_r && (!cfs.raft || orr > m0)),
                put_keys_for(out@, CfRole::Default).len() == (if cfs.default {
                    w0
                } else {
                    0
                }),
                put_keys_for(out@, CfRole::Lock).len() == (if cfs.lock {
                    w0
                } else {
                    0
                }),
                put_keys_for(out@, CfRole::Raft).len() == (if cfs.raft {
                    w0
                } else {
                    0
                }),
                put_keys_for(out@, CfRole::Write).len() == (if cfs.write {
                    w0
                } else {
                    0
                }),
                del_keys_for(out@, CfRole::Lock) == put_keys_for(out@, CfRole::Lock),
                del_keys_for(out@, CfRole::Default).len() == 0,
                del_keys_for(out@, CfRole::Raft).len() == 0,
                del_keys_for(out@, CfRole::Write).len() == 0,
                forall|i: int|
                    0 <= i < out@.len() ==> out@[i].ops@.len() >= 1 && out@[i].ops@.len()
                        <= batch_size && role_active(*cfs, out@[i].cf) && (ops_put_keys(
                        out@[i].ops@,
                    ).len() == 0 || ops_del_keys(out@[i].ops@).len() == 0),
                forall|i: int|
                    0 <= i <= out@.len() ==> (#[trigger] del_keys_for(
                        out@.take(i),
                        CfRole::Lock,
                    )).is_prefix_of(put_keys_for(out@.take(i), CfRole::Lock)),
                0 <= j <= batch_size,
                written - w0 <= j,
                keys_d.wf(),
                vals_d.wf(),
                keys_l.wf(),
                vals_l.wf(),
                keys_r.wf(),
                vals_r.wf(),
                keys_w.wf(),
                vals_w.wf(),
                w0 <= written <= m0,
                !finish ==> written - w0 == j,
                !finish ==> {
                    &&& (cfs.default ==> keys_d.remaining() == od - written)
                    &&& (cfs.lock ==> keys_l.remaining() == ol - written)
                    &&& (cfs.raft ==> keys_r.remaining() == orr - written)
                    &&& (cfs.write ==> keys_w.remaining() == ow - written)
                },
                finish ==> {
                    &&& written == m0
                    &&& (cfs.default ==> keys_d.remaining() == remaining_after(od, m0, true))
                    &&& (cfs.lock ==> keys_l.remaining() == remaining_after(ol, m0, pulled_l))
                    &&& (cfs.raft ==> keys_r.remaining() == remaining_after(orr, m0, pulled_r))
                    &&& (cfs.write ==> keys_w.remaining() == remaining_after(ow, m0, pulled_w))
                },
                !cfs.default ==> *keys_d == kd0 && *vals_d == vd0,
                !cfs.lock ==> *keys_l == kl0 && *vals_l == vl0,
                !cfs.raft ==> *keys_r == kr0 && *vals_r == vr0,
                !cfs.write ==> *keys_w == kw0 && *vals_w == vw0,
                ops_d@.len() == (if cfs.default {
                    written - w0
                } else {
                    0
                }),
                ops_l@.len() == (if cfs.lock {
                    written - w0
                } else {
                    0
                }),
                ops_r@.len() == (if cfs.raft {
                    written - w0
                } else {
                    0
                }),
                ops_w@.len() == (if cfs.write {
                    written - w0
                } else {
                    0
                }),
                ops_put_keys(ops_d@).len() == ops_d@.len(),
                ops_put_keys(ops_l@).len() == ops_l@.len(),
                ops_put_keys(ops_r@).len() == ops_r@.len(),
                ops_put_keys(ops_w@).len() == ops_w@.len(),
                ops_del_keys(ops_d@).len() == 0,
                ops_del_keys(ops_l@).len() == 0,
                ops_del_keys(ops_r@).len() == 0,
                ops_del_keys(ops_w@).len() == 0,
                dels_l@.len() == ops_l@.len(),
                ops_del_keys(dels_l@) == ops_put_keys(ops_l@),
                ops_put_keys(dels_l@).len() == 0,
            decreases batch_size - j + (if finish {
                0int
            } else {
                1int
            }),
        {
            let mut key_d: Option<Vec<u8>> = None;
            let mut key_l: Option<Vec<u8>> = None;
            let mut key_r: Option<Vec<u8>> = None;
            let mut key_w: Option<Vec<u8>> = None;
            if cfs.default {
                key_d = keys_d.next();
                if key_d.is_none() {
                    finish = true;
                    proof {
                        assert(od - written == 0);
                        assert(written == m0);
                    }
                }
            }
            if !finish && cfs.lock {
                key_l = keys_l.next();
                if key_l.is_none() {
                    finish = true;
                    proof {
                        assert(ol - written == 0);
                        assert(written == m0);
                        assert(cfs.default ==> od > m0);
                    }
                }
            }
            if !finish && cfs.raft {
                key_r = keys_r.next();
                if key_r.is_none() {
                    finish = true;
                    proof {
                        assert(orr - written == 0);
                        assert(written == m0);
                        assert(cfs.default ==> od > m0);
                        assert(cfs.lock ==> ol > m0);
                    }
                }
            }
            if !finish && cfs.write {
                key_w = keys_w.next();
                if key_w.is_none() {
                    finish = true;
                    proof {
                        assert(ow - written == 0);
                        assert(written == m0);
                        assert(cfs.default ==> od > m0);
                        assert(cfs.lock ==> ol > m0);
                        assert(cfs.raft ==> orr > m0);
                    }
                }
            }
            if !finish {
                if cfs.default {
                    let ghost before = ops_d@;
                    let k = match key_d {
                        Some(k) => k,
                        None => {
                            proof {
                                assert(false);
                            }
                            Vec::new()
                        },
                    };
                    let v = match vals_d.next() {
                        Some(v) => v,
                        None => {
                            proof {
                                assert(false);
                            }
                            Vec::new()
                        },
                    };
                    ops_d.push(Mutation::Put { key: k, value: v });
                    proof {
                        assert(ops_d@.drop_last() =~= before);
                    }
                }
                if cfs.lock {
                    let ghost before = ops_l@;
                    let ghost before_dels = dels_l@;
                    let k = match key_l {
                        Some(k) => k,
                        None => {
                            proof {
                                assert(false);
                            }
                            Vec::new()
                        },
                    };
                    let kcopy = copy_bytes(&k);
                    let v = match vals_l.next() {
                        Some(v) => v,
                        None => {
                            proof {
                                assert(false);
                            }
                            Vec::new()
                        },
                    };
                    ops_l.push(Mutation::Put { key: k, value: v });
                    dels_l.push(Mutation::Delete { key: kcopy });
                    proof {
                        assert(ops_l@.drop_last() =~= before);
                        assert(dels_l@.drop_last() =~= before_dels);
                        assert(ops_del_keys(dels_l@) =~= ops_put_keys(ops_l@));
                    }
                }
                if cfs.raft {
                    let ghost before = ops_r@;
                    let k = match key_r {
                        Some(k) => k,
                        None => {
                            proof {
                                assert(false);
                            }
                            Vec::new()
                        },
                    };
                    let v = match vals_r.next() {
                        Some(v) => v,
                        None => {
                            proof {
                                assert(false);
                            }
                            Vec::new()
                        },
                    };
                    ops_r.push(Mutation::Put { key: k, value: v });
                    proof {
                        assert(ops_r@.drop_last() =~= before);
                    }
                }
                if cfs.write {
                    let ghost before = ops_w@;
                    let k = match key_w {
                        Some(k) => k,
                        None => {
                            proof {
                                assert(false);
                            }
                            Vec::new()
                        },
                    };
                    let v = match vals_w.next() {
                        Some(v) => v,
                        None => {
                            proof {
                                assert(false);
                            }
                            Vec::new()
                        },
                    };
                    ops_w.push(Mutation::Put { key: k, value: v });
                    proof {
                        assert(ops_w@.drop_last() =~= before);
                    }
                }
                proof {
                    written = written + 1;
                }
            }
            j = j + 1;
        }
        // Submit the round: put batches in role order, the lock delete
        // batch last, skipping empty batches.
        if ops_d.len() > 0 {
            let ghost before = out@;
            out.push(Batch { cf: CfRole::Default, ops: ops_d });
            proof {
                lemma_push_batch(before, out@.last());
                assert(before.take(before.len() as int) =~= before);
                assert(del_keys_for(before, CfRole::Lock).is_prefix_of(
                    put_keys_for(before, CfRole::Lock),
                ));
                assert(del_keys_for(out@, CfRole::Lock) == del_keys_for(before, CfRole::Lock));
                assert(put_keys_for(out@, CfRole::Lock) == put_keys_for(before, CfRole::Lock));
                lemma_deletes_trail_push(before, out@, out@.last());
            }
        }
        if ops_l.len() > 0 {
            let ghost before = out@;
            out.push(Batch { cf: CfRole::Lock, ops: ops_l });
            proof {
                lemma_push_batch(before, out@.last());
                assert(before.take(before.len() as int) =~= before);
                assert(del_keys_for(before, CfRole::Lock).is_prefix_of(
                    put_keys_for(before, CfRole::Lock),
                ));
                assert(del_keys_for(out@, CfRole::Lock) == del_keys_for(before, CfRole::Lock));
                lemma_prefix_of_extension(
                    del_keys_for(before, CfRole::Lock),
                    put_keys_for(before, CfRole::Lock),
                    ops_put_keys(out@.last().ops@),
                );
                lemma_deletes_trail_push(before, out@, out@.last());
            }
        }
        if ops_r.len() > 0 {
            let ghost before = out@;
            out.push(Batch { cf: CfRole::Raft, ops: ops_r });
            proof {
                lemma_push_batch(before, out@.last());
                assert(before.take(before.len() as int) =~= before);
                assert(del_keys_for(before, CfRole::Lock).is_prefix_of(
                    put_keys_for(before, CfRole::Lock),
                ));
                assert(del_keys_for(out@, CfRole::Lock) == del_keys_for(before, CfRole::Lock));
                assert(put_keys_for(out@, CfRole::Lock) == put_keys_for(before, CfRole::Lock));
                lemma_deletes_trail_push(before, out@, out@.last());
            }
        }
        if ops_w.len() > 0 {
            let ghost before = out@;
            out.push(Batch { cf: CfRole::Write, ops: ops_w });
            proof {
                lemma_push_batch(before, out@.last());
                assert(before.take(before.len() as int) =~= before);
                assert(del_keys_for(before, CfRole::Lock).is_prefix_of(
                    put_keys_for(before, CfRole::Lock),
                ));
                assert(del_keys_for(out@, CfRole::Lock) == del_keys_for(before, CfRole::Lock));
                assert(put_keys_for(out@, CfRole::Lock) == put_keys_for(before, CfRole::Lock));
                lemma_deletes_trail_push(before, out@, out@.last());
            }
        }
        if dels_l.len() > 0 {
            let ghost before = out@;
            out.push(Batch { cf: CfRole::Lock, ops: dels_l });
            proof {
                lemma_push_batch(before, out@.last());
                assert(before.take(before.len() as int) =~= before);
                assert(del_keys_for(out@, CfRole::Lock) == put_keys_for(out@, CfRole::Lock));
                assert(put_keys_for(out@, CfRole::Lock).subrange(
                    0,
                    put_keys_for(out@, CfRole::Lock).len() as int,
                ) =~= put_keys_for(out@, CfRole::Lock));
                assert(del_keys_for(out@, CfRole::Lock).is_prefix_of(
                    put_keys_for(out@, CfRole::Lock),
                ));
                lemma_deletes_trail_push(before, out@, out@.last());
            }
        }
        proof {
            if !finish {
                assert(written == w0 + batch_size);
                assert(written >= w0 + 1);
            }
        }
    }
    out
}

} // verus!

