//! Key generators: stateful, single-pass producers of key byte
//! sequences.
//!
//! Every generator holds a remaining count that never increases; once it
//! reaches zero, `next` yields nothing forever.  The variants repeat one
//! random buffer, increment a big-endian counter, draw fresh
//! pseudo-random bytes, or encode `(region, sequence)` pairs that cycle
//! round-robin over a fixed number of regions.

use vstd::prelude::*;
use vstd::arithmetic::div_mod::{lemma_small_mod, lemma_mod_self_0};

use byteorder::{BigEndian, WriteBytesExt};
use rand::Rng;
use rand::SeedableRng;

use crate::config::ConfigError;

verus! {

/// A producer of key byte sequences: each call to `next` yields the next
/// key, or nothing once the generator is exhausted.
pub trait KeyGen: Sized {
    /// The generator's internal validity.
    spec fn wf(&self) -> bool;

    /// How many keys remain to be produced.
    spec fn remaining(&self) -> nat;

    /// The length of the key buffer the generator currently holds; a
    /// produced key always has this length after the call.
    spec fn key_len(&self) -> nat;

    /// Produce the next key.  The remaining count never increases; once
    /// it is zero, `next` yields nothing forever.
    fn next(&mut self) -> (r: Option<Vec<u8>>)
        requires
            old(self).wf(),
        ensures
            final(self).wf(),
            old(self).remaining() == 0 ==> r is None && final(self).remaining() == 0,
            old(self).remaining() > 0 ==> r is Some && final(self).remaining() == old(
                self,
            ).remaining() - 1,
            r matches Some(k) ==> k@.len() == final(self).key_len(),
    ;
}

/// The seed used by the deterministic pseudo-random generators.
pub const RNG_SEED: u64 = 1;

/// Relies on rand's `StdRng`: an owned pseudo-random stream state.
#[verifier::external_type_specification]
#[verifier::external_body]
pub struct ExStdRng(rand::rngs::StdRng);

/// Relies on rand's `SeedableRng::seed_from_u64` for `StdRng`: builds a
/// pseudo-random stream from a fixed seed.  Nothing is promised of the
/// stream it produces.
#[verifier::external_body]
pub(crate) fn seeded_rng(seed: u64) -> rand::rngs::StdRng {
    rand::rngs::StdRng::seed_from_u64(seed)
}

/// Relies on rand's `Rng::fill_bytes` for `StdRng`: fills the buffer
/// completely with pseudo-random bytes, so only the length is promised.
#[verifier::external_body]
pub(crate) fn fill_from_rng(rng: &mut rand::rngs::StdRng, buf: &mut Vec<u8>)
    ensures
        final(buf)@.len() == old(buf)@.len(),
{
    rng.fill_bytes(buf.as_mut_slice());
}

/// Relies on rand's thread-local generator and `Rng::fill_bytes`: fills
/// the buffer completely with random bytes, so only the length is
/// promised.  The thread-local generator aborts the process if the
/// operating system cannot seed it.
#[verifier::external_body]
pub(crate) fn fill_with_entropy(buf: &mut Vec<u8>)
    ensures
        final(buf)@.len() == old(buf)@.len(),
{
    rand::rng().fill_bytes(buf.as_mut_slice());
}

/// The eight big-endian bytes of a 64-bit integer.
pub open spec fn spec_u64_be_bytes(x: u64) -> Seq<u8> {
    seq![
        (x >> 56) as u8,
        (x >> 48) as u8,
        (x >> 40) as u8,
        (x >> 32) as u8,
        (x >> 24) as u8,
        (x >> 16) as u8,
        (x >> 8) as u8,
        x as u8,
    ]
}

/// Relies on byteorder's `WriteBytesExt::write_u64::<BigEndian>` through
/// the `io::Write` of `Vec<u8>`, which never fails: appends exactly the
/// eight big-endian bytes of `x`.
#[verifier::external_body]
fn push_u64_be(v: &mut Vec<u8>, x: u64)
    ensures
        final(v)@ == old(v)@ + spec_u64_be_bytes(x),
{
    let _ = v.write_u64::<BigEndian>(x);
}

/// A vector of `len` zero bytes.
pub(crate) fn zeroed(len: usize) -> (v: Vec<u8>)
    ensures
        v@.len() == len,
        forall|i: int| 0 <= i < len ==> v@[i] == 0u8,
{
    let mut v: Vec<u8> = Vec::new();
    let mut i: usize = 0;
    while i < len
        invariant
            0 <= i <= len,
            v@.len() == i,
            forall|j: int| 0 <= j < i ==> v@[j] == 0u8,
        decreases len - i,
    {
        v.push(0);
        i = i + 1;
    }
    v
}

/// An owned copy of a byte vector.
pub(crate) fn copy_bytes(v: &Vec<u8>) -> (r: Vec<u8>)
    ensures
        r@ == v@,
{
    let mut r: Vec<u8> = Vec::new();
    let n = v.len();
    let mut i: usize = 0;
    while i < n
        invariant
            0 <= i <= n,
            n == v@.len(),
            r@ == v@.take(i as int),
        decreases n - i,
    {
        r.push(v[i]);
        proof {
            assert(r@ =~= v@.take(i as int + 1));
        }
        i = i + 1;
    }
    proof {
        assert(v@.take(n as int) =~= v@);
    }
    r
}

/// Repeats one fixed random buffer until the count runs out.
pub struct RepeatKeyGen {
    pub key: Vec<u8>,
    pub cnt: usize,
}

impl RepeatKeyGen {
    /// A generator yielding the same random `len`-byte key `cnt` times.
    pub fn new(len: usize, cnt: usize) -> (r: RepeatKeyGen)
        ensures
            r.key@.len() == len,
            r.cnt == cnt,
    {
        let mut key = zeroed(len);
        fill_with_entropy(&mut key);
        RepeatKeyGen { key, cnt }
    }
}

impl KeyGen for RepeatKeyGen {
    open spec fn key_len(&self) -> nat {
        self.key@.len()
    }

    open spec fn wf(&self) -> bool {
        true
    }

    open spec fn remaining(&self) -> nat {
        self.cnt as nat
    }

    fn next(&mut self) -> (r: Option<Vec<u8>>)
        ensures
            final(self).key == old(self).key,
            old(self).cnt > 0 ==> (r matches Some(k) && k@ == old(self).key@),
    {
        if self.cnt > 0 {
            self.cnt = self.cnt - 1;
            Some(copy_bytes(&self.key))
        } else {
            None
        }
    }
}

/// 256 raised to `n`: the number of values of an `n`-byte buffer.
pub open spec fn pow256(n: nat) -> nat
    decreases n,
{
    if n == 0 {
        1
    } else {
        256 * pow256((n - 1) as nat)
    }
}

/// The value of a byte sequence read as a big-endian unsigned integer.
pub open spec fn be_val(s: Seq<u8>) -> nat
    decreases s.len(),
{
    if s.len() == 0 {
        0
    } else {
        (be_val(s.drop_last()) * 256 + s.last()) as nat
    }
}

/// A sequence of `n` zero bytes.
pub open spec fn zeros_seq(n: nat) -> Seq<u8> {
    Seq::new(n, |i: int| 0u8)
}

pub proof fn lemma_be_val_bound(s: Seq<u8>)
    ensures
        be_val(s) < pow256(s.len()),
    decreases s.len(),
{
    if s.len() > 0 {
        lemma_be_val_bound(s.drop_last());
    }
}

pub proof fn lemma_be_val_append_zeros(s: Seq<u8>, z: nat)
    ensures
        be_val(s + zeros_seq(z)) == be_val(s) * pow256(z),
    decreases z,
{
    if z == 0 {
        assert(s + zeros_seq(0) =~= s);
        assert(pow256(0) == 1);
        assert(be_val(s) * pow256(0) == be_val(s)) by (nonlinear_arith)
            requires
                pow256(0) == 1,
        ;
    } else {
        let t = s + zeros_seq(z);
        assert(t.len() == s.len() + z);
        assert(t.drop_last() =~= s + zeros_seq((z - 1) as nat));
        assert(t.last() == 0);
        lemma_be_val_append_zeros(s, (z - 1) as nat);
        let prev = be_val(s + zeros_seq((z - 1) as nat));
        assert(be_val(t) == (prev * 256 + 0) as nat);
        assert(prev == be_val(s) * pow256((z - 1) as nat));
        assert(pow256(z) == 256 * pow256((z - 1) as nat));
        assert(prev * 256 == be_val(s) * pow256(z)) by (nonlinear_arith)
            requires
                prev == be_val(s) * pow256((z - 1) as nat),
                pow256(z) == 256 * pow256((z - 1) as nat),
        ;
        assert(prev * 256 >= 0) by (nonlinear_arith);
        assert(be_val(t) == prev * 256);
        assert(be_val(t) == be_val(s) * pow256(z));
    }
}

/// Treats the buffer as one big-endian unsigned integer and increments
/// it on every call, wrapping around when every byte is exhausted.
pub struct IncreaseKeyGen {
    pub key: Vec<u8>,
    pub cnt: usize,
}

impl IncreaseKeyGen {
    /// A generator counting upward from the all-zero `len`-byte key,
    /// yielding `cnt` keys.
    pub fn new(len: usize, cnt: usize) -> (r: IncreaseKeyGen)
        ensures
            r.key@ == zeros_seq(len as nat),
            r.cnt == cnt,
    {
        let key = zeroed(len);
        proof {
            assert(key@ =~= zeros_seq(len as nat));
        }
        IncreaseKeyGen { key, cnt }
    }

    /// Increment the key: add one to the last byte, propagating the
    /// carry backward; the value wraps when every byte was at its
    /// maximum.
    fn key_inc(&mut self)
        ensures
            final(self).cnt == old(self).cnt,
            final(self).key@.len() == old(self).key@.len(),
            be_val(final(self).key@) == (be_val(old(self).key@) + 1) % pow256(
                old(self).key@.len(),
            ),
    {
        let k = self.key.len();
        let ghost orig = self.key@;
        let ghost c0 = self.cnt;
        proof {
            assert(orig.take(k as int) =~= orig);
            assert(self.key@ =~= orig.take(k as int) + zeros_seq(0));
            assert(pow256(0) == 1);
            assert(be_val(orig.take(k as int)) == be_val(orig));
            assert((be_val(orig) + 1) * 1 == be_val(orig) + 1);
        }
        let mut idx: usize = k;
        loop
            invariant_except_break
                self.key@ == orig.take(idx as int) + zeros_seq((k - idx) as nat),
                be_val(orig) + 1 == (be_val(orig.take(idx as int)) + 1) * pow256((k - idx) as nat),
            invariant
                0 <= idx <= k,
                orig.len() == k,
                self.cnt == c0,
            ensures
                self.cnt == c0,
                self.key@.len() == k,
                be_val(self.key@) == (be_val(orig) + 1) % pow256(k as nat),
            decreases idx,
        {
            if idx == 0 {
                proof {
                    assert(orig.take(0) =~= Seq::<u8>::empty());
                    assert(self.key@ =~= Seq::<u8>::empty() + zeros_seq(k as nat));
                    lemma_be_val_append_zeros(Seq::empty(), k as nat);
                    assert(be_val(Seq::<u8>::empty()) == 0);
                    assert((0 + 1) * pow256(k as nat) == pow256(k as nat)) by (nonlinear_arith);
                    assert(be_val(orig) + 1 == pow256(k as nat));
                    lemma_mod_self_0(pow256(k as nat) as int);
                }
                break;
            }
            idx = idx - 1;
            proof {
                assert(self.key@[idx as int] == orig.take(idx as int + 1)[idx as int]);
                assert(self.key@[idx as int] == orig[idx as int]);
            }
            let b = self.key[idx];
            let ghost prefix = orig.take(idx as int);
            proof {
                assert(orig.take(idx as int + 1).drop_last() =~= prefix);
                assert(orig.take(idx as int + 1).last() == orig[idx as int]);
            }
            if b == 255 {
                self.key.set(idx, 0);
                proof {
                    assert(self.key@ =~= prefix + zeros_seq((k - idx) as nat));
                    let a = be_val(prefix);
                    assert((a * 256 + 255 + 1) * pow256((k - idx - 1) as nat) == (a + 1) * pow256(
                        (k - idx) as nat,
                    )) by (nonlinear_arith)
                        requires
                            pow256((k - idx) as nat) == 256 * pow256((k - idx - 1) as nat),
                    ;
                }
            } else {
                self.key.set(idx, b + 1);
                proof {
                    let withinc = prefix.push((b + 1) as u8);
                    assert(self.key@ =~= withinc + zeros_seq((k - idx - 1) as nat));
                    lemma_be_val_append_zeros(withinc, (k - idx - 1) as nat);
                    assert(withinc.drop_last() =~= prefix);
                    assert(withinc.last() == b + 1);
                    let a = be_val(prefix);
                    assert((a * 256 + b + 1) * pow256((k - idx - 1) as nat) == (a * 256 + b + 1)
                        * pow256((k - idx - 1) as nat));
                    lemma_be_val_bound(self.key@);
                    assert(pow256(self.key@.len()) == pow256(k as nat));
                    lemma_small_mod((be_val(orig) + 1) as nat, pow256(k as nat));
                }
                break;
            }
        }
    }
}

impl KeyGen for IncreaseKeyGen {
    open spec fn key_len(&self) -> nat {
        self.key@.len()
    }

    open spec fn wf(&self) -> bool {
        true
    }

    open spec fn remaining(&self) -> nat {
        self.cnt as nat
    }

    fn next(&mut self) -> (r: Option<Vec<u8>>)
        ensures
            final(self).key@.len() == old(self).key@.len(),
            old(self).cnt > 0 ==> (r matches Some(k) && k@ == final(self).key@ && be_val(
                final(self).key@,
            ) == (be_val(old(self).key@) + 1) % pow256(old(self).key@.len())),
            old(self).cnt == 0 ==> final(self).key == old(self).key,
    {
        if self.cnt > 0 {
            self.cnt = self.cnt - 1;
            self.key_inc();
            Some(copy_bytes(&self.key))
        } else {
            None
        }
    }
}

/// Draws a fresh pseudo-random buffer on every call, from a stream
/// seeded with a fixed value.
pub struct RandomKeyGen {
    pub key: Vec<u8>,
    pub cnt: usize,
    pub rand: rand::rngs::StdRng,
}

impl RandomKeyGen {
    /// A generator yielding `cnt` pseudo-random `len`-byte keys.
    pub fn new(len: usize, cnt: usize) -> (r: RandomKeyGen)
        ensures
            r.key@.len() == len,
            r.cnt == cnt,
    {
        RandomKeyGen { key: zeroed(len), cnt, rand: seeded_rng(RNG_SEED) }
    }
}

impl KeyGen for RandomKeyGen {
    open spec fn key_len(&self) -> nat {
        self.key@.len()
    }

    open spec fn wf(&self) -> bool {
        true
    }

    open spec fn remaining(&self) -> nat {
        self.cnt as nat
    }

    fn next(&mut self) -> (r: Option<Vec<u8>>)
        ensures
            final(self).key@.len() == old(self).key@.len(),
            old(self).cnt > 0 ==> (r matches Some(k) && k@ == final(self).key@),
    {
        if self.cnt > 0 {
            self.cnt = self.cnt - 1;
            fill_from_rng(&mut self.rand, &mut self.key);
            Some(copy_bytes(&self.key))
        } else {
            None
        }
    }
}

/// A region-structured key: the region id and the sequence number within
/// the region as big-endian 64-bit integers, separated by a colon byte.
pub open spec fn spec_raft_key(region_id: u64, log_id: u64) -> Seq<u8> {
    spec_u64_be_bytes(region_id) + seq![58u8] + spec_u64_be_bytes(log_id)
}

/// Encodes `(region, sequence)` pairs that cycle round-robin over a
/// fixed number of regions: the `i`-th key produced carries
/// `region = i mod region_num` and `sequence = i div region_num`.
pub struct SeqKeyGen {
    pub key: Vec<u8>,
    pub cnt: usize,
    pub total: usize,
    pub region_num: usize,
}

impl SeqKeyGen {
    /// A generator yielding `cnt` region-structured keys spread over
    /// `region_num` regions.
    pub fn new(len: usize, cnt: usize, region_num: usize) -> (r: SeqKeyGen)
        requires
            region_num >= 1,
        ensures
            r.wf(),
            r.key@.len() == len,
            r.cnt == cnt,
            r.total == cnt,
            r.region_num == region_num,
    {
        SeqKeyGen { key: zeroed(len), cnt, total: cnt, region_num }
    }

    /// Replace the key with the encoding of one `(region, sequence)`
    /// pair.
    fn key_raft(&mut self, region_id: u64, log_id: u64)
        ensures
            final(self).key@ == spec_raft_key(region_id, log_id),
            final(self).cnt == old(self).cnt,
            final(self).total == old(self).total,
            final(self).region_num == old(self).region_num,
    {
        let mut key: Vec<u8> = Vec::new();
        push_u64_be(&mut key, region_id);
        key.push(58);  // the ':' separator
        push_u64_be(&mut key, log_id);
        proof {
            assert(key@ =~= spec_raft_key(region_id, log_id));
        }
        self.key = key;
    }
}

impl KeyGen for SeqKeyGen {
    open spec fn key_len(&self) -> nat {
        self.key@.len()
    }

    open spec fn wf(&self) -> bool {
        self.cnt <= self.total && self.region_num >= 1
    }

    open spec fn remaining(&self) -> nat {
        self.cnt as nat
    }

    fn next(&mut self) -> (r: Option<Vec<u8>>)
        ensures
            final(self).total == old(self).total,
            final(self).region_num == old(self).region_num,
            old(self).cnt > 0 ==> (r matches Some(k) && k@ == final(self).key@ && final(self).key@
                == spec_raft_key(
                (((old(self).total - old(self).cnt) as int) % (old(self).region_num as int)) as u64,
                (((old(self).total - old(self).cnt) as int) / (old(self).region_num as int)) as u64,
            )),
            old(self).cnt == 0 ==> final(self).key == old(self).key,
    {
        if self.cnt > 0 {
            let consumed = self.total - self.cnt;
            let region_id = consumed % self.region_num;
            let log_id = consumed / self.region_num;
            self.key_raft(region_id as u64, log_id as u64);
            self.cnt = self.cnt - 1;
            Some(copy_bytes(&self.key))
        } else {
            None
        }
    }
}

/// One key generator of any kind, selected by its configured name.
pub enum KeyGenKind {
    Repeat(RepeatKeyGen),
    Increase(IncreaseKeyGen),
    Random(RandomKeyGen),
    Raft(SeqKeyGen),
}

impl KeyGenKind {
    /// The generator's internal validity.
    pub open spec fn wf(&self) -> bool {
        match self {
            KeyGenKind::Repeat(g) => g.wf(),
            KeyGenKind::Increase(g) => g.wf(),
            KeyGenKind::Random(g) => g.wf(),
            KeyGenKind::Raft(g) => g.wf(),
        }
    }

    /// How many keys remain to be produced.
    pub open spec fn remaining(&self) -> nat {
        match self {
            KeyGenKind::Repeat(g) => g.remaining(),
            KeyGenKind::Increase(g) => g.remaining(),
            KeyGenKind::Random(g) => g.remaining(),
            KeyGenKind::Raft(g) => g.remaining(),
        }
    }

    /// The length of the key buffer the generator currently holds.
    pub open spec fn key_len(&self) -> nat {
        match self {
            KeyGenKind::Repeat(g) => g.key@.len(),
            KeyGenKind::Increase(g) => g.key@.len(),
            KeyGenKind::Random(g) => g.key@.len(),
            KeyGenKind::Raft(g) => g.key@.len(),
        }
    }

    /// Produce the next key.  The remaining count never increases; once
    /// it is zero, `next` yields nothing forever.  Each kind keeps its
    /// kind and produces what it stands for: the repeating kind its
    /// stored key; the increasing kind the key whose big-endian value
    /// grew by one, wrapping; the random kind its refilled buffer; the
    /// region-structured kind the encoded `(region, sequence)` pair of
    /// the item being produced.
    pub fn next(&mut self) -> (r: Option<Vec<u8>>)
        requires
            old(self).wf(),
        ensures
            final(self).wf(),
            old(self).remaining() == 0 ==> r is None && final(self).remaining() == 0,
            old(self).remaining() > 0 ==> r is Some && final(self).remaining() == old(
                self,
            ).remaining() - 1,
            *old(self) matches KeyGenKind::Repeat(g) ==> (*final(self) matches KeyGenKind::Repeat(
                g2,
            ) && g2.key == g.key && g2.cnt == final(self).remaining() && (g.cnt > 0 ==> (r
                matches Some(k) && k@ == g.key@))),
            *old(self) matches KeyGenKind::Increase(g) ==> (*final(self)
                matches KeyGenKind::Increase(g2) && g2.key@.len() == g.key@.len() && (g.cnt > 0
                ==> (r matches Some(k) && k@ == g2.key@ && be_val(g2.key@) == (be_val(g.key@) + 1)
                % pow256(g.key@.len()))) && (g.cnt == 0 ==> g2.key == g.key)),
            *old(self) matches KeyGenKind::Random(g) ==> (*final(self) matches KeyGenKind::Random(
                g2,
            ) && g2.key@.len() == g.key@.len() && (g.cnt > 0 ==> (r matches Some(k) && k@
                == g2.key@))),
            *old(self) matches KeyGenKind::Raft(g) ==> (*final(self) matches KeyGenKind::Raft(g2)
                && g2.total == g.total && g2.region_num == g.region_num && (g.cnt > 0 ==> (r
                matches Some(k) && k@ == g2.key@ && g2.key@ == spec_raft_key(
                (((g.total - g.cnt) as int) % (g.region_num as int)) as u64,
                (((g.total - g.cnt) as int) / (g.region_num as int)) as u64,
            ))) && (g.cnt == 0 ==> g2.key == g.key)),
    {
        match self {
            KeyGenKind::Repeat(g) => g.next(),
            KeyGenKind::Increase(g) => g.next(),
            KeyGenKind::Random(g) => g.next(),
            KeyGenKind::Raft(g) => g.next(),
        }
    }
}

/// Select a key generator by its configured name: `repeat`, `increase`,
/// `random`, or `raft`.  The generator is built with a `key_len`-byte
/// buffer and `count` keys to produce; the region-structured kind
/// spreads them over `region_num` regions.  Any other name is an
/// unrecognized enumerated value.
pub fn key_type(key_gen: &str, key_len: usize, count: usize, region_num: usize) -> (r: Result<
    KeyGenKind,
    ConfigError,
>)
    requires
        key_gen@ == "raft"@ ==> region_num >= 1,
    ensures
        key_gen@ == "repeat"@ ==> (r matches Ok(g) && g is Repeat),
        key_gen@ == "increase"@ ==> (r matches Ok(KeyGenKind::Increase(gen)) && gen.key@
            == zeros_seq(key_len as nat)),
        key_gen@ == "random"@ ==> (r matches Ok(g) && g is Random),
        key_gen@ == "raft"@ ==> (r matches Ok(KeyGenKind::Raft(gen)) && gen.total == count
            && gen.region_num == region_num),
        r matches Ok(g) ==> g.wf() && g.remaining() == count && g.key_len() == key_len,
        !(key_gen@ == "repeat"@ || key_gen@ == "increase"@ || key_gen@ == "random"@ || key_gen@
            == "raft"@) ==> (r matches Err(e) && e@ == crate::config::SpecConfigError::InvalidEnum(
            key_gen@,
        )),
{
    proof {
        reveal_strlit("repeat");
        reveal_strlit("increase");
        reveal_strlit("random");
        reveal_strlit("raft");
        assert("repeat"@.len() == 6);
        assert("increase"@.len() == 8);
        assert("random"@.len() == 6);
        assert("raft"@.len() == 4);
        assert("repeat"@[1] == 'e' && "random"@[1] == 'a');
        assert("repeat"@ != "increase"@);
        assert("repeat"@ != "random"@);
        assert("repeat"@ != "raft"@);
        assert("increase"@ != "random"@);
        assert("increase"@ != "raft"@);
        assert("random"@ != "raft"@);
    }
    let name = key_gen.to_owned();
    if name.eq(&"repeat".to_owned()) {
        Ok(KeyGenKind::Repeat(RepeatKeyGen::new(key_len, count)))
    } else if name.eq(&"increase".to_owned()) {
        Ok(KeyGenKind::Increase(IncreaseKeyGen::new(key_len, count)))
    } else if name.eq(&"random".to_owned()) {
        Ok(KeyGenKind::Random(RandomKeyGen::new(key_len, count)))
    } else if name.eq(&"raft".to_owned()) {
        Ok(KeyGenKind::Raft(SeqKeyGen::new(key_len, count, region_num)))
    } else {
        Err(ConfigError::InvalidEnum(name))
    }
}

} // verus!

