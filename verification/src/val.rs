//! Value generators: stateful producers of value byte sequences.
//!
//! Unlike key generators, value generators never exhaust: every call to
//! `next` yields a value.  The variants repeat one random buffer or draw
//! fresh pseudo-random bytes on every call.

use vstd::prelude::*;

use crate::config::ConfigError;
use crate::key::{zeroed, copy_bytes, fill_with_entropy, fill_from_rng, seeded_rng, RNG_SEED};

verus! {

/// A producer of value byte sequences: each call to `next` yields the
/// next value; value generators never exhaust.
pub trait ValGen: Sized {
    /// The generator's internal validity.
    spec fn wf(&self) -> bool;

    /// The length of the values the generator produces.
    spec fn val_len(&self) -> nat;

    /// Produce the next value, always of the generator's value length.
    fn next(&mut self) -> (r: Option<Vec<u8>>)
        requires
            old(self).wf(),
        ensures
            final(self).wf(),
            final(self).val_len() == old(self).val_len(),
            r matches Some(v) && v@.len() == final(self).val_len(),
    ;
}

/// Repeats one fixed random buffer forever.
pub struct RepeatValGen {
    pub val: Vec<u8>,
}

impl RepeatValGen {
    /// A generator yielding the same random `len`-byte value forever.
    pub fn new(len: usize) -> (r: RepeatValGen)
        ensures
            r.val@.len() == len,
    {
        let mut val = zeroed(len);
        fill_with_entropy(&mut val);
        RepeatValGen { val }
    }
}

impl ValGen for RepeatValGen {
    open spec fn wf(&self) -> bool {
        true
    }

    open spec fn val_len(&self) -> nat {
        self.val@.len()
    }

    fn next(&mut self) -> (r: Option<Vec<u8>>)
        ensures
            final(self).val == old(self).val,
            r matches Some(v) && v@ == old(self).val@,
    {
        Some(copy_bytes(&self.val))
    }
}

/// Draws a fresh pseudo-random buffer on every call, from a stream
/// seeded with a fixed value.
pub struct RandValGen {
    pub val: Vec<u8>,
    pub rand: rand::rngs::StdRng,
}

impl RandValGen {
    /// A generator yielding fresh pseudo-random `len`-byte values.
    pub fn new(len: usize) -> (r: RandValGen)
        ensures
            r.val@.len() == len,
    {
        RandValGen { val: zeroed(len), rand: seeded_rng(RNG_SEED) }
    }
}

impl ValGen for RandValGen {
    open spec fn wf(&self) -> bool {
        true
    }

    open spec fn val_len(&self) -> nat {
        self.val@.len()
    }

    fn next(&mut self) -> (r: Option<Vec<u8>>)
        ensures
            final(self).val@.len() == old(self).val@.len(),
            r matches Some(v) && v@ == final(self).val@,
    {
        fill_from_rng(&mut self.rand, &mut self.val);
        Some(copy_bytes(&self.val))
    }
}

/// One value generator of either kind, selected by its configured name.
pub enum ValGenKind {
    Repeat(RepeatValGen),
    Rand(RandValGen),
}

impl ValGenKind {
    /// The generator's internal validity.
    pub open spec fn wf(&self) -> bool {
        match self {
            ValGenKind::Repeat(g) => g.wf(),
            ValGenKind::Rand(g) => g.wf(),
        }
    }

    /// The length of the values the generator produces.
    pub open spec fn val_len(&self) -> nat {
        match self {
            ValGenKind::Repeat(g) => g.val@.len(),
            ValGenKind::Rand(g) => g.val@.len(),
        }
    }

    /// Produce the next value; value generators never exhaust.  A
    /// repeating generator hands out its stored buffer unchanged; a
    /// random one hands out its freshly refilled buffer, of the same
    /// length as before.
    pub fn next(&mut self) -> (r: Option<Vec<u8>>)
        requires
            old(self).wf(),
        ensures
            final(self).wf(),
            final(self).val_len() == old(self).val_len(),
            r matches Some(v) && v@.len() == final(self).val_len(),
            *old(self) matches ValGenKind::Repeat(g) ==> (*final(self) == *old(self) && (r
                matches Some(v) && v@ == g.val@)),
            *old(self) matches ValGenKind::Rand(g) ==> (*final(self) matches ValGenKind::Rand(g2)
                && g2.val@.len() == g.val@.len() && (r matches Some(v) && v@ == g2.val@)),
    {
        match self {
            ValGenKind::Repeat(g) => g.next(),
            ValGenKind::Rand(g) => g.next(),
        }
    }
}

/// Select a value generator by its configured name: `const` or `random`.
/// The generator is built to produce `val_len`-byte values.  Any other
/// name is an unrecognized enumerated value.
pub fn value_type(val_gen: &str, val_len: usize) -> (r: Result<ValGenKind, ConfigError>)
    ensures
        val_gen@ == "const"@ ==> (r matches Ok(g) && g is Repeat),
        val_gen@ == "random"@ ==> (r matches Ok(g) && g is Rand),
        r matches Ok(g) ==> g.wf() && g.val_len() == val_len,
        !(val_gen@ == "const"@ || val_gen@ == "random"@) ==> (r matches Err(e) && e@
            == crate::config::SpecConfigError::InvalidEnum(val_gen@)),
{
    proof {
        reveal_strlit("const");
        reveal_strlit("random");
        assert("const"@.len() == 5);
        assert("random"@.len() == 6);
        assert("const"@ != "random"@);
    }
    let name = val_gen.to_owned();
    if name.eq(&"const".to_owned()) {
        Ok(ValGenKind::Repeat(RepeatValGen::new(val_len)))
    } else if name.eq(&"random".to_owned()) {
        Ok(ValGenKind::Rand(RandValGen::new(val_len)))
    } else {
        Err(ConfigError::InvalidEnum(name))
    }
}

} // verus!
