//! Attribute flags of a virtual-memory mapping on AArch64.

use vstd::prelude::*;

verus! {

pub const NONE: u64 = 0;

pub const PAGE_CACHEABLE: u64 = 1;

pub const PARITY_ENABLED: u64 = 2;

/// The attributes of a mapping made without a stated choice: cacheable, with
/// parity checking.
pub const DEFAULT: u64 = 3;

pub const EXECUTE_NEVER: u64 = 4;

/// A set of mapping attributes, one bit per attribute.
#[derive(Debug, Copy, Clone, PartialEq, Eq, Structural)]
pub struct VMAttributes(pub u64);

impl VMAttributes {
    /// No attribute.
    pub fn none() -> (r: Self)
        ensures
            r.0 == NONE,
    {
        VMAttributes(NONE)
    }

    /// The mapping may be cached.
    pub fn page_cacheable() -> (r: Self)
        ensures
            r.0 == PAGE_CACHEABLE,
    {
        VMAttributes(PAGE_CACHEABLE)
    }

    /// Parity checking is on.
    pub fn parity_enabled() -> (r: Self)
        ensures
            r.0 == PARITY_ENABLED,
    {
        VMAttributes(PARITY_ENABLED)
    }

    /// Nothing in the mapping may be executed.
    pub fn execute_never() -> (r: Self)
        ensures
            r.0 == EXECUTE_NEVER,
    {
        VMAttributes(EXECUTE_NEVER)
    }

    pub fn from_inner(inner: u64) -> (r: Self)
        ensures
            r.0 == inner,
    {
        VMAttributes(inner)
    }

    pub fn into_inner(self) -> (r: u64)
        ensures
            r == self.0,
    {
        self.0
    }

    pub fn inner(&self) -> (r: &u64)
        ensures
            *r == self.0,
    {
        &self.0
    }

    pub fn inner_mut(&mut self) -> (r: &mut u64)
        ensures
            *r == old(self).0,
            final(self).0 == *final(r),
    {
        &mut self.0
    }

    /// Whether `self` and `rhs` have an attribute in common.
    pub fn has(self, rhs: Self) -> (r: bool)
        ensures
            r == (self.0 & rhs.0 != 0),
    {
        self.into_inner() & rhs.into_inner() != 0
    }
}

impl Default for VMAttributes {
    fn default() -> (r: Self)
        ensures
            r.0 == DEFAULT,
    {
        VMAttributes(DEFAULT)
    }
}

impl core::ops::Not for VMAttributes {
    type Output = Self;

    fn not(self) -> (r: Self)
        ensures
            r.0 == !self.0,
    {
        Self::from_inner(!self.into_inner())
    }
}

impl vstd::std_specs::ops::NotSpecImpl for VMAttributes {
    open spec fn obeys_not_spec() -> bool {
        true
    }

    open spec fn not_req(self) -> bool {
        true
    }

    open spec fn not_spec(self) -> Self {
        VMAttributes(!self.0)
    }
}

impl vstd::std_specs::ops::BitOrSpecImpl for VMAttributes {
    open spec fn obeys_bitor_spec() -> bool {
        true
    }

    open spec fn bitor_req(self, rhs: Self) -> bool {
        true
    }

    open spec fn bitor_spec(self, rhs: Self) -> Self {
        VMAttributes(self.0 | rhs.0)
    }
}

impl vstd::std_specs::ops::BitAndSpecImpl for VMAttributes {
    open spec fn obeys_bitand_spec() -> bool {
        true
    }

    open spec fn bitand_req(self, rhs: Self) -> bool {
        true
    }

    open spec fn bitand_spec(self, rhs: Self) -> Self {
        VMAttributes(self.0 & rhs.0)
    }
}

impl core::ops::BitOr for VMAttributes {
    type Output = Self;

    fn bitor(self, rhs: Self) -> (r: Self)
        ensures
            r.0 == self.0 | rhs.0,
    {
        Self::from_inner(self.into_inner() | rhs.into_inner())
    }
}

impl core::ops::BitAnd for VMAttributes {
    type Output = Self;

    fn bitand(self, rhs: Self) -> (r: Self)
        ensures
            r.0 == self.0 & rhs.0,
    {
        Self::from_inner(self.into_inner() & rhs.into_inner())
    }
}

impl core::ops::BitOrAssign for VMAttributes {
    fn bitor_assign(&mut self, rhs: Self)
        ensures
            final(self).0 == old(self).0 | rhs.0,
    {
        self.0 = self.0 | rhs.0;
    }
}

impl core::ops::BitAndAssign for VMAttributes {
    fn bitand_assign(&mut self, rhs: Self)
        ensures
            final(self).0 == old(self).0 & rhs.0,
    {
        self.0 = self.0 & rhs.0;
    }
}

/// Two sets have an attribute in common whichever is asked first, and no set
/// has one in common with the empty set.
pub proof fn lemma_has_is_symmetric(a: VMAttributes, b: VMAttributes)
    ensures
        (a.0 & b.0 != 0) == (b.0 & a.0 != 0),
        !(a.0 & NONE != 0),
{
    let x = a.0;
    let y = b.0;
    assert((x & y != 0) == (y & x != 0) && !(x & 0 != 0)) by (bit_vector);
}

/// A union has an attribute in common with `c` exactly when one of its two
/// parts has.
pub proof fn lemma_union_has(a: VMAttributes, b: VMAttributes, c: VMAttributes)
    ensures
        ((a.0 | b.0) & c.0 != 0) == (a.0 & c.0 != 0 || b.0 & c.0 != 0),
{
    let x = a.0;
    let y = b.0;
    let z = c.0;
    assert(((x | y) & z != 0) == (x & z != 0 || y & z != 0)) by (bit_vector);
}

/// The default attributes are the cacheable and the parity attribute, and not
/// the execute-never attribute.
pub proof fn lemma_default_attributes()
    ensures
        DEFAULT == PAGE_CACHEABLE | PARITY_ENABLED,
        DEFAULT & EXECUTE_NEVER == 0,
{
    assert(3u64 == 1u64 | 2u64 && 3u64 & 4u64 == 0) by (bit_vector);
}

} // verus!
