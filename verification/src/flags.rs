//! Flags that control how a command is dispatched to the segments.

use vstd::prelude::*;

verus! {

/// Value of the flag that cancels the other segments if one fails.
pub const DF_CANCEL_ON_ERROR: i32 = 0x1;

/// Value of the flag that asks for a global transaction.
pub const DF_NEED_TWO_PHASE: i32 = 0x2;

/// Value of the flag that sends a snapshot along.
pub const DF_WITH_SNAPSHOT: i32 = 0x4;

/// Dispatch flags for `CdbDispatchCommand`
///
/// These flags correspond to the constants defined in Cloudberry's
/// `src/include/cdb/cdbdisp_query.h` and control various aspects
/// of command dispatching behavior.
#[derive(Debug, Clone, Copy, PartialEq, Eq, Structural)]
pub struct DispatchFlags(pub i32);

impl View for DispatchFlags {
    type V = i32;

    open spec fn view(&self) -> i32 {
        self.0
    }
}

impl DispatchFlags {
    /// Every bit of `flag` is set in `self`.
    pub open spec fn has(self, flag: Self) -> bool {
        self@ & flag@ == flag@
    }

    /// The flags that are set in `self` or in `other`.
    pub open spec fn joined(self, other: Self) -> Self {
        DispatchFlags(self@ | other@)
    }

    /// `self` is one of the three flags that have a name.
    pub open spec fn is_named(self) -> bool {
        self@ == DF_CANCEL_ON_ERROR || self@ == DF_NEED_TWO_PHASE || self@ == DF_WITH_SNAPSHOT
    }

    /// No special flags
    #[allow(non_snake_case)]
    pub fn NONE() -> (flags: Self)
        ensures
            flags@ == 0x0,
    {
        DispatchFlags(0x0)
    }

    /// Cancel other segments if one fails
    ///
    /// Indicates whether an error occurring on one of the segment databases should
    /// cause all still-executing commands to cancel on other segments.
    /// Normally this would be true.
    #[allow(non_snake_case)]
    pub fn CANCEL_ON_ERROR() -> (flags: Self)
        ensures
            flags@ == DF_CANCEL_ON_ERROR,
    {
        DispatchFlags(DF_CANCEL_ON_ERROR)
    }

    /// Execute within a global transaction
    ///
    /// Indicates whether the command to be dispatched should be done inside
    /// of a global transaction.
    #[allow(non_snake_case)]
    pub fn NEED_TWO_PHASE() -> (flags: Self)
        ensures
            flags@ == DF_NEED_TWO_PHASE,
    {
        DispatchFlags(DF_NEED_TWO_PHASE)
    }

    /// Dispatch with a snapshot
    ///
    /// Indicates whether the command should be dispatched to segments along
    /// with a snapshot.
    #[allow(non_snake_case)]
    pub fn WITH_SNAPSHOT() -> (flags: Self)
        ensures
            flags@ == DF_WITH_SNAPSHOT,
    {
        DispatchFlags(DF_WITH_SNAPSHOT)
    }

    /// Create a new DispatchFlags with custom value
    pub fn new(value: i32) -> (flags: Self)
        ensures
            flags@ == value,
    {
        DispatchFlags(value)
    }

    /// Get the raw flag value
    pub fn value(self) -> (value: i32)
        ensures
            value == self@,
    {
        self.0
    }

    /// Check if a flag is set
    pub fn contains(self, flag: Self) -> (set: bool)
        ensures
            set == self.has(flag),
    {
        (self.0 & flag.0) == flag.0
    }

    /// Combine flags using bitwise OR
    pub fn union(self, other: Self) -> (both: Self)
        ensures
            both == self.joined(other),
    {
        DispatchFlags(self.0 | other.0)
    }
}

impl core::ops::BitOr for DispatchFlags {
    type Output = Self;

    fn bitor(self, rhs: Self) -> (both: Self) {
        self.union(rhs)
    }
}

impl vstd::std_specs::ops::BitOrSpecImpl for DispatchFlags {
    open spec fn obeys_bitor_spec() -> bool {
        true
    }

    open spec fn bitor_req(self, rhs: Self) -> bool {
        true
    }

    open spec fn bitor_spec(self, rhs: Self) -> Self {
        self.joined(rhs)
    }
}

impl core::ops::BitOrAssign for DispatchFlags {
    fn bitor_assign(&mut self, rhs: Self)
        ensures
            *final(self) == old(self).joined(rhs),
            final(self).0 == old(self).0 | rhs.0,
    {
        *self = *self | rhs;
    }
}

impl From<i32> for DispatchFlags {
    fn from(value: i32) -> (flags: Self) {
        DispatchFlags(value)
    }
}

impl vstd::std_specs::convert::FromSpecImpl<i32> for DispatchFlags {
    open spec fn obeys_from_spec() -> bool {
        true
    }

    open spec fn from_spec(value: i32) -> Self {
        DispatchFlags(value)
    }
}

impl From<DispatchFlags> for i32 {
    fn from(flags: DispatchFlags) -> (value: i32) {
        flags.0
    }
}

impl vstd::std_specs::convert::FromSpecImpl<DispatchFlags> for i32 {
    open spec fn obeys_from_spec() -> bool {
        true
    }

    open spec fn from_spec(flags: DispatchFlags) -> i32 {
        flags@
    }
}

/// A union contains exactly what must be in it: both of its operands, whatever one of
/// them contains, and nothing that a set containing both operands would lack.
pub proof fn law_union_is_least_upper_bound(a: DispatchFlags, b: DispatchFlags, c: DispatchFlags)
    ensures
        a.joined(b).has(a),
        a.joined(b).has(b),
        a.has(c) || b.has(c) ==> a.joined(b).has(c),
        c.has(a) && c.has(b) <==> c.has(a.joined(b)),
{
    let (x, y, z) = (a@, b@, c@);
    assert((x | y) & x == x) by (bit_vector);
    assert((x | y) & y == y) by (bit_vector);
    assert((x & z == z || y & z == z) ==> (x | y) & z == z) by (bit_vector);
    assert((z & x == x && z & y == y) <==> (z & (x | y) == (x | y))) by (bit_vector);
}

/// Combining flags does not depend on order, grouping or repetition, and combining with
/// no flags changes nothing.
pub proof fn law_union_algebra(a: DispatchFlags, b: DispatchFlags, c: DispatchFlags)
    ensures
        a.joined(b) == b.joined(a),
        a.joined(b).joined(c) == a.joined(b.joined(c)),
        a.joined(a) == a,
        a.joined(DispatchFlags(0)) == a,
{
    let (x, y, z) = (a@, b@, c@);
    assert(x | y == y | x) by (bit_vector);
    assert((x | y) | z == x | (y | z)) by (bit_vector);
    assert(x | x == x) by (bit_vector);
    assert(x | 0 == x) by (bit_vector);
}

/// Containment is a partial order on flags with the empty flags at its bottom.
pub proof fn law_contains_is_partial_order(a: DispatchFlags, b: DispatchFlags, c: DispatchFlags)
    ensures
        a.has(a),
        a.has(DispatchFlags(0)),
        a.has(b) && b.has(c) ==> a.has(c),
        a.has(b) && b.has(a) ==> a == b,
{
    let (x, y, z) = (a@, b@, c@);
    assert(x & x == x) by (bit_vector);
    assert(x & 0 == 0) by (bit_vector);
    assert((x & y == y && y & z == z) ==> x & z == z) by (bit_vector);
    assert((x & y == y && y & x == x) ==> x == y) by (bit_vector);
}

/// A named flag is in a union exactly if it is in one of the operands, and a named flag
/// contains no other named flag.
pub proof fn law_named_flags_are_independent(a: DispatchFlags, b: DispatchFlags, f: DispatchFlags)
    requires
        f.is_named(),
    ensures
        a.joined(b).has(f) <==> a.has(f) || b.has(f),
        a.is_named() && a.has(f) ==> a == f,
        !DispatchFlags(0).has(f),
{
    let (x, y, z) = (a@, b@, f@);
    assert((z == 1 || z == 2 || z == 4) ==> ((x | y) & z == z <==> (x & z == z || y & z == z)))
        by (bit_vector);
    assert(((x == 1 || x == 2 || x == 4) && (z == 1 || z == 2 || z == 4) && x & z == z) ==> x == z)
        by (bit_vector);
    assert((z == 1 || z == 2 || z == 4) ==> 0 & z != z) by (bit_vector);
}

/// Flags survive the way to an integer and back, and so does an integer the other way.
pub proof fn law_integer_round_trip(value: i32, flags: DispatchFlags)
    ensures
        <i32 as vstd::std_specs::convert::FromSpec<DispatchFlags>>::from_spec(
            <DispatchFlags as vstd::std_specs::convert::FromSpec<i32>>::from_spec(value),
        ) == value,
        <DispatchFlags as vstd::std_specs::convert::FromSpec<i32>>::from_spec(
            <i32 as vstd::std_specs::convert::FromSpec<DispatchFlags>>::from_spec(flags),
        ) == flags,
{
}

} // verus!
