//! The functions of a locomotive, and the groups in which they are switched.
use vstd::prelude::*;

verus! {

/// Whether bit `i` of a 16-bit word is set.
pub open spec fn bit16(word: u16, i: int) -> bool {
    (word >> (i as u16)) & 1 == 1
}

/// Represents the state of function groups: one bit per function, set while it is on.
#[derive(Debug, Clone, Copy, PartialEq, Eq, PartialOrd, Ord, Hash, Structural)]
pub struct FunctionGroupFlags {
    pub bits: u16,
}

impl FunctionGroupFlags {
    /// Whether the function at bit `i` is on.
    pub open spec fn has(self, i: int) -> bool {
        bit16(self.bits, i)
    }

    /// No function is on.
    pub fn empty() -> (r: FunctionGroupFlags)
        ensures
            r.bits == 0,
    {
        FunctionGroupFlags { bits: 0 }
    }

    /// The underlying bits.
    pub fn bits(&self) -> (r: u16)
        ensures
            r == self.bits,
    {
        self.bits
    }

    /// The functions that are on in either.
    pub open spec fn spec_union(self, other: FunctionGroupFlags) -> FunctionGroupFlags {
        FunctionGroupFlags { bits: self.bits | other.bits }
    }

    /// The functions that are on in either.
    #[verifier::when_used_as_spec(spec_union)]
    pub fn union(self, other: FunctionGroupFlags) -> (r: FunctionGroupFlags)
        ensures
            r == self.spec_union(other),
    {
        FunctionGroupFlags { bits: self.bits | other.bits }
    }

    /// The functions that are on in both.
    pub open spec fn spec_intersection(self, other: FunctionGroupFlags) -> FunctionGroupFlags {
        FunctionGroupFlags { bits: self.bits & other.bits }
    }

    /// The functions that are on in both.
    #[verifier::when_used_as_spec(spec_intersection)]
    pub fn intersection(self, other: FunctionGroupFlags) -> (r: FunctionGroupFlags)
        ensures
            r == self.spec_intersection(other),
    {
        FunctionGroupFlags { bits: self.bits & other.bits }
    }

    /// The functions that are on here and off in `other`.
    pub open spec fn spec_difference(self, other: FunctionGroupFlags) -> FunctionGroupFlags {
        FunctionGroupFlags { bits: self.bits & !other.bits }
    }

    /// The functions that are on here and off in `other`.
    #[verifier::when_used_as_spec(spec_difference)]
    pub fn difference(self, other: FunctionGroupFlags) -> (r: FunctionGroupFlags)
        ensures
            r == self.spec_difference(other),
    {
        FunctionGroupFlags { bits: self.bits & !other.bits }
    }

    /// Whether every function that is on in `other` is on here.
    pub open spec fn spec_contains(&self, other: FunctionGroupFlags) -> bool {
        self.bits & other.bits == other.bits
    }

    /// Whether every function that is on in `other` is on here.
    #[verifier::when_used_as_spec(spec_contains)]
    pub fn contains(&self, other: FunctionGroupFlags) -> (r: bool)
        ensures
            r == self.spec_contains(other),
    {
        self.bits & other.bits == other.bits
    }

    /// What is on in a combination of two states, function by function; and one state contains the
    /// other exactly if nothing of the other is left without it.
    pub proof fn combinations_per_function(a: FunctionGroupFlags, b: FunctionGroupFlags, i: u16)
        requires
            i < 16,
        ensures
            ({
                let on = |flags: FunctionGroupFlags| (flags.bits >> i) & 1 == 1;
                &&& on(a.union(b)) <==> on(a) || on(b)
                &&& on(a.intersection(b)) <==> on(a) && on(b)
                &&& on(a.difference(b)) <==> on(a) && !on(b)
                &&& a.contains(b) ==> on(b) ==> on(a)
            }),
            a.contains(b) <==> b.difference(a).bits == 0,
    {
        let (x, y) = (a.bits, b.bits);
        assert({
            &&& ((x | y) >> i) & 1 == 1 <==> (x >> i) & 1 == 1 || (y >> i) & 1 == 1
            &&& ((x & y) >> i) & 1 == 1 <==> (x >> i) & 1 == 1 && (y >> i) & 1 == 1
            &&& ((x & !y) >> i) & 1 == 1 <==> (x >> i) & 1 == 1 && (y >> i) & 1 != 1
            &&& x & y == y ==> (y >> i) & 1 == 1 ==> (x >> i) & 1 == 1
            &&& x & y == y <==> y & !x == 0
        }) by (bit_vector)
            requires
                i < 16,
        ;
    }

    /// Only function 1.
    pub fn f1() -> (r: FunctionGroupFlags)
        ensures
            r.bits == 0x0001,
    {
        FunctionGroupFlags { bits: 0x0001 }
    }

    /// Only function 2.
    pub fn f2() -> (r: FunctionGroupFlags)
        ensures
            r.bits == 0x0002,
    {
        FunctionGroupFlags { bits: 0x0002 }
    }

    /// Only function 3.
    pub fn f3() -> (r: FunctionGroupFlags)
        ensures
            r.bits == 0x0004,
    {
        FunctionGroupFlags { bits: 0x0004 }
    }

    /// Only function 4.
    pub fn f4() -> (r: FunctionGroupFlags)
        ensures
            r.bits == 0x0008,
    {
        FunctionGroupFlags { bits: 0x0008 }
    }

    /// Only the headlights.
    pub fn fl() -> (r: FunctionGroupFlags)
        ensures
            r.bits == 0x0010,
    {
        FunctionGroupFlags { bits: 0x0010 }
    }

    /// Only function 5.
    pub fn f5() -> (r: FunctionGroupFlags)
        ensures
            r.bits == 0x0020,
    {
        FunctionGroupFlags { bits: 0x0020 }
    }

    /// Only function 6.
    pub fn f6() -> (r: FunctionGroupFlags)
        ensures
            r.bits == 0x0040,
    {
        FunctionGroupFlags { bits: 0x0040 }
    }

    /// Only function 7.
    pub fn f7() -> (r: FunctionGroupFlags)
        ensures
            r.bits == 0x0080,
    {
        FunctionGroupFlags { bits: 0x0080 }
    }

    /// Only function 8.
    pub fn f8() -> (r: FunctionGroupFlags)
        ensures
            r.bits == 0x0100,
    {
        FunctionGroupFlags { bits: 0x0100 }
    }

    /// Only function 9.
    pub fn f9() -> (r: FunctionGroupFlags)
        ensures
            r.bits == 0x0200,
    {
        FunctionGroupFlags { bits: 0x0200 }
    }

    /// Only function 10.
    pub fn f10() -> (r: FunctionGroupFlags)
        ensures
            r.bits == 0x0400,
    {
        FunctionGroupFlags { bits: 0x0400 }
    }

    /// Only function 11.
    pub fn f11() -> (r: FunctionGroupFlags)
        ensures
            r.bits == 0x0800,
    {
        FunctionGroupFlags { bits: 0x0800 }
    }

    /// Only function 12.
    pub fn f12() -> (r: FunctionGroupFlags)
        ensures
            r.bits == 0x1000,
    {
        FunctionGroupFlags { bits: 0x1000 }
    }

    /// Functions in group 1: F1 to F4 and FL.
    pub fn fg_1() -> (r: FunctionGroupFlags)
        ensures
            r.bits == 0x001f,
    {
        FunctionGroupFlags { bits: 0x001f }
    }

    /// Functions in group 2 where the selecting bit is 0: F9 to F12.
    pub fn fg_2_0() -> (r: FunctionGroupFlags)
        ensures
            r.bits == 0x1e00,
    {
        FunctionGroupFlags { bits: 0x1e00 }
    }

    /// Functions in group 2 where the selecting bit is 1: F5 to F8.
    pub fn fg_2_1() -> (r: FunctionGroupFlags)
        ensures
            r.bits == 0x01e0,
    {
        FunctionGroupFlags { bits: 0x01e0 }
    }
}

/// A request to switch the functions of one group.
#[derive(Debug, Clone, Copy, PartialEq, Eq, Structural)]
pub struct FunctionGroup {
    /// Flags that are present in the current group
    pub group_mask: FunctionGroupFlags,
    /// Value of the flags
    pub flags: FunctionGroupFlags,
}

impl FunctionGroup {
    /// Only functions of the group are on.
    pub open spec fn wf(self) -> bool {
        self.flags.bits & !self.group_mask.bits == 0
    }

    /// The state of the functions after the request, if their state before it was `other`.
    pub open spec fn applied(self, other: FunctionGroupFlags) -> FunctionGroupFlags {
        FunctionGroupFlags { bits: (other.bits & !self.group_mask.bits) | self.flags.bits }
    }

    /// A request for the functions in `group_mask`; flags outside of the group are dropped.
    pub fn new(group_mask: FunctionGroupFlags, flags: FunctionGroupFlags) -> (r: FunctionGroup)
        ensures
            r.group_mask == group_mask,
            r.flags.bits == flags.bits & group_mask.bits,
            r.wf(),
    {
        let ghost (f, m) = (flags.bits, group_mask.bits);
        assert((f & m) & !m == 0) by (bit_vector);
        FunctionGroup { group_mask, flags: flags.intersection(group_mask) }
    }

    /// Calculates the union between the other flags and these flags, taking into account the
    /// group mask.
    pub fn union_with_mask(&self, other: FunctionGroupFlags) -> (r: FunctionGroupFlags)
        ensures
            r == self.applied(other),
    {
        other.difference(self.group_mask).union(self.flags)
    }

    /// A request switches each function of its group as it says, and leaves the functions of
    /// the other groups as they were.
    pub proof fn applied_per_function(self, other: FunctionGroupFlags, i: int)
        requires
            self.wf(),
            0 <= i < 16,
        ensures
            self.applied(other).has(i) == (if self.group_mask.has(i) {
                self.flags.has(i)
            } else {
                other.has(i)
            }),
    {
        let (f, m, o, k) = (self.flags.bits, self.group_mask.bits, other.bits, i as u16);
        assert((((o & !m) | f) >> k) & 1 == (if (m >> k) & 1 == 1 {
            (f >> k) & 1
        } else {
            (o >> k) & 1
        })) by (bit_vector)
            requires
                f & !m == 0,
                k < 16,
        ;
        assert((f >> k) & 1 == 0 || (f >> k) & 1 == 1) by (bit_vector);
    }

    /// A request that is repeated changes nothing more.
    pub proof fn applied_twice(self, other: FunctionGroupFlags)
        ensures
            self.applied(self.applied(other)) == self.applied(other),
    {
        let (f, m, o) = (self.flags.bits, self.group_mask.bits, other.bits);
        assert(((((o & !m) | f) & !m) | f) == ((o & !m) | f)) by (bit_vector);
    }

    /// Requests for groups that have no function in common can be exchanged.
    pub proof fn disjoint_groups_commute(
        a: FunctionGroup,
        b: FunctionGroup,
        other: FunctionGroupFlags,
    )
        requires
            a.wf(),
            b.wf(),
            a.group_mask.bits & b.group_mask.bits == 0,
        ensures
            a.applied(b.applied(other)) == b.applied(a.applied(other)),
    {
        let (f, m, g, n, o) = (
            a.flags.bits,
            a.group_mask.bits,
            b.flags.bits,
            b.group_mask.bits,
            other.bits,
        );
        assert(((((o & !n) | g) & !m) | f) == ((((o & !m) | f) & !n) | g)) by (bit_vector)
            requires
                f & !m == 0,
                g & !n == 0,
                m & n == 0,
        ;
    }
}

} // verus!
