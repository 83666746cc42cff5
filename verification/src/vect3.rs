//! The 3-component vector type.
//!
//! Components are binary32 bit patterns, as in the planar type; the
//! operation set is the same, extended to three components. The two
//! types are independent of one another.

use vstd::prelude::*;

use crate::fbits;
use crate::fbits::{float_eq_bits, is_finite_bits, is_zero_bits};
use crate::widen;
use crate::widen::is_widened;

verus! {

/// A vector in 3-space; each field holds the 32-bit pattern of an
/// IEEE-754 binary32 component.
#[derive(Clone, Copy, Debug, Hash)]
pub struct Vect3 {
    pub x: u32,
    pub y: u32,
    pub z: u32,
}

impl Vect3 {
    /// Structural equality: IEEE equality of each component, so NaN
    /// components compare unequal and the two zeros compare equal.
    pub open spec fn spec_eq(self, other: Vect3) -> bool {
        float_eq_bits(self.x, other.x) && float_eq_bits(self.y, other.y) && float_eq_bits(
            self.z,
            other.z,
        )
    }

    /// Every component is finite. This is the condition the checked
    /// operations guard in development builds.
    pub open spec fn spec_finite(self) -> bool {
        is_finite_bits(self.x) && is_finite_bits(self.y) && is_finite_bits(self.z)
    }

    /// Every component is a zero, of either sign.
    pub open spec fn spec_zero(self) -> bool {
        is_zero_bits(self.x) && is_zero_bits(self.y) && is_zero_bits(self.z)
    }

    /// The components in index order.
    pub open spec fn spec_components(self) -> Seq<u32> {
        seq![self.x, self.y, self.z]
    }

    /// The vector a 3-element component sequence denotes.
    pub open spec fn spec_from_seq(s: Seq<u32>) -> Vect3
        recommends
            s.len() == 3,
    {
        Vect3 { x: s[0], y: s[1], z: s[2] }
    }

    /// Construction from three component patterns.
    pub fn new(x: u32, y: u32, z: u32) -> (v: Vect3)
        ensures
            v.x == x,
            v.y == y,
            v.z == z,
    {
        Vect3 { x, y, z }
    }

    /// Exact test of every component against zero, with no epsilon;
    /// `-0.0` counts as zero, as IEEE comparison has it.
    pub fn is_zero(&self) -> (r: bool)
        ensures
            r == self.spec_zero(),
    {
        fbits::is_zero_value(self.x) && fbits::is_zero_value(self.y) && fbits::is_zero_value(
            self.z,
        )
    }

    /// Whether every component is finite: the development-build guard
    /// condition of the checked operations.
    pub fn is_finite(&self) -> (r: bool)
        ensures
            r == self.spec_finite(),
    {
        fbits::is_finite(self.x) && fbits::is_finite(self.y) && fbits::is_finite(self.z)
    }

    /// Component by index: 0 is x, 1 is y, 2 is z. Any other index is
    /// out of range for this dimensionality: it is excluded by contract
    /// here, and a call from outside the contract aborts.
    pub fn index(&self, i: usize) -> (r: u32)
        requires
            i < 3,
        ensures
            r == self.spec_components()[i as int],
    {
        if i == 0 {
            self.x
        } else if i == 1 {
            self.y
        } else if i == 2 {
            self.z
        } else {
            vstd::pervasive::unreached()
        }
    }

    /// Mutable component by index, with the same bounds as `index`.
    pub fn index_mut(&mut self, i: usize) -> (r: &mut u32)
        requires
            i < 3,
        ensures
            *r == old(self).spec_components()[i as int],
            final(self).spec_components() =~= old(self).spec_components().update(
                i as int,
                *final(r),
            ),
    {
        if i == 0 {
            &mut self.x
        } else if i == 1 {
            &mut self.y
        } else if i == 2 {
            &mut self.z
        } else {
            vstd::pervasive::unreached()
        }
    }

    /// Conversion from a 3-element array of component patterns.
    pub fn from_array(a: [u32; 3]) -> (v: Vect3)
        ensures
            v == Vect3::spec_from_seq(a@),
            v.x == a@[0],
            v.y == a@[1],
            v.z == a@[2],
    {
        Vect3 { x: a[0], y: a[1], z: a[2] }
    }

    /// Conversion from a triple of component patterns.
    pub fn from_tuple(t: (u32, u32, u32)) -> (v: Vect3)
        ensures
            v.x == t.0,
            v.y == t.1,
            v.z == t.2,
    {
        Vect3 { x: t.0, y: t.1, z: t.2 }
    }

    /// Conversion from a 3-element integer array; each component is
    /// widened to binary32.
    pub fn from_array_i32(a: [i32; 3]) -> (v: Vect3)
        ensures
            is_widened(a@[0] as int, v.x),
            is_widened(a@[1] as int, v.y),
            is_widened(a@[2] as int, v.z),
    {
        Vect3 {
            x: widen::widen_i32(a[0]),
            y: widen::widen_i32(a[1]),
            z: widen::widen_i32(a[2]),
        }
    }

    /// Conversion from an integer triple; each component is widened to
    /// binary32.
    pub fn from_tuple_i32(t: (i32, i32, i32)) -> (v: Vect3)
        ensures
            is_widened(t.0 as int, v.x),
            is_widened(t.1 as int, v.y),
            is_widened(t.2 as int, v.z),
    {
        Vect3 {
            x: widen::widen_i32(t.0),
            y: widen::widen_i32(t.1),
            z: widen::widen_i32(t.2),
        }
    }

    /// Conversion back to a 3-element array of component patterns.
    pub fn into_array(self) -> (r: [u32; 3])
        ensures
            r@ == self.spec_components(),
    {
        let r: [u32; 3] = [self.x, self.y, self.z];
        proof {
            assert(r@ =~= self.spec_components());
        }
        r
    }

    /// Fallible conversion from a slice of component patterns:
    /// succeeds exactly when the slice length is 3, and fails with a
    /// message naming the expected length and element type otherwise.
    pub fn try_from_slice(s: &[u32]) -> (r: Result<Vect3, &'static str>)
        ensures
            r is Ok <==> s@.len() == 3,
            r matches Ok(v) ==> v.x == s@[0] && v.y == s@[1] && v.z == s@[2],
            r matches Err(m) ==> m@ == "Expected slice of length 3 for Vect3<f32>"@,
    {
        if s.len() == 3 {
            Ok(Vect3 { x: s[0], y: s[1], z: s[2] })
        } else {
            Err("Expected slice of length 3 for Vect3<f32>")
        }
    }

    /// Fallible conversion from an integer slice: succeeds exactly
    /// when the slice length is 3, widening each element to binary32,
    /// and fails with a message naming the expected length and element
    /// type otherwise.
    pub fn try_from_i32_slice(s: &[i32]) -> (r: Result<Vect3, &'static str>)
        ensures
            r is Ok <==> s@.len() == 3,
            r matches Ok(v) ==> is_widened(s@[0] as int, v.x) && is_widened(s@[1] as int, v.y)
                && is_widened(s@[2] as int, v.z),
            r matches Err(m) ==> m@ == "Expected slice of length 3 for Vect3<i32>"@,
    {
        if s.len() == 3 {
            Ok(
                Vect3 {
                    x: widen::widen_i32(s[0]),
                    y: widen::widen_i32(s[1]),
                    z: widen::widen_i32(s[2]),
                },
            )
        } else {
            Err("Expected slice of length 3 for Vect3<i32>")
        }
    }
}

impl PartialEq for Vect3 {
    fn eq(&self, other: &Vect3) -> (r: bool) {
        fbits::float_eq(self.x, other.x) && fbits::float_eq(self.y, other.y) && fbits::float_eq(
            self.z,
            other.z,
        )
    }
}

impl vstd::std_specs::cmp::PartialEqSpecImpl for Vect3 {
    open spec fn obeys_eq_spec() -> bool {
        true
    }

    open spec fn eq_spec(&self, other: &Vect3) -> bool {
        self.spec_eq(*other)
    }
}

impl Default for Vect3 {
    /// The zero vector: all components the positive zero pattern.
    fn default() -> (v: Vect3)
        ensures
            v.x == 0,
            v.y == 0,
            v.z == 0,
    {
        Vect3 { x: 0, y: 0, z: 0 }
    }
}

/// Building a vector from a 3-element component sequence and reading
/// its components back yields that sequence unchanged.
pub proof fn lemma_vect3_round_trip(s: Seq<u32>)
    requires
        s.len() == 3,
    ensures
        Vect3::spec_from_seq(s).spec_components() == s,
{
    assert(Vect3::spec_from_seq(s).spec_components() =~= s);
}

/// Reading a vector's components and building a vector from them
/// yields the vector unchanged.
pub proof fn lemma_vect3_rebuild(v: Vect3)
    ensures
        Vect3::spec_from_seq(v.spec_components()) == v,
{
}

/// Vectors that compare structurally equal hold identical bit patterns
/// in every component, except components that are the two zeros. A
/// hash over the component patterns therefore agrees with structural
/// equality on everything but `+0.0` against `-0.0`, the documented
/// asymmetry.
pub proof fn lemma_vect3_eq_same_bits(u: Vect3, v: Vect3)
    requires
        u.spec_eq(v),
    ensures
        u.x == v.x || (is_zero_bits(u.x) && is_zero_bits(v.x)),
        u.y == v.y || (is_zero_bits(u.y) && is_zero_bits(v.y)),
        u.z == v.z || (is_zero_bits(u.z) && is_zero_bits(v.z)),
{
}

} // verus!
