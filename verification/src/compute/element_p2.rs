//! The projective form in which the backend takes and returns the elements
//! of short Weierstrass curves, and its conversion from and to affine form.

use crate::compute::curve::{CurveId, SwCurveConfig};
use vstd::arithmetic::div_mod::{
    lemma_mul_mod_noop_left, lemma_mul_mod_noop_right, lemma_small_mod,
};
use vstd::arithmetic::mul::lemma_mul_is_associative;
use vstd::prelude::*;

verus! {

/// Projective form of a short Weierstrass curve element.
///
/// A point `(x, y, z)` represents the affine point `(x / z, y / z)`, or the
/// identity if `z == 0`.
#[derive(Clone, Copy, Debug, PartialEq, Eq)]
pub struct ElementP2<P: SwCurveConfig> {
    /// `(x, z)` maps to the affine coordinate `x / z`.
    pub x: P::BaseField,
    /// `(y, z)` maps to the affine coordinate `y / z`.
    pub y: P::BaseField,
    /// The divisor to convert to an affine point; zero for the identity.
    pub z: P::BaseField,
}

/// Affine form of a short Weierstrass curve element: its two coordinates, or
/// the identity, which has none and is marked by `infinity`.
#[derive(Clone, Copy, Debug, PartialEq, Eq)]
pub struct Affine<P: SwCurveConfig> {
    pub x: P::BaseField,
    pub y: P::BaseField,
    pub infinity: bool,
}

impl<P: SwCurveConfig> Affine<P> {
    /// The coordinates are canonical field elements, and both zero for the
    /// identity.
    pub open spec fn wf(&self) -> bool {
        &&& P::field_value(self.x) < P::modulus()
        &&& P::field_value(self.y) < P::modulus()
        &&& self.infinity ==> P::field_value(self.x) == 0 && P::field_value(self.y) == 0
    }
}

impl<P: SwCurveConfig> ElementP2<P> {
    /// The coordinates are canonical field elements.
    pub open spec fn wf(&self) -> bool {
        &&& P::field_value(self.x) < P::modulus()
        &&& P::field_value(self.y) < P::modulus()
        &&& P::field_value(self.z) < P::modulus()
    }

    /// The element stands for the affine point `pt`: the identity is told by
    /// its flag and keeps its coordinates, any other point gets the divisor
    /// one.
    pub open spec fn is_from(&self, pt: Affine<P>) -> bool {
        &&& self.x == pt.x
        &&& self.y == pt.y
        &&& P::field_value(self.z) == if pt.infinity {
            0nat
        } else {
            1nat
        }
    }

    /// The affine point `pt` is the one the element represents: the identity
    /// where the divisor is zero, and else the point whose coordinates times
    /// the divisor are the coordinates of the element.
    pub open spec fn represents(&self, pt: Affine<P>) -> bool {
        if P::field_value(self.z) == 0 {
            &&& pt.infinity
            &&& P::field_value(pt.x) == 0
            &&& P::field_value(pt.y) == 0
        } else {
            &&& !pt.infinity
            &&& P::field_value(pt.x) < P::modulus()
            &&& P::field_value(pt.y) < P::modulus()
            &&& (P::field_value(pt.x) * P::field_value(self.z)) % P::modulus() == P::field_value(
                self.x,
            )
            &&& (P::field_value(pt.y) * P::field_value(self.z)) % P::modulus() == P::field_value(
                self.y,
            )
        }
    }

    /// The element that the backend overwrites: all coordinates zero.
    pub fn zero() -> (e: Self)
        ensures
            P::field_value(e.x) == 0,
            P::field_value(e.y) == 0,
            P::field_value(e.z) == 0,
    {
        ElementP2 { x: P::zero(), y: P::zero(), z: P::zero() }
    }

    /// Whether the coordinates are canonical field elements: what
    /// [`Self::to_affine`] asks for.
    pub fn is_valid(&self) -> (b: bool)
        ensures
            b == self.wf(),
    {
        P::is_canonical(&self.x) && P::is_canonical(&self.y) && P::is_canonical(&self.z)
    }

    /// The projective form of an affine point.
    pub fn from_affine(pt: &Affine<P>) -> (e: Self)
        ensures
            e.is_from(*pt),
    {
        ElementP2 {
            x: pt.x,
            y: pt.y,
            z: if pt.infinity {
                P::zero()
            } else {
                P::one()
            },
        }
    }

    /// The affine point that the element represents.
    pub fn to_affine(&self) -> (pt: Affine<P>)
        requires
            self.wf(),
        ensures
            self.represents(pt),
    {
        if P::is_zero(&self.z) {
            return Affine { x: P::zero(), y: P::zero(), infinity: true };
        }
        match P::inverse(&self.z) {
            Some(z_inv) => {
                let x = P::mul(&self.x, &z_inv);
                let y = P::mul(&self.y, &z_inv);
                proof {
                    lemma_quotient::<P>(self.x, self.z, z_inv, x);
                    lemma_quotient::<P>(self.y, self.z, z_inv, y);
                }
                Affine { x, y, infinity: false }
            },
            None => Affine { x: P::zero(), y: P::zero(), infinity: true },
        }
    }
}

/// The product of a field element with the inverse of a divisor is the
/// quotient: multiplied by the divisor it is the element again.
proof fn lemma_quotient<P: SwCurveConfig>(
    x: P::BaseField,
    z: P::BaseField,
    z_inv: P::BaseField,
    q: P::BaseField,
)
    requires
        P::field_value(x) < P::modulus(),
        (P::field_value(z_inv) * P::field_value(z)) % P::modulus() == 1,
        P::field_value(q) == (P::field_value(x) * P::field_value(z_inv)) % P::modulus(),
    ensures
        P::field_value(q) < P::modulus(),
        (P::field_value(q) * P::field_value(z)) % P::modulus() == P::field_value(x),
{
    let p = P::modulus() as int;
    let xv = P::field_value(x) as int;
    let zv = P::field_value(z) as int;
    let iv = P::field_value(z_inv) as int;
    P::lemma_modulus();
    lemma_mul_mod_noop_left(xv * iv, zv, p);
    lemma_mul_is_associative(xv, iv, zv);
    lemma_mul_mod_noop_right(xv, iv * zv, p);
    lemma_small_mod(xv as nat, p as nat);
    assert(((xv * iv) % p) * zv % p == (xv * iv * zv) % p);
    assert((xv * (iv * zv)) % p == (xv * 1) % p);
}

/// An affine point that is turned into projective form and back is the point
/// it was.
pub proof fn lemma_affine_round_trip<P: SwCurveConfig>(
    pt: Affine<P>,
    e: ElementP2<P>,
    back: Affine<P>,
)
    requires
        pt.wf(),
        e.is_from(pt),
        e.represents(back),
    ensures
        back == pt,
{
    P::lemma_modulus();
    if pt.infinity {
        P::lemma_value_determines(back.x, pt.x);
        P::lemma_value_determines(back.y, pt.y);
    } else {
        let p = P::modulus();
        assert(P::field_value(back.x) * 1 == P::field_value(back.x));
        assert(P::field_value(back.y) * 1 == P::field_value(back.y));
        lemma_small_mod(P::field_value(back.x), p);
        lemma_small_mod(P::field_value(back.y), p);
        P::lemma_value_determines(back.x, pt.x);
        P::lemma_value_determines(back.y, pt.y);
    }
}

/// Converts the elements that the backend wrote into affine points, one for
/// one.
pub fn elements_to_affine<P: SwCurveConfig>(elements: &[ElementP2<P>]) -> (points: Vec<Affine<P>>)
    requires
        forall|i: int| 0 <= i < elements@.len() ==> (#[trigger] elements@[i]).wf(),
    ensures
        points@.len() == elements@.len(),
        forall|i: int| 0 <= i < elements@.len() ==> elements@[i].represents(#[trigger] points@[i]),
{
    let mut points: Vec<Affine<P>> = Vec::with_capacity(elements.len());
    let mut i: usize = 0;
    while i < elements.len()
        invariant
            i <= elements@.len(),
            points@.len() == i,
            forall|j: int| 0 <= j < elements@.len() ==> (#[trigger] elements@[j]).wf(),
            forall|j: int| 0 <= j < i ==> elements@[j].represents(#[trigger] points@[j]),
        decreases elements@.len() - i,
    {
        points.push(elements[i].to_affine());
        i += 1;
    }
    points
}

/// Converts affine generators into the projective form the backend takes,
/// one for one.
pub fn affine_to_elements<P: SwCurveConfig>(points: &[Affine<P>]) -> (elements: Vec<ElementP2<P>>)
    ensures
        elements@.len() == points@.len(),
        forall|i: int| 0 <= i < points@.len() ==> (#[trigger] elements@[i]).is_from(points@[i]),
{
    let mut elements: Vec<ElementP2<P>> = Vec::with_capacity(points.len());
    let mut i: usize = 0;
    while i < points.len()
        invariant
            i <= points@.len(),
            elements@.len() == i,
            forall|j: int| 0 <= j < i ==> (#[trigger] elements@[j]).is_from(points@[j]),
        decreases points@.len() - i,
    {
        elements.push(ElementP2::from_affine(&points[i]));
        i += 1;
    }
    elements
}

impl<P: SwCurveConfig> CurveId for ElementP2<P> {
    open spec fn spec_curve_id() -> u32 {
        P::spec_curve_id()
    }

    fn curve_id() -> (id: u32) {
        P::curve_id()
    }
}

} // verus!
