use vstd::prelude::*;

verus! {

use std::cmp::Ordering;
use vstd::std_specs::cmp::PartialOrdSpecImpl;
use vstd::std_specs::ops::AddSpecImpl;

/// A point or offset on the integer voxel grid.
#[derive(Debug, Clone, Copy, PartialEq, Eq, Structural, Hash)]
pub struct Vec3i {
    pub x: i32,
    pub y: i32,
    pub z: i32,
}

/// Builds a `Vec3i` from its three components.
pub fn vec3i(x: i32, y: i32, z: i32) -> (v: Vec3i)
    ensures
        v == (Vec3i { x, y, z }),
{
    Vec3i { x, y, z }
}

/// Three-way comparison of two integers.
pub open spec fn int_order(a: i32, b: i32) -> Ordering {
    if a < b {
        Ordering::Less
    } else if a > b {
        Ordering::Greater
    } else {
        Ordering::Equal
    }
}

/// Lexicographic order on `(x, y, z)`: `x` decides first, then `y`, then `z`.
pub open spec fn lex_order(a: Vec3i, b: Vec3i) -> Ordering {
    if a.x != b.x {
        int_order(a.x, b.x)
    } else if a.y != b.y {
        int_order(a.y, b.y)
    } else {
        int_order(a.z, b.z)
    }
}

/// Whether the componentwise sum of `a` and `b` fits in `i32`.
pub open spec fn vec_sum_fits(a: Vec3i, b: Vec3i) -> bool {
    &&& i32::MIN <= a.x + b.x <= i32::MAX
    &&& i32::MIN <= a.y + b.y <= i32::MAX
    &&& i32::MIN <= a.z + b.z <= i32::MAX
}

/// The componentwise sum of `a` and `b`.
pub open spec fn vec_sum(a: Vec3i, b: Vec3i) -> Vec3i {
    Vec3i { x: (a.x + b.x) as i32, y: (a.y + b.y) as i32, z: (a.z + b.z) as i32 }
}

impl std::ops::Add<Vec3i> for Vec3i {
    type Output = Vec3i;

    fn add(self, rhs: Vec3i) -> (r: Vec3i) {
        Vec3i { x: self.x + rhs.x, y: self.y + rhs.y, z: self.z + rhs.z }
    }
}

impl AddSpecImpl<Vec3i> for Vec3i {
    open spec fn obeys_add_spec() -> bool {
        true
    }

    open spec fn add_req(self, rhs: Vec3i) -> bool {
        vec_sum_fits(self, rhs)
    }

    open spec fn add_spec(self, rhs: Vec3i) -> Vec3i {
        vec_sum(self, rhs)
    }
}

impl PartialOrd for Vec3i {
    fn partial_cmp(&self, other: &Vec3i) -> (r: Option<Ordering>) {
        let x_order = self.x.partial_cmp(&other.x);
        if !matches!(x_order, Some(Ordering::Equal)) {
            return x_order;
        }
        let y_order = self.y.partial_cmp(&other.y);
        if !matches!(y_order, Some(Ordering::Equal)) {
            return y_order;
        }
        self.z.partial_cmp(&other.z)
    }
}

impl PartialOrdSpecImpl for Vec3i {
    open spec fn obeys_partial_cmp_spec() -> bool {
        true
    }

    open spec fn partial_cmp_spec(&self, other: &Vec3i) -> Option<Ordering> {
        Some(lex_order(*self, *other))
    }
}

/// A point on the integer grid of a horizontal layer.
#[derive(Debug, Clone, Copy, PartialEq, Eq, Structural, Hash)]
pub struct Vec2i {
    pub x: i32,
    pub y: i32,
}

/// Swapping the operands of the comparison reverses its outcome.
pub proof fn lemma_lex_order_antisymmetric(a: Vec3i, b: Vec3i)
    ensures
        lex_order(a, b) == Ordering::Less <==> lex_order(b, a) == Ordering::Greater,
        lex_order(a, b) == Ordering::Equal <==> lex_order(b, a) == Ordering::Equal,
{
}

/// Two vectors compare as equal exactly when they are the same vector.
pub proof fn lemma_lex_order_equal_iff_same(a: Vec3i, b: Vec3i)
    ensures
        lex_order(a, b) == Ordering::Equal <==> a == b,
{
}

/// "Less than" on `Vec3i` is transitive.
pub proof fn lemma_lex_order_less_transitive(a: Vec3i, b: Vec3i, c: Vec3i)
    requires
        lex_order(a, b) == Ordering::Less,
        lex_order(b, c) == Ordering::Less,
    ensures
        lex_order(a, c) == Ordering::Less,
{
}

/// Vector addition is commutative wherever it does not overflow.
pub proof fn lemma_sum_commutative(a: Vec3i, b: Vec3i)
    requires
        vec_sum_fits(a, b),
    ensures
        vec_sum_fits(b, a),
        vec_sum(a, b) == vec_sum(b, a),
{
}

/// Vector addition is associative wherever no partial sum overflows.
pub proof fn lemma_sum_associative(a: Vec3i, b: Vec3i, c: Vec3i)
    requires
        vec_sum_fits(a, b),
        vec_sum_fits(vec_sum(a, b), c),
        vec_sum_fits(b, c),
        vec_sum_fits(a, vec_sum(b, c)),
    ensures
        vec_sum(vec_sum(a, b), c) == vec_sum(a, vec_sum(b, c)),
{
}

/// The comparison is lexicographic over the components taken as signed integers: `x`
/// decides when it differs, then `y`, then `z`, and equal components compare as equal.
pub proof fn lemma_partial_cmp_components(a: Vec3i, b: Vec3i)
    ensures
        a.x < b.x ==> vstd::std_specs::cmp::PartialOrdSpec::partial_cmp_spec(&a, &b) == Some(
            Ordering::Less,
        ),
        a.x > b.x ==> vstd::std_specs::cmp::PartialOrdSpec::partial_cmp_spec(&a, &b) == Some(
            Ordering::Greater,
        ),
        a.x == b.x && a.y < b.y ==> vstd::std_specs::cmp::PartialOrdSpec::partial_cmp_spec(&a, &b)
            == Some(Ordering::Less),
        a.x == b.x && a.y > b.y ==> vstd::std_specs::cmp::PartialOrdSpec::partial_cmp_spec(&a, &b)
            == Some(Ordering::Greater),
        a.x == b.x && a.y == b.y && a.z < b.z
            ==> vstd::std_specs::cmp::PartialOrdSpec::partial_cmp_spec(&a, &b) == Some(
            Ordering::Less,
        ),
        a.x == b.x && a.y == b.y && a.z > b.z
            ==> vstd::std_specs::cmp::PartialOrdSpec::partial_cmp_spec(&a, &b) == Some(
            Ordering::Greater,
        ),
        a.x == b.x && a.y == b.y && a.z == b.z
            ==> vstd::std_specs::cmp::PartialOrdSpec::partial_cmp_spec(&a, &b) == Some(
            Ordering::Equal,
        ),
{
}

} // verus!
