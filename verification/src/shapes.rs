//! A closed family of geometric shapes: circles, rectangles and triangles,
//! each with a canonical textual representation and an exact area.
//!
//! Areas are stated without floating point: a circle's area is pi times an
//! integer, every other area is half an integer. Callers that want an
//! approximate numeric area scale these exact quantities themselves.

use crate::decimal::dec_int;
use crate::decimal::int_string;
use vstd::prelude::*;

verus! {

/// A shape, fixed at construction; coordinates and dimensions are integers.
#[derive(Clone, Copy, PartialEq, Eq, Structural, Debug)]
pub enum Shapes {
    Circle { x: i32, y: i32, radius: i32 },
    Rectangle { x: i32, y: i32, width: i32, height: i32 },
    Triangle { x1: i32, y1: i32, x2: i32, y2: i32, x3: i32, y3: i32 },
}

/// An exact area: either pi times an integer (a circle), or half an
/// integer (a rectangle or a triangle; a triangle's may be negative,
/// since the shoelace formula is signed).
#[derive(Clone, Copy, PartialEq, Eq, Structural, Debug)]
pub enum AreaExact {
    PiTimes(i128),
    HalfOf(i128),
}

/// The mathematical content of an `AreaExact`.
pub enum AreaForm {
    PiTimes(int),
    HalfOf(int),
}

impl View for AreaExact {
    type V = AreaForm;

    open spec fn view(&self) -> AreaForm {
        match *self {
            AreaExact::PiTimes(k) => AreaForm::PiTimes(k as int),
            AreaExact::HalfOf(k) => AreaForm::HalfOf(k as int),
        }
    }
}

/// The canonical representation of a shape: one fixed template per kind,
/// each integer rendered in decimal with no padding.
pub open spec fn rep_of(s: Shapes) -> Seq<char> {
    match s {
        Shapes::Circle { x, y, radius } => "<Circle: "@ + dec_int(x as int) + ", "@ + dec_int(
            y as int,
        ) + ", "@ + dec_int(radius as int) + ">"@,
        Shapes::Rectangle { x, y, width, height } => "<Rectangle: "@ + dec_int(x as int) + ", "@
            + dec_int(y as int) + ", "@ + dec_int(width as int) + ", "@ + dec_int(height as int)
            + ">"@,
        Shapes::Triangle { x1, y1, x2, y2, x3, y3 } => "<Triangle: ("@ + dec_int(x1 as int) + ", "@
            + dec_int(y1 as int) + "), ("@ + dec_int(x2 as int) + ", "@ + dec_int(y2 as int)
            + "), ("@ + dec_int(x3 as int) + ", "@ + dec_int(y3 as int) + ")>"@,
    }
}

/// The exact area of a shape: pi times radius squared for a circle, width
/// times height for a rectangle, and for a triangle half the signed
/// shoelace-style determinant, which may be negative. The determinant
/// keeps `x1 - x2` as the first factor of both terms: that is the form
/// the canonical example collection validates, where the example triangle
/// has area 750.
pub open spec fn area_of(s: Shapes) -> AreaForm {
    match s {
        Shapes::Circle { x, y, radius } => AreaForm::PiTimes(radius * radius),
        Shapes::Rectangle { x, y, width, height } => AreaForm::HalfOf(2 * width * height),
        Shapes::Triangle { x1, y1, x2, y2, x3, y3 } => AreaForm::HalfOf(
            (x1 - x2) * (y2 - y1) - (x1 - x2) * (y3 - y1),
        ),
    }
}

/// A product of values bounded in magnitude is bounded by the product of
/// the magnitudes.
proof fn lemma_mul_bound(a: int, b: int, m: int, n: int)
    requires
        0 <= m,
        0 <= n,
        -m <= a <= m,
        -n <= b <= n,
    ensures
        -(m * n) <= a * b <= m * n,
{
    assert(-(m * n) <= a * b <= m * n) by (nonlinear_arith)
        requires
            0 <= m,
            0 <= n,
            -m <= a <= m,
            -n <= b <= n,
    ;
}

impl Shapes {
    /// The canonical textual form of the shape.
    pub fn rep_string(&self) -> (r: String)
        ensures
            r@ == rep_of(*self),
    {
        match self {
            Shapes::Circle { x, y, radius } => {
                let mut s = String::from_str("<Circle: ");
                s.append(int_string(*x).as_str());
                s.append(", ");
                s.append(int_string(*y).as_str());
                s.append(", ");
                s.append(int_string(*radius).as_str());
                s.append(">");
                proof {
                    assert(s@ =~= rep_of(*self));
                }
                s
            },
            Shapes::Rectangle { x, y, width, height } => {
                let mut s = String::from_str("<Rectangle: ");
                s.append(int_string(*x).as_str());
                s.append(", ");
                s.append(int_string(*y).as_str());
                s.append(", ");
                s.append(int_string(*width).as_str());
                s.append(", ");
                s.append(int_string(*height).as_str());
                s.append(">");
                proof {
                    assert(s@ =~= rep_of(*self));
                }
                s
            },
            Shapes::Triangle { x1, y1, x2, y2, x3, y3 } => {
                let mut s = String::from_str("<Triangle: (");
                s.append(int_string(*x1).as_str());
                s.append(", ");
                s.append(int_string(*y1).as_str());
                s.append("), (");
                s.append(int_string(*x2).as_str());
                s.append(", ");
                s.append(int_string(*y2).as_str());
                s.append("), (");
                s.append(int_string(*x3).as_str());
                s.append(", ");
                s.append(int_string(*y3).as_str());
                s.append(")>");
                proof {
                    assert(s@ =~= rep_of(*self));
                }
                s
            },
        }
    }

    /// The exact area of the shape.
    pub fn area_exact(&self) -> (a: AreaExact)
        ensures
            a@ == area_of(*self),
    {
        match self {
            Shapes::Circle { x: _, y: _, radius } => {
                let r: i128 = *radius as i128;
                proof {
                    lemma_mul_bound(r as int, r as int, 0x8000_0000, 0x8000_0000);
                }
                AreaExact::PiTimes(r * r)
            },
            Shapes::Rectangle { x: _, y: _, width, height } => {
                let w: i128 = *width as i128;
                let h: i128 = *height as i128;
                proof {
                    lemma_mul_bound(2 * (w as int), h as int, 0x1_0000_0000, 0x8000_0000);
                }
                AreaExact::HalfOf(2 * w * h)
            },
            Shapes::Triangle { x1, y1, x2, y2, x3, y3 } => {
                let a: i128 = *x1 as i128 - *x2 as i128;
                let b: i128 = *y2 as i128 - *y1 as i128;
                let c: i128 = *x1 as i128 - *x2 as i128;
                let d: i128 = *y3 as i128 - *y1 as i128;
                proof {
                    lemma_mul_bound(a as int, b as int, 0x1_0000_0000, 0x1_0000_0000);
                    lemma_mul_bound(c as int, d as int, 0x1_0000_0000, 0x1_0000_0000);
                }
                AreaExact::HalfOf(a * b - c * d)
            },
        }
    }

    /// An independent copy of the shape with identical fields.
    pub fn duplicate(&self) -> (r: Shapes)
        ensures
            r == *self,
    {
        *self
    }
}

/// A circle given by its centre and radius.
#[derive(Clone, Copy, PartialEq, Eq, Structural, Debug)]
pub struct Circle {
    pub x: i32,
    pub y: i32,
    pub radius: i32,
}

/// An axis-aligned rectangle given by a corner and its dimensions.
#[derive(Clone, Copy, PartialEq, Eq, Structural, Debug)]
pub struct Rectangle {
    pub x: i32,
    pub y: i32,
    pub width: i32,
    pub height: i32,
}

/// A triangle given by its three vertices.
#[derive(Clone, Copy, PartialEq, Eq, Structural, Debug)]
pub struct Triangle {
    pub x1: i32,
    pub y1: i32,
    pub x2: i32,
    pub y2: i32,
    pub x3: i32,
    pub y3: i32,
}

impl Circle {
    /// A new circle with the given centre and radius.
    pub fn new(x: i32, y: i32, radius: i32) -> (c: Box<Circle>)
        ensures
            *c == (Circle { x, y, radius }),
    {
        Box::new(Circle { x, y, radius })
    }

    /// The same circle as a member of the closed shape family.
    pub fn to_shape(&self) -> (s: Shapes)
        ensures
            s == (Shapes::Circle { x: self.x, y: self.y, radius: self.radius }),
    {
        Shapes::Circle { x: self.x, y: self.y, radius: self.radius }
    }

    /// The canonical textual form of the circle.
    pub fn rep_string(&self) -> (r: String)
        ensures
            r@ == rep_of((Shapes::Circle { x: self.x, y: self.y, radius: self.radius })),
    {
        self.to_shape().rep_string()
    }
}

impl Rectangle {
    /// A new rectangle with the given corner and dimensions.
    pub fn new(x: i32, y: i32, width: i32, height: i32) -> (c: Box<Rectangle>)
        ensures
            *c == (Rectangle { x, y, width, height }),
    {
        Box::new(Rectangle { x, y, width, height })
    }

    /// The same rectangle as a member of the closed shape family.
    pub fn to_shape(&self) -> (s: Shapes)
        ensures
            s == (Shapes::Rectangle {
                x: self.x,
                y: self.y,
                width: self.width,
                height: self.height,
            }),
    {
        Shapes::Rectangle { x: self.x, y: self.y, width: self.width, height: self.height }
    }

    /// The canonical textual form of the rectangle.
    pub fn rep_string(&self) -> (r: String)
        ensures
            r@ == rep_of(
                (Shapes::Rectangle {
                    x: self.x,
                    y: self.y,
                    width: self.width,
                    height: self.height,
                }),
            ),
    {
        self.to_shape().rep_string()
    }
}

impl Triangle {
    /// A new triangle with the given vertices.
    pub fn new(x1: i32, y1: i32, x2: i32, y2: i32, x3: i32, y3: i32) -> (c: Box<Triangle>)
        ensures
            *c == (Triangle { x1, y1, x2, y2, x3, y3 }),
    {
        Box::new(Triangle { x1, y1, x2, y2, x3, y3 })
    }

    /// The same triangle as a member of the closed shape family.
    pub fn to_shape(&self) -> (s: Shapes)
        ensures
            s == (Shapes::Triangle {
                x1: self.x1,
                y1: self.y1,
                x2: self.x2,
                y2: self.y2,
                x3: self.x3,
                y3: self.y3,
            }),
    {
        Shapes::Triangle {
            x1: self.x1,
            y1: self.y1,
            x2: self.x2,
            y2: self.y2,
            x3: self.x3,
            y3: self.y3,
        }
    }

    /// The canonical textual form of the triangle.
    pub fn rep_string(&self) -> (r: String)
        ensures
            r@ == rep_of(
                (Shapes::Triangle {
                    x1: self.x1,
                    y1: self.y1,
                    x2: self.x2,
                    y2: self.y2,
                    x3: self.x3,
                    y3: self.y3,
                }),
            ),
    {
        self.to_shape().rep_string()
    }
}

/// The example shape collection: a circle, a rectangle and a triangle,
/// in that order.
pub fn input_shape_list() -> (r: Vec<Shapes>)
    ensures
        r@ == seq![
            (Shapes::Circle { x: 0, y: 0, radius: 1 }),
            (Shapes::Rectangle { x: 40, y: 40, width: 20, height: 20 }),
            (Shapes::Triangle { x1: 0, y1: 20, x2: 30, y2: 70, x3: 90, y3: 120 }),
        ],
{
    let mut v: Vec<Shapes> = Vec::new();
    v.push(Shapes::Circle { x: 0, y: 0, radius: 1 });
    v.push(Shapes::Rectangle { x: 40, y: 40, width: 20, height: 20 });
    v.push(Shapes::Triangle { x1: 0, y1: 20, x2: 30, y2: 70, x3: 90, y3: 120 });
    proof {
        assert(v@ =~= seq![
            (Shapes::Circle { x: 0, y: 0, radius: 1 }),
            (Shapes::Rectangle { x: 40, y: 40, width: 20, height: 20 }),
            (Shapes::Triangle { x1: 0, y1: 20, x2: 30, y2: 70, x3: 90, y3: 120 }),
        ]);
    }
    v
}

/// Deep-copying a shape changes no query: equal shapes have equal
/// canonical representations and equal exact areas.
pub proof fn lemma_equal_shapes_equal_queries(a: Shapes, b: Shapes)
    requires
        a == b,
    ensures
        rep_of(a) == rep_of(b),
        area_of(a) == area_of(b),
{
}

/// Shape queries are pure: any two results that `rep_string` or
/// `area_exact` may return for the same shape are identical.
pub proof fn lemma_shape_queries_deterministic(
    s: Shapes,
    r1: Seq<char>,
    r2: Seq<char>,
    a1: AreaForm,
    a2: AreaForm,
)
    requires
        r1 == rep_of(s),
        r2 == rep_of(s),
        a1 == area_of(s),
        a2 == area_of(s),
    ensures
        r1 == r2,
        a1 == a2,
{
}

} // verus!
