//! The geometry model shared by the codec and the entity mappers.

use vstd::prelude::*;

verus! {

/// A 2-D point. The coordinates are IEEE-754 double-precision bit
/// patterns, so that two points are equal exactly when their stored
/// representations are.
#[derive(Debug, Clone, Copy, PartialEq, Eq, Structural)]
pub struct Point {
    pub x: u64,
    pub y: u64,
}

/// One drawable shape of a document.
///
/// `NoShape` is the sentinel the decoder emits for a malformed record;
/// it never carries geometry and every consumer skips it.
#[derive(Debug, Clone, PartialEq)]
pub enum Shape {
    NoShape,
    Arc { radius: u64, center: Point, start: u64, end: u64 },
    Circle { radius: u64, center: Point },
    Polyline { points: Vec<Point> },
}

/// The mathematical value of a `Shape`: the same variants with the
/// polyline's points as a sequence.
#[verifier::ext_equal]
pub enum ShapeV {
    NoShape,
    Arc { radius: u64, center: Point, start: u64, end: u64 },
    Circle { radius: u64, center: Point },
    Polyline { points: Seq<Point> },
}

impl View for Shape {
    type V = ShapeV;

    open spec fn view(&self) -> ShapeV {
        match self {
            Shape::NoShape => ShapeV::NoShape,
            Shape::Arc { radius, center, start, end } => ShapeV::Arc {
                radius: *radius,
                center: *center,
                start: *start,
                end: *end,
            },
            Shape::Circle { radius, center } => ShapeV::Circle {
                radius: *radius,
                center: *center,
            },
            Shape::Polyline { points } => ShapeV::Polyline { points: points@ },
        }
    }
}

/// The value of a sequence of shapes.
pub open spec fn shapes_view(shapes: Seq<Shape>) -> Seq<ShapeV> {
    shapes.map_values(|s: Shape| s@)
}

/// An ordered sequence of shapes; the order determines serialization
/// order and the order entities are added to a drawing.
#[derive(Debug, Clone, PartialEq)]
pub struct Document {
    pub entities: Vec<Shape>,
}

impl View for Document {
    type V = Seq<ShapeV>;

    open spec fn view(&self) -> Seq<ShapeV> {
        shapes_view(self.entities@)
    }
}

impl Document {
    /// Creates an empty document.
    pub fn new() -> (d: Document)
        ensures
            d@ =~= Seq::<ShapeV>::empty(),
    {
        Document { entities: Vec::new() }
    }
}

} // verus!
