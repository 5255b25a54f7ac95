//! The entity mappers between the COR geometry model and a generic CAD
//! drawing's entity model.
//!
//! A drawing entity lives in three dimensions; a COR shape in two. The
//! forward mapper expands a polyline into independent line segments —
//! the drawing model has no multi-point polyline here — and the reverse
//! mapper turns each line back into a degenerate two-point polyline,
//! without merging adjacent lines.

use crate::model::{Document, Point, Shape, ShapeV};
use vstd::prelude::*;

verus! {

/// A drawing-space point. Like `Point`, the coordinates are IEEE-754
/// double-precision bit patterns; `0` is the pattern of positive zero.
#[derive(Debug, Clone, Copy, PartialEq, Eq, Structural)]
pub struct DrawPoint {
    pub x: u64,
    pub y: u64,
    pub z: u64,
}

/// One drawing entity of the kinds the converter understands; any
/// other kind is `Other` and is ignored by the reverse mapper.
#[derive(Debug, Clone, PartialEq)]
pub enum DrawEntity {
    Line { p1: DrawPoint, p2: DrawPoint },
    Circle { center: DrawPoint, radius: u64 },
    Arc { center: DrawPoint, radius: u64, start: u64, end: u64 },
    Polyline { vertices: Vec<DrawPoint> },
    Other,
}

/// The mathematical value of a `DrawEntity`.
#[verifier::ext_equal]
pub enum DrawEntityV {
    Line { p1: DrawPoint, p2: DrawPoint },
    Circle { center: DrawPoint, radius: u64 },
    Arc { center: DrawPoint, radius: u64, start: u64, end: u64 },
    Polyline { vertices: Seq<DrawPoint> },
    Other,
}

impl View for DrawEntity {
    type V = DrawEntityV;

    open spec fn view(&self) -> DrawEntityV {
        match self {
            DrawEntity::Line { p1, p2 } => DrawEntityV::Line { p1: *p1, p2: *p2 },
            DrawEntity::Circle { center, radius } => DrawEntityV::Circle {
                center: *center,
                radius: *radius,
            },
            DrawEntity::Arc { center, radius, start, end } => DrawEntityV::Arc {
                center: *center,
                radius: *radius,
                start: *start,
                end: *end,
            },
            DrawEntity::Polyline { vertices } => DrawEntityV::Polyline { vertices: vertices@ },
            DrawEntity::Other => DrawEntityV::Other,
        }
    }
}

/// The values of an entity list.
pub open spec fn entities_view(entities: Seq<DrawEntity>) -> Seq<DrawEntityV> {
    entities.map_values(|e: DrawEntity| e@)
}

/// A COR point placed in the drawing plane, at height zero.
pub open spec fn to_draw_point(p: Point) -> DrawPoint {
    DrawPoint { x: p.x, y: p.y, z: 0 }
}

/// A drawing point projected onto the COR plane; the height is lost.
pub open spec fn to_cor_point(p: DrawPoint) -> Point {
    Point { x: p.x, y: p.y }
}

/// The line segments of a polyline: one independent entity for each
/// adjacent pair of points; fewer than two points give none.
pub open spec fn segments_of(points: Seq<Point>) -> Seq<DrawEntityV> {
    Seq::new(
        if points.len() >= 1 {
            (points.len() - 1) as nat
        } else {
            0
        },
        |i: int|
            DrawEntityV::Line {
                p1: to_draw_point(points[i]),
                p2: to_draw_point(points[i + 1]),
            },
    )
}

/// The drawing entities of one COR shape.
pub open spec fn shape_entities(s: ShapeV) -> Seq<DrawEntityV> {
    match s {
        ShapeV::NoShape => Seq::empty(),
        ShapeV::Circle { radius, center } => seq![
            DrawEntityV::Circle { center: to_draw_point(center), radius },
        ],
        ShapeV::Arc { radius, center, start, end } => seq![
            DrawEntityV::Arc { center: to_draw_point(center), radius, start, end },
        ],
        ShapeV::Polyline { points } => segments_of(points),
    }
}

/// The drawing entities of a whole document, in document order.
pub open spec fn doc_entities(shapes: Seq<ShapeV>) -> Seq<DrawEntityV>
    decreases shapes.len(),
{
    if shapes.len() == 0 {
        Seq::empty()
    } else {
        shape_entities(shapes[0]) + doc_entities(shapes.drop_first())
    }
}

/// The COR shapes of one drawing entity: a line becomes a degenerate
/// two-point polyline, the other supported kinds map field by field,
/// and an unsupported kind produces nothing.
pub open spec fn entity_shapes(e: DrawEntityV) -> Seq<ShapeV> {
    match e {
        DrawEntityV::Line { p1, p2 } => seq![
            ShapeV::Polyline { points: seq![to_cor_point(p1), to_cor_point(p2)] },
        ],
        DrawEntityV::Circle { center, radius } => seq![
            ShapeV::Circle { radius, center: to_cor_point(center) },
        ],
        DrawEntityV::Arc { center, radius, start, end } => seq![
            ShapeV::Arc { radius, center: to_cor_point(center), start, end },
        ],
        DrawEntityV::Polyline { vertices } => seq![
            ShapeV::Polyline { points: vertices.map_values(|p: DrawPoint| to_cor_point(p)) },
        ],
        DrawEntityV::Other => Seq::empty(),
    }
}

/// The COR document of a whole entity list, in entity order.
pub open spec fn entities_shapes(entities: Seq<DrawEntityV>) -> Seq<ShapeV>
    decreases entities.len(),
{
    if entities.len() == 0 {
        Seq::empty()
    } else {
        entity_shapes(entities[0]) + entities_shapes(entities.drop_first())
    }
}

/// Maps a document to drawing entities: circles and arcs one to one at
/// height zero, each polyline expanded into its line segments, and
/// `NoShape` entries dropped.
pub fn to_drawing_entities(doc: &Document) -> (entities: Vec<DrawEntity>)
    ensures
        entities_view(entities@) == doc_entities(doc@),
{
    let mut out: Vec<DrawEntity> = Vec::new();
    let n = doc.entities.len();
    let mut i: usize = 0;
    proof {
        assert(doc@.skip(0) =~= doc@);
        assert(entities_view(out@) + doc_entities(doc@) =~= doc_entities(doc@));
    }
    while i < n
        invariant
            0 <= i <= n,
            n == doc.entities@.len(),
            entities_view(out@) + doc_entities(doc@.skip(i as int)) == doc_entities(doc@),
        decreases n - i,
    {
        let ghost rest = doc@.skip(i as int);
        proof {
            assert(rest[0] == doc@[i as int]);
            assert(rest.drop_first() =~= doc@.skip(i as int + 1));
        }
        let ghost base = out@;
        match &doc.entities[i] {
            Shape::NoShape => {},
            Shape::Circle { radius, center } => {
                out.push(
                    DrawEntity::Circle {
                        center: DrawPoint { x: center.x, y: center.y, z: 0 },
                        radius: *radius,
                    },
                );
            },
            Shape::Arc { radius, center, start, end } => {
                out.push(
                    DrawEntity::Arc {
                        center: DrawPoint { x: center.x, y: center.y, z: 0 },
                        radius: *radius,
                        start: *start,
                        end: *end,
                    },
                );
            },
            Shape::Polyline { points } => {
                let m = points.len();
                let mut k: usize = 1;
                while k < m
                    invariant
                        1 <= k <= m || (m == 0 && k == 1),
                        m == points@.len(),
                        entities_view(out@) == entities_view(base) + segments_of(points@).take(
                            k as int - 1,
                        ),
                    decreases m - k,
                {
                    let ghost before = out@;
                    out.push(
                        DrawEntity::Line {
                            p1: DrawPoint { x: points[k - 1].x, y: points[k - 1].y, z: 0 },
                            p2: DrawPoint { x: points[k].x, y: points[k].y, z: 0 },
                        },
                    );
                    proof {
                        let seg = segments_of(points@)[k as int - 1];
                        assert(seg == DrawEntityV::Line {
                            p1: to_draw_point(points@[k as int - 1]),
                            p2: to_draw_point(points@[k as int]),
                        });
                        assert(entities_view(out@) =~= entities_view(before) + seq![seg]);
                        assert(segments_of(points@).take(k as int) =~= segments_of(points@).take(
                            k as int - 1,
                        ) + seq![seg]);
                        assert(entities_view(out@) =~= entities_view(base) + segments_of(
                            points@,
                        ).take(k as int));
                    }
                    k = k + 1;
                }
                proof {
                    if m >= 1 {
                        assert(segments_of(points@).take(m as int - 1) =~= segments_of(points@));
                    } else {
                        assert(segments_of(points@).take(0) =~= segments_of(points@));
                    }
                }
            },
        }
        proof {
            assert(entities_view(out@) =~= entities_view(base) + shape_entities(doc@[i as int]));
            assert(entities_view(out@) + doc_entities(doc@.skip(i as int + 1)) =~= entities_view(
                base,
            ) + doc_entities(rest));
        }
        i = i + 1;
    }
    proof {
        assert(doc@.skip(n as int) =~= Seq::<ShapeV>::empty());
        assert(entities_view(out@) + doc_entities(doc@.skip(n as int)) =~= entities_view(out@));
    }
    out
}

/// Maps drawing entities back to a COR document: each line becomes its
/// own two-point polyline — adjacent lines are not merged — a drawing
/// polyline keeps its vertex list, circles and arcs map field by field,
/// and any unsupported entity is silently ignored.
pub fn from_drawing_entities(entities: &Vec<DrawEntity>) -> (doc: Document)
    ensures
        doc@ == entities_shapes(entities_view(entities@)),
{
    let ghost evs = entities_view(entities@);
    let mut doc = Document::new();
    let n = entities.len();
    let mut i: usize = 0;
    proof {
        assert(evs.skip(0) =~= evs);
        assert(doc@ + entities_shapes(evs) =~= entities_shapes(evs));
    }
    while i < n
        invariant
            0 <= i <= n,
            n == entities@.len(),
            evs == entities_view(entities@),
            doc@ + entities_shapes(evs.skip(i as int)) == entities_shapes(evs),
        decreases n - i,
    {
        let ghost rest = evs.skip(i as int);
        proof {
            assert(rest[0] == evs[i as int]);
            assert(rest.drop_first() =~= evs.skip(i as int + 1));
        }
        let ghost base = doc.entities@;
        match &entities[i] {
            DrawEntity::Line { p1, p2 } => {
                let mut points: Vec<Point> = Vec::new();
                points.push(Point { x: p1.x, y: p1.y });
                points.push(Point { x: p2.x, y: p2.y });
                proof {
                    assert(points@ =~= seq![to_cor_point(*p1), to_cor_point(*p2)]);
                }
                doc.entities.push(Shape::Polyline { points });
            },
            DrawEntity::Circle { center, radius } => {
                doc.entities.push(
                    Shape::Circle { radius: *radius, center: Point { x: center.x, y: center.y } },
                );
            },
            DrawEntity::Arc { center, radius, start, end } => {
                doc.entities.push(
                    Shape::Arc {
                        radius: *radius,
                        center: Point { x: center.x, y: center.y },
                        start: *start,
                        end: *end,
                    },
                );
            },
            DrawEntity::Polyline { vertices } => {
                let m = vertices.len();
                let mut points: Vec<Point> = Vec::new();
                let mut k: usize = 0;
                while k < m
                    invariant
                        0 <= k <= m,
                        m == vertices@.len(),
                        points@ == vertices@.take(k as int).map_values(
                            |p: DrawPoint| to_cor_point(p),
                        ),
                    decreases m - k,
                {
                    points.push(Point { x: vertices[k].x, y: vertices[k].y });
                    proof {
                        assert(points@ =~= vertices@.take(k as int + 1).map_values(
                            |p: DrawPoint| to_cor_point(p),
                        ));
                    }
                    k = k + 1;
                }
                proof {
                    assert(vertices@.take(m as int) =~= vertices@);
                }
                doc.entities.push(Shape::Polyline { points });
            },
            DrawEntity::Other => {},
        }
        proof {
            assert(crate::model::shapes_view(doc.entities@) =~= crate::model::shapes_view(base)
                + entity_shapes(evs[i as int]));
            assert(crate::model::shapes_view(doc.entities@) + entities_shapes(
                evs.skip(i as int + 1),
            ) =~= crate::model::shapes_view(base) + entities_shapes(rest));
        }
        i = i + 1;
    }
    proof {
        assert(evs.skip(n as int) =~= Seq::<DrawEntityV>::empty());
        assert(doc@ + entities_shapes(evs.skip(n as int)) =~= doc@);
    }
    doc
}

/// A polyline of points `[p0, .., p(n-1)]` maps to exactly `n - 1`
/// independent line segments, the i-th connecting `p(i)` to `p(i+1)`;
/// fewer than two points give none.
pub proof fn lemma_polyline_segments(points: Seq<Point>)
    ensures
        points.len() >= 1 ==> shape_entities(ShapeV::Polyline { points }).len() == points.len()
            - 1,
        points.len() == 0 ==> shape_entities(ShapeV::Polyline { points }).len() == 0,
        forall|i: int|
            0 <= i < points.len() - 1 ==> shape_entities(ShapeV::Polyline { points })[i]
                == (DrawEntityV::Line {
                p1: to_draw_point(points[i]),
                p2: to_draw_point(points[i + 1]),
            }),
{
}

/// A drawing line maps back to one degenerate two-point polyline that
/// carries exactly its endpoints; two lines that share an endpoint stay
/// two separate polylines — they are not merged back into one.
pub proof fn lemma_line_to_polyline(p1: DrawPoint, p2: DrawPoint, p3: DrawPoint)
    ensures
        entity_shapes(DrawEntityV::Line { p1, p2 }) == seq![
            ShapeV::Polyline { points: seq![to_cor_point(p1), to_cor_point(p2)] },
        ],
        entities_shapes(
            seq![DrawEntityV::Line { p1, p2 }, DrawEntityV::Line { p1: p2, p2: p3 }],
        ) == seq![
            ShapeV::Polyline { points: seq![to_cor_point(p1), to_cor_point(p2)] },
            ShapeV::Polyline { points: seq![to_cor_point(p2), to_cor_point(p3)] },
        ],
{
    let two = seq![DrawEntityV::Line { p1, p2 }, DrawEntityV::Line { p1: p2, p2: p3 }];
    assert(two.drop_first() =~= seq![DrawEntityV::Line { p1: p2, p2: p3 }]);
    assert(two.drop_first().drop_first() =~= Seq::<DrawEntityV>::empty());
    assert(entities_shapes(Seq::<DrawEntityV>::empty()) =~= Seq::<ShapeV>::empty());
    reveal_with_fuel(entities_shapes, 3);
    assert(entities_shapes(two) =~= seq![
        ShapeV::Polyline { points: seq![to_cor_point(p1), to_cor_point(p2)] },
        ShapeV::Polyline { points: seq![to_cor_point(p2), to_cor_point(p3)] },
    ]);
}

} // verus!
