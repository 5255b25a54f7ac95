use cor_convert::mapping::{from_drawing_entities, to_drawing_entities, DrawEntity, DrawPoint};
use cor_convert::model::{Document, Point, Shape};

fn bits(v: f64) -> u64 {
    v.to_bits()
}

fn dp(x: f64, y: f64) -> DrawPoint {
    DrawPoint { x: bits(x), y: bits(y), z: bits(0.0) }
}

#[test]
fn polyline_expands_to_segments() {
    let doc = Document {
        entities: vec![Shape::Polyline {
            points: vec![
                Point { x: bits(0.0), y: bits(0.0) },
                Point { x: bits(1.0), y: bits(1.0) },
                Point { x: bits(2.0), y: bits(2.0) },
            ],
        }],
    };
    let entities = to_drawing_entities(&doc);
    assert_eq!(
        entities,
        vec![
            DrawEntity::Line { p1: dp(0.0, 0.0), p2: dp(1.0, 1.0) },
            DrawEntity::Line { p1: dp(1.0, 1.0), p2: dp(2.0, 2.0) },
        ]
    );
}

#[test]
fn short_polylines_expand_to_nothing() {
    let doc = Document {
        entities: vec![
            Shape::Polyline { points: vec![] },
            Shape::Polyline { points: vec![Point { x: bits(1.0), y: bits(1.0) }] },
            Shape::NoShape,
        ],
    };
    let entities = to_drawing_entities(&doc);
    assert!(entities.is_empty());
}

#[test]
fn circle_and_arc_map_at_height_zero() {
    let doc = Document {
        entities: vec![
            Shape::Circle { radius: bits(5.0), center: Point { x: bits(1.0), y: bits(2.0) } },
            Shape::Arc {
                radius: bits(3.0),
                center: Point { x: bits(4.0), y: bits(5.0) },
                start: bits(0.0),
                end: bits(90.0),
            },
        ],
    };
    let entities = to_drawing_entities(&doc);
    assert_eq!(
        entities,
        vec![
            DrawEntity::Circle { center: dp(1.0, 2.0), radius: bits(5.0) },
            DrawEntity::Arc {
                center: dp(4.0, 5.0),
                radius: bits(3.0),
                start: bits(0.0),
                end: bits(90.0),
            },
        ]
    );
}

#[test]
fn line_maps_back_to_two_point_polyline() {
    let entities = vec![DrawEntity::Line { p1: dp(0.5, 1.5), p2: dp(2.5, 3.5) }];
    let doc = from_drawing_entities(&entities);
    assert_eq!(
        doc.entities,
        vec![Shape::Polyline {
            points: vec![
                Point { x: bits(0.5), y: bits(1.5) },
                Point { x: bits(2.5), y: bits(3.5) },
            ]
        }]
    );
}

#[test]
fn adjacent_lines_are_not_merged() {
    let entities = vec![
        DrawEntity::Line { p1: dp(0.0, 0.0), p2: dp(1.0, 1.0) },
        DrawEntity::Line { p1: dp(1.0, 1.0), p2: dp(2.0, 2.0) },
    ];
    let doc = from_drawing_entities(&entities);
    assert_eq!(doc.entities.len(), 2);
    assert_eq!(
        doc.entities[0],
        Shape::Polyline {
            points: vec![
                Point { x: bits(0.0), y: bits(0.0) },
                Point { x: bits(1.0), y: bits(1.0) },
            ]
        }
    );
    assert_eq!(
        doc.entities[1],
        Shape::Polyline {
            points: vec![
                Point { x: bits(1.0), y: bits(1.0) },
                Point { x: bits(2.0), y: bits(2.0) },
            ]
        }
    );
}

#[test]
fn drawing_polyline_keeps_vertices_and_other_is_ignored() {
    let entities = vec![
        DrawEntity::Other,
        DrawEntity::Polyline { vertices: vec![dp(1.0, 2.0), dp(3.0, 4.0), dp(5.0, 6.0)] },
        DrawEntity::Circle { center: dp(7.0, 8.0), radius: bits(9.0) },
        DrawEntity::Other,
    ];
    let doc = from_drawing_entities(&entities);
    assert_eq!(
        doc.entities,
        vec![
            Shape::Polyline {
                points: vec![
                    Point { x: bits(1.0), y: bits(2.0) },
                    Point { x: bits(3.0), y: bits(4.0) },
                    Point { x: bits(5.0), y: bits(6.0) },
                ]
            },
            Shape::Circle { radius: bits(9.0), center: Point { x: bits(7.0), y: bits(8.0) } },
        ]
    );
}

#[test]
fn polyline_survives_expansion_and_reassembly_as_segments() {
    let doc = Document {
        entities: vec![Shape::Polyline {
            points: vec![
                Point { x: bits(0.0), y: bits(0.0) },
                Point { x: bits(1.0), y: bits(1.0) },
                Point { x: bits(2.0), y: bits(2.0) },
            ],
        }],
    };
    let back = from_drawing_entities(&to_drawing_entities(&doc));
    assert_eq!(
        back.entities,
        vec![
            Shape::Polyline {
                points: vec![
                    Point { x: bits(0.0), y: bits(0.0) },
                    Point { x: bits(1.0), y: bits(1.0) },
                ]
            },
            Shape::Polyline {
                points: vec![
                    Point { x: bits(1.0), y: bits(1.0) },
                    Point { x: bits(2.0), y: bits(2.0) },
                ]
            },
        ]
    );
}
