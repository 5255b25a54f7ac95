use cor_convert::codec::{decode_lines, encode_lines};
use cor_convert::model::{Document, Point, Shape};

fn lines(texts: &[&str]) -> Vec<String> {
    texts.iter().map(|t| t.to_string()).collect()
}

fn bits(v: f64) -> u64 {
    v.to_bits()
}

#[test]
fn decode_circle_record() {
    let doc = decode_lines(&lines(&["CI", "5.0", "1.0", "2.0", "PU"]));
    assert_eq!(doc.entities.len(), 1);
    assert_eq!(
        doc.entities[0],
        Shape::Circle { radius: bits(5.0), center: Point { x: bits(1.0), y: bits(2.0) } }
    );
}

#[test]
fn decode_circle_keyword_case_insensitive() {
    let doc = decode_lines(&lines(&["ci", " 5.0", " 1.0", " 2.0", "pu"]));
    assert_eq!(doc.entities.len(), 1);
    assert_eq!(
        doc.entities[0],
        Shape::Circle { radius: bits(5.0), center: Point { x: bits(1.0), y: bits(2.0) } }
    );
}

#[test]
fn decode_polyline_record() {
    let doc = decode_lines(&lines(&["PD", "0.0", "0.0", "1.0", "1.0", "2.0", "2.0", "PU"]));
    assert_eq!(doc.entities.len(), 1);
    assert_eq!(
        doc.entities[0],
        Shape::Polyline {
            points: vec![
                Point { x: bits(0.0), y: bits(0.0) },
                Point { x: bits(1.0), y: bits(1.0) },
                Point { x: bits(2.0), y: bits(2.0) },
            ]
        }
    );
}

#[test]
fn polyline_odd_value_dropped() {
    let doc = decode_lines(&lines(&["PD", "1.0", "2.0", "3.0", "PU"]));
    assert_eq!(doc.entities.len(), 1);
    assert_eq!(
        doc.entities[0],
        Shape::Polyline { points: vec![Point { x: bits(1.0), y: bits(2.0) }] }
    );
}

#[test]
fn polyline_without_pairs_degrades() {
    let doc = decode_lines(&lines(&["PD", "7.5", "PU"]));
    assert_eq!(doc.entities, vec![Shape::NoShape]);
    let doc = decode_lines(&lines(&["PD", "PU"]));
    assert_eq!(doc.entities, vec![Shape::NoShape]);
}

#[test]
fn circle_missing_third_field() {
    let doc = decode_lines(&lines(&["CI", "5.0", "1.0", "PU"]));
    assert_eq!(doc.entities, vec![Shape::NoShape]);
}

#[test]
fn circle_truncated_at_end_of_input() {
    let doc = decode_lines(&lines(&["CI", "5.0"]));
    assert_eq!(doc.entities, vec![Shape::NoShape]);
}

#[test]
fn malformed_record_does_not_stop_decoding() {
    let doc = decode_lines(&lines(&[
        "CI", "what", "1.0", "2.0", "CI", " 4.0", " 1.5", " 2.5", "PU",
    ]));
    assert_eq!(doc.entities.len(), 2);
    assert_eq!(doc.entities[0], Shape::NoShape);
    assert_eq!(
        doc.entities[1],
        Shape::Circle { radius: bits(4.0), center: Point { x: bits(1.5), y: bits(2.5) } }
    );
}

#[test]
fn unrecognized_line_is_ignored() {
    let with_noise = decode_lines(&lines(&[
        "; a comment", "PU", " 3.5", "CI", "5.0", "1.0", "2.0", "PU", "trailing",
    ]));
    let without_noise = decode_lines(&lines(&["CI", "5.0", "1.0", "2.0", "PU"]));
    assert_eq!(with_noise.entities, without_noise.entities);
}

#[test]
fn decode_arc_record_field_order() {
    let doc = decode_lines(&lines(&["ARC", "1.0", "2.0", "3.0", "10.0", "20.0", "PU"]));
    assert_eq!(doc.entities.len(), 1);
    assert_eq!(
        doc.entities[0],
        Shape::Arc {
            radius: bits(3.0),
            center: Point { x: bits(1.0), y: bits(2.0) },
            start: bits(10.0),
            end: bits(20.0),
        }
    );
}

#[test]
fn polyline_terminator_is_left_for_outer_scan() {
    let doc = decode_lines(&lines(&["PD", "1.0", "1.0", "CI", "5.0", "1.0", "2.0", "PU"]));
    assert_eq!(doc.entities.len(), 2);
    assert_eq!(
        doc.entities[0],
        Shape::Polyline { points: vec![Point { x: bits(1.0), y: bits(1.0) }] }
    );
    assert_eq!(
        doc.entities[1],
        Shape::Circle { radius: bits(5.0), center: Point { x: bits(1.0), y: bits(2.0) } }
    );
}

#[test]
fn encode_circle_layout() {
    let doc = Document {
        entities: vec![Shape::Circle {
            radius: bits(5.0),
            center: Point { x: bits(1.0), y: bits(2.0) },
        }],
    };
    let out = encode_lines(&doc);
    assert_eq!(out.len(), 5);
    assert_eq!(out[0], "CI");
    assert_eq!(out[4], "PU");
    for data in &out[1..4] {
        assert!(data.starts_with(' '));
        assert!(data.trim().parse::<f64>().is_ok());
    }
}

#[test]
fn encode_skips_no_shape() {
    let doc = Document { entities: vec![Shape::NoShape] };
    let out = encode_lines(&doc);
    assert!(out.is_empty());
}

#[test]
fn encode_then_decode_round_trips() {
    let doc = Document {
        entities: vec![
            Shape::Circle { radius: bits(5.25), center: Point { x: bits(-1.5), y: bits(2.0) } },
            Shape::Polyline {
                points: vec![
                    Point { x: bits(0.0), y: bits(0.125) },
                    Point { x: bits(10.5), y: bits(-3.75) },
                    Point { x: bits(100.0), y: bits(0.2) },
                ],
            },
            Shape::Arc {
                radius: bits(2.5),
                center: Point { x: bits(4.0), y: bits(5.0) },
                start: bits(0.0),
                end: bits(90.0),
            },
        ],
    };
    let encoded = encode_lines(&doc);
    let decoded = decode_lines(&encoded);
    assert_eq!(decoded.entities, doc.entities);
}

#[test]
fn empty_document_round_trips() {
    let doc = Document::new();
    let encoded = encode_lines(&doc);
    assert!(encoded.is_empty());
    let decoded = decode_lines(&encoded);
    assert!(decoded.entities.is_empty());
}
