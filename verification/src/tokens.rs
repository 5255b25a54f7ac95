//! The COR record state machine, stated over classified lines.
//!
//! Every input line is one token: a record keyword, a number (carried
//! as an IEEE-754 bit pattern), or unrecognized text. The decoder's
//! record grammar, the encoder's output, and the round-trip law between
//! them are all defined and proved at this level, independent of how a
//! number is spelled in decimal.

use crate::model::{Point, ShapeV};
use vstd::prelude::*;

verus! {

/// The classification of one line of COR text.
#[derive(Debug, Clone, Copy, PartialEq, Eq, Structural)]
pub enum LineTok {
    /// The circle keyword `CI`.
    KwCi,
    /// The arc keyword `ARC`.
    KwArc,
    /// The pen-down (polyline) keyword `PD`.
    KwPd,
    /// The pen-up (end of record) keyword `PU`.
    KwPu,
    /// A numeric data line, as the bit pattern of its value.
    Num(u64),
    /// Any other line; ignored between records.
    Other,
}

/// The bit pattern of a numeric token (immaterial for the others).
pub open spec fn num_val(t: LineTok) -> u64 {
    match t {
        LineTok::Num(b) => b,
        _ => 0,
    }
}

/// Decoding of a circle record body: the lines after the `CI` keyword.
/// Three numbers are consumed in the order radius, center-x, center-y,
/// then one terminating line. A line that is no number aborts the
/// record, which degrades to `NoShape`. Yields the shape and how many
/// lines were consumed.
pub open spec fn circle_rec(toks: Seq<LineTok>) -> (ShapeV, int) {
    if toks.len() >= 1 && toks[0] is Num {
        if toks.len() >= 2 && toks[1] is Num {
            if toks.len() >= 3 && toks[2] is Num {
                (
                    ShapeV::Circle {
                        radius: num_val(toks[0]),
                        center: Point { x: num_val(toks[1]), y: num_val(toks[2]) },
                    },
                    if toks.len() >= 4 {
                        4int
                    } else {
                        3int
                    },
                )
            } else {
                (ShapeV::NoShape, if toks.len() >= 3 { 3int } else { 2int })
            }
        } else {
            (ShapeV::NoShape, if toks.len() >= 2 { 2int } else { 1int })
        }
    } else {
        (ShapeV::NoShape, if toks.len() >= 1 { 1int } else { 0int })
    }
}

/// Decoding of an arc record body: five numbers in the order center-x,
/// center-y, radius, start angle, end angle, then one terminating line;
/// the same failure policy as for a circle.
pub open spec fn arc_rec(toks: Seq<LineTok>) -> (ShapeV, int) {
    if toks.len() >= 1 && toks[0] is Num {
        if toks.len() >= 2 && toks[1] is Num {
            if toks.len() >= 3 && toks[2] is Num {
                if toks.len() >= 4 && toks[3] is Num {
                    if toks.len() >= 5 && toks[4] is Num {
                        (
                            ShapeV::Arc {
                                radius: num_val(toks[2]),
                                center: Point { x: num_val(toks[0]), y: num_val(toks[1]) },
                                start: num_val(toks[3]),
                                end: num_val(toks[4]),
                            },
                            if toks.len() >= 6 {
                                6int
                            } else {
                                5int
                            },
                        )
                    } else {
                        (ShapeV::NoShape, if toks.len() >= 5 { 5int } else { 4int })
                    }
                } else {
                    (ShapeV::NoShape, if toks.len() >= 4 { 4int } else { 3int })
                }
            } else {
                (ShapeV::NoShape, if toks.len() >= 3 { 3int } else { 2int })
            }
        } else {
            (ShapeV::NoShape, if toks.len() >= 2 { 2int } else { 1int })
        }
    } else {
        (ShapeV::NoShape, if toks.len() >= 1 { 1int } else { 0int })
    }
}

/// The values of the numeric tokens at the front of `toks`, up to the
/// first token that is no number.
pub open spec fn leading_nums(toks: Seq<LineTok>) -> Seq<u64>
    decreases toks.len(),
{
    if toks.len() > 0 && toks[0] is Num {
        seq![num_val(toks[0])] + leading_nums(toks.drop_first())
    } else {
        Seq::empty()
    }
}

/// Consecutive pairs of a flat coordinate list as points; an odd
/// trailing value without a partner is dropped.
pub open spec fn pair_points(nums: Seq<u64>) -> Seq<Point>
    decreases nums.len(),
{
    if nums.len() >= 2 {
        seq![Point { x: nums[0], y: nums[1] }] + pair_points(nums.skip(2))
    } else {
        Seq::empty()
    }
}

/// Decoding of a polyline record body: the lines after the `PD`
/// keyword. Numbers are consumed as long as they last and grouped into
/// points; the first line that is no number ends the record and is left
/// for the outer scan. Zero complete pairs degrade to `NoShape`.
pub open spec fn polyline_rec(toks: Seq<LineTok>) -> (ShapeV, int) {
    let nums = leading_nums(toks);
    let points = pair_points(nums);
    (
        if points.len() == 0 {
            ShapeV::NoShape
        } else {
            ShapeV::Polyline { points }
        },
        nums.len() as int,
    )
}

/// `leading_nums` never reaches past the end of the tokens.
pub proof fn lemma_leading_nums_len(toks: Seq<LineTok>)
    ensures
        leading_nums(toks).len() <= toks.len(),
    decreases toks.len(),
{
    if toks.len() > 0 && toks[0] is Num {
        lemma_leading_nums_len(toks.drop_first());
    }
}

/// The whole decoder: scans for record keywords, decodes each record
/// with its reader, and ignores any other line between records.
pub open spec fn decode_toks(toks: Seq<LineTok>) -> Seq<ShapeV>
    decreases toks.len(),
    via decode_toks_decreases
{
    if toks.len() == 0 {
        Seq::empty()
    } else if toks[0] is KwCi {
        let (s, c) = circle_rec(toks.drop_first());
        seq![s] + decode_toks(toks.skip(1 + c))
    } else if toks[0] is KwArc {
        let (s, c) = arc_rec(toks.drop_first());
        seq![s] + decode_toks(toks.skip(1 + c))
    } else if toks[0] is KwPd {
        let (s, c) = polyline_rec(toks.drop_first());
        seq![s] + decode_toks(toks.skip(1 + c))
    } else {
        decode_toks(toks.drop_first())
    }
}

#[via_fn]
proof fn decode_toks_decreases(toks: Seq<LineTok>) {
    if toks.len() > 0 {
        lemma_leading_nums_len(toks.drop_first());
    }
}

/// The numeric tokens of a point list: each point's x, then its y.
pub open spec fn points_toks(points: Seq<Point>) -> Seq<LineTok>
    decreases points.len(),
{
    if points.len() == 0 {
        Seq::empty()
    } else {
        seq![LineTok::Num(points[0].x), LineTok::Num(points[0].y)] + points_toks(
            points.drop_first(),
        )
    }
}

/// The encoder's output for one shape: its keyword, its numeric fields
/// in record order, and the `PU` terminator; nothing for `NoShape`.
pub open spec fn encode_shape_toks(s: ShapeV) -> Seq<LineTok> {
    match s {
        ShapeV::NoShape => Seq::empty(),
        ShapeV::Circle { radius, center } => seq![
            LineTok::KwCi,
            LineTok::Num(radius),
            LineTok::Num(center.x),
            LineTok::Num(center.y),
            LineTok::KwPu,
        ],
        ShapeV::Arc { radius, center, start, end } => seq![
            LineTok::KwArc,
            LineTok::Num(center.x),
            LineTok::Num(center.y),
            LineTok::Num(radius),
            LineTok::Num(start),
            LineTok::Num(end),
            LineTok::KwPu,
        ],
        ShapeV::Polyline { points } => seq![LineTok::KwPd] + points_toks(points) + seq![
            LineTok::KwPu,
        ],
    }
}

/// The whole encoder: each shape's record in document order.
pub open spec fn encode_toks(shapes: Seq<ShapeV>) -> Seq<LineTok>
    decreases shapes.len(),
{
    if shapes.len() == 0 {
        Seq::empty()
    } else {
        encode_shape_toks(shapes[0]) + encode_toks(shapes.drop_first())
    }
}

/// `points_toks` distributes over concatenation.
pub proof fn lemma_points_toks_app(a: Seq<Point>, b: Seq<Point>)
    ensures
        points_toks(a + b) == points_toks(a) + points_toks(b),
    decreases a.len(),
{
    if a.len() == 0 {
        assert(a + b =~= b);
        assert(points_toks(a) + points_toks(b) =~= points_toks(b));
    } else {
        assert((a + b).drop_first() =~= a.drop_first() + b);
        lemma_points_toks_app(a.drop_first(), b);
        assert(points_toks(a + b) =~= points_toks(a) + points_toks(b));
    }
}

/// `encode_toks` distributes over concatenation.
pub proof fn lemma_encode_toks_app(a: Seq<ShapeV>, b: Seq<ShapeV>)
    ensures
        encode_toks(a + b) == encode_toks(a) + encode_toks(b),
    decreases a.len(),
{
    if a.len() == 0 {
        assert(a + b =~= b);
        assert(encode_toks(a) + encode_toks(b) =~= encode_toks(b));
    } else {
        assert((a + b).drop_first() =~= a.drop_first() + b);
        lemma_encode_toks_app(a.drop_first(), b);
        assert(encode_toks(a + b) =~= encode_toks(a) + encode_toks(b));
    }
}

/// The flat coordinate list of a point sequence: each point's x, then
/// its y.
pub open spec fn coords(points: Seq<Point>) -> Seq<u64>
    decreases points.len(),
{
    if points.len() == 0 {
        Seq::empty()
    } else {
        seq![points[0].x, points[0].y] + coords(points.drop_first())
    }
}

/// Pairing is exact: a flat list of coordinates yields one point per
/// complete pair, in order, and a final unpaired value is dropped.
pub proof fn lemma_pair_points(nums: Seq<u64>)
    ensures
        pair_points(nums).len() == nums.len() / 2,
        forall|i: int|
            0 <= i < nums.len() / 2 ==> pair_points(nums)[i] == (Point {
                x: nums[2 * i],
                y: nums[2 * i + 1],
            }),
    decreases nums.len(),
{
    if nums.len() >= 2 {
        let tail = nums.skip(2);
        lemma_pair_points(tail);
        assert(nums.len() / 2 == tail.len() / 2 + 1);
        assert forall|i: int| 0 <= i < nums.len() / 2 implies pair_points(nums)[i] == (Point {
            x: nums[2 * i],
            y: nums[2 * i + 1],
        }) by {
            if i > 0 {
                assert(pair_points(nums)[i] == pair_points(tail)[i - 1]);
                assert(tail[2 * (i - 1)] == nums[2 * i]);
                assert(tail[2 * (i - 1) + 1] == nums[2 * i + 1]);
            }
        }
    }
}

/// An unrecognized line at the top level — no record keyword — produces
/// no shape and leaves the decoder in the same state.
pub proof fn lemma_idle_ignores_line(t: LineTok, rest: Seq<LineTok>)
    requires
        !(t is KwCi),
        !(t is KwArc),
        !(t is KwPd),
    ensures
        decode_toks(seq![t] + rest) == decode_toks(rest),
{
    let toks = seq![t] + rest;
    assert(toks.drop_first() =~= rest);
}

/// A shape whose record decodes back to itself: a circle, an arc, or a
/// polyline with at least one point. (An empty polyline's record holds
/// no data line and degrades to `NoShape` when read back, and `NoShape`
/// itself is never written.)
pub open spec fn round_trippable(s: ShapeV) -> bool {
    match s {
        ShapeV::Circle { .. } => true,
        ShapeV::Arc { .. } => true,
        ShapeV::Polyline { points } => points.len() >= 1,
        ShapeV::NoShape => false,
    }
}

/// A point list's tokens: two per point.
pub proof fn lemma_points_toks_len(points: Seq<Point>)
    ensures
        points_toks(points).len() == 2 * points.len(),
    decreases points.len(),
{
    if points.len() > 0 {
        lemma_points_toks_len(points.drop_first());
    }
}

/// The numeric tokens of a point list are exactly its coordinates, and
/// a following non-numeric token stops the number scan there.
proof fn lemma_leading_nums_of_points(points: Seq<Point>, rest: Seq<LineTok>)
    requires
        rest.len() > 0,
        !(rest[0] is Num),
    ensures
        leading_nums(points_toks(points) + rest) == coords(points),
        coords(points).len() == 2 * points.len(),
    decreases points.len(),
{
    if points.len() == 0 {
        assert(points_toks(points) + rest =~= rest);
        assert(leading_nums(rest) =~= Seq::<u64>::empty());
    } else {
        let tail = points.drop_first();
        lemma_leading_nums_of_points(tail, rest);
        let toks = points_toks(points) + rest;
        assert(toks[0] == LineTok::Num(points[0].x));
        assert(toks.drop_first() =~= seq![LineTok::Num(points[0].y)] + (points_toks(tail) + rest));
        let toks1 = seq![LineTok::Num(points[0].y)] + (points_toks(tail) + rest);
        assert(toks1[0] == LineTok::Num(points[0].y));
        assert(toks1.drop_first() =~= points_toks(tail) + rest);
        assert(leading_nums(toks) =~= coords(points)) by {
            reveal_with_fuel(leading_nums, 3);
        }
    }
}

/// Grouping the flat coordinates of a point list into pairs gives the
/// point list back.
proof fn lemma_pair_points_coords(points: Seq<Point>)
    ensures
        pair_points(coords(points)) == points,
    decreases points.len(),
{
    if points.len() == 0 {
        assert(pair_points(coords(points)) =~= points);
    } else {
        let tail = points.drop_first();
        lemma_pair_points_coords(tail);
        let ns = coords(points);
        assert(ns.len() >= 2);
        assert(ns[0] == points[0].x);
        assert(ns[1] == points[0].y);
        assert(ns.skip(2) =~= coords(tail));
        assert(pair_points(ns) =~= points);
    }
}

/// One encoded record, followed by anything, decodes to its shape
/// followed by the decoding of the rest.
proof fn lemma_record_roundtrip(s: ShapeV, rest: Seq<LineTok>)
    requires
        round_trippable(s),
    ensures
        decode_toks(encode_shape_toks(s) + rest) == seq![s] + decode_toks(rest),
{
    let toks = encode_shape_toks(s) + rest;
    match s {
        ShapeV::Circle { radius, center } => {
            assert(toks[0] is KwCi);
            let body = toks.drop_first();
            assert(body =~= seq![
                LineTok::Num(radius),
                LineTok::Num(center.x),
                LineTok::Num(center.y),
                LineTok::KwPu,
            ] + rest);
            let (sh, c) = circle_rec(body);
            assert(sh == s);
            assert(c == 4);
            assert(toks.skip(5) =~= rest);
            assert(decode_toks(toks) == seq![s] + decode_toks(rest));
        },
        ShapeV::Arc { radius, center, start, end } => {
            assert(toks[0] is KwArc);
            let body = toks.drop_first();
            assert(body =~= seq![
                LineTok::Num(center.x),
                LineTok::Num(center.y),
                LineTok::Num(radius),
                LineTok::Num(start),
                LineTok::Num(end),
                LineTok::KwPu,
            ] + rest);
            let (sh, c) = arc_rec(body);
            assert(sh == s);
            assert(c == 6);
            assert(toks.skip(7) =~= rest);
            assert(decode_toks(toks) == seq![s] + decode_toks(rest));
        },
        ShapeV::Polyline { points } => {
            assert(toks[0] is KwPd);
            let body = toks.drop_first();
            let after = seq![LineTok::KwPu] + rest;
            assert(body =~= points_toks(points) + after);
            lemma_points_toks_len(points);
            lemma_leading_nums_of_points(points, after);
            lemma_pair_points_coords(points);
            let (sh, c) = polyline_rec(body);
            assert(sh == s);
            assert(c == 2 * points.len());
            assert(toks.skip(1 + c) =~= after);
            lemma_idle_ignores_line(LineTok::KwPu, rest);
            assert(decode_toks(after) == decode_toks(rest));
            assert(decode_toks(toks) == seq![s] + decode_toks(rest));
        },
        ShapeV::NoShape => {},
    }
}

/// Round trip: encoding a document of circles, arcs and nonempty
/// polylines and decoding the result yields the document back,
/// order preserved.
pub proof fn lemma_encode_then_decode(shapes: Seq<ShapeV>)
    requires
        forall|i: int| 0 <= i < shapes.len() ==> round_trippable(#[trigger] shapes[i]),
    ensures
        decode_toks(encode_toks(shapes)) == shapes,
    decreases shapes.len(),
{
    if shapes.len() == 0 {
        assert(decode_toks(encode_toks(shapes)) =~= shapes);
    } else {
        let rest = shapes.drop_first();
        lemma_encode_then_decode(rest);
        lemma_record_roundtrip(shapes[0], encode_toks(rest));
        assert(seq![shapes[0]] + rest =~= shapes);
    }
}

} // verus!
