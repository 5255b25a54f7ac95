//! The COR text codec: lines of text to a document and back.
//!
//! Each line is classified as a token — a record keyword, matched
//! case-insensitively on the unpadded line, or a number, parsed from
//! the trimmed line — and the record state machine of `tokens` runs
//! over the classification.

use crate::model::{Document, Point, Shape, ShapeV};
use crate::num::{
    fmt_f64_bits, format_f64_bits, is_nan_bits, lemma_trim_padded, parse_f64_bits,
    parsed_f64_bits, trim_line, trim_spec,
};
use crate::tokens::{
    arc_rec, circle_rec, decode_toks, encode_shape_toks, encode_toks, leading_nums,
    lemma_encode_then_decode, lemma_encode_toks_app, lemma_points_toks_app, lemma_points_toks_len,
    pair_points, points_toks, polyline_rec, round_trippable, LineTok,
};
use vstd::prelude::*;

verus! {

/// Whether `s` is the circle keyword `CI`, ignoring ASCII case.
pub open spec fn is_kw_ci(s: Seq<char>) -> bool {
    s.len() == 2 && (s[0] == 'C' || s[0] == 'c') && (s[1] == 'I' || s[1] == 'i')
}

/// Whether `s` is the arc keyword `ARC`, ignoring ASCII case.
pub open spec fn is_kw_arc(s: Seq<char>) -> bool {
    s.len() == 3 && (s[0] == 'A' || s[0] == 'a') && (s[1] == 'R' || s[1] == 'r') && (s[2] == 'C'
        || s[2] == 'c')
}

/// Whether `s` is the pen-down keyword `PD`, ignoring ASCII case.
pub open spec fn is_kw_pd(s: Seq<char>) -> bool {
    s.len() == 2 && (s[0] == 'P' || s[0] == 'p') && (s[1] == 'D' || s[1] == 'd')
}

/// Whether `s` is the pen-up keyword `PU`, ignoring ASCII case.
pub open spec fn is_kw_pu(s: Seq<char>) -> bool {
    s.len() == 2 && (s[0] == 'P' || s[0] == 'p') && (s[1] == 'U' || s[1] == 'u')
}

/// The token of one line: a keyword where the line is one, else a
/// number where the trimmed line parses as one, else unrecognized text.
pub open spec fn tok_of(s: Seq<char>) -> LineTok {
    if is_kw_ci(s) {
        LineTok::KwCi
    } else if is_kw_arc(s) {
        LineTok::KwArc
    } else if is_kw_pd(s) {
        LineTok::KwPd
    } else if is_kw_pu(s) {
        LineTok::KwPu
    } else {
        match parsed_f64_bits(trim_spec(s)) {
            Some(b) => LineTok::Num(b),
            None => LineTok::Other,
        }
    }
}

/// The texts of a line list.
pub open spec fn views_of(lines: Seq<String>) -> Seq<Seq<char>> {
    lines.map_values(|l: String| l@)
}

/// The tokens of a line list.
pub open spec fn line_toks(lines: Seq<String>) -> Seq<LineTok> {
    views_of(lines).map_values(|l: Seq<char>| tok_of(l))
}

fn kw_ci(s: &str) -> (r: bool)
    ensures
        r == is_kw_ci(s@),
{
    if s.unicode_len() != 2 {
        return false;
    }
    let c0 = s.get_char(0);
    let c1 = s.get_char(1);
    (c0 == 'C' || c0 == 'c') && (c1 == 'I' || c1 == 'i')
}

fn kw_arc(s: &str) -> (r: bool)
    ensures
        r == is_kw_arc(s@),
{
    if s.unicode_len() != 3 {
        return false;
    }
    let c0 = s.get_char(0);
    let c1 = s.get_char(1);
    let c2 = s.get_char(2);
    (c0 == 'A' || c0 == 'a') && (c1 == 'R' || c1 == 'r') && (c2 == 'C' || c2 == 'c')
}

fn kw_pd(s: &str) -> (r: bool)
    ensures
        r == is_kw_pd(s@),
{
    if s.unicode_len() != 2 {
        return false;
    }
    let c0 = s.get_char(0);
    let c1 = s.get_char(1);
    (c0 == 'P' || c0 == 'p') && (c1 == 'D' || c1 == 'd')
}

fn kw_pu(s: &str) -> (r: bool)
    ensures
        r == is_kw_pu(s@),
{
    if s.unicode_len() != 2 {
        return false;
    }
    let c0 = s.get_char(0);
    let c1 = s.get_char(1);
    (c0 == 'P' || c0 == 'p') && (c1 == 'U' || c1 == 'u')
}

/// Classifies one line of COR text.
pub fn classify_line(s: &str) -> (t: LineTok)
    ensures
        t == tok_of(s@),
{
    if kw_ci(s) {
        LineTok::KwCi
    } else if kw_arc(s) {
        LineTok::KwArc
    } else if kw_pd(s) {
        LineTok::KwPd
    } else if kw_pu(s) {
        LineTok::KwPu
    } else {
        let trimmed = trim_line(s);
        match parse_f64_bits(trimmed) {
            Some(b) => LineTok::Num(b),
            None => LineTok::Other,
        }
    }
}

/// Reads the body of a circle record: three numbers — radius, center-x,
/// center-y — then one terminating line. A line that is no number
/// aborts the record. Yields the shape and the position after the
/// record.
pub fn read_circle(lines: &Vec<String>, start: usize) -> (r: (Shape, usize))
    requires
        start <= lines@.len(),
    ensures
        ({
            let (sh, c) = circle_rec(line_toks(lines@).skip(start as int));
            r.0@ == sh && r.1 == start + c && start <= r.1 <= lines@.len()
        }),
{
    let n = lines.len();
    let ghost toks = line_toks(lines@).skip(start as int);
    if start >= n {
        return (Shape::NoShape, start);
    }
    let radius = match classify_line(lines[start].as_str()) {
        LineTok::Num(b) => b,
        _ => {
            return (Shape::NoShape, start + 1);
        },
    };
    proof {
        assert(toks[0] == tok_of(lines@[start as int]@));
    }
    if start + 1 >= n {
        return (Shape::NoShape, start + 1);
    }
    let x = match classify_line(lines[start + 1].as_str()) {
        LineTok::Num(b) => b,
        _ => {
            return (Shape::NoShape, start + 2);
        },
    };
    proof {
        assert(toks[1] == tok_of(lines@[start as int + 1]@));
    }
    if start + 2 >= n {
        return (Shape::NoShape, start + 2);
    }
    let y = match classify_line(lines[start + 2].as_str()) {
        LineTok::Num(b) => b,
        _ => {
            return (Shape::NoShape, start + 3);
        },
    };
    proof {
        assert(toks[2] == tok_of(lines@[start as int + 2]@));
    }
    let after = if n - start >= 4 {
        start + 4
    } else {
        start + 3
    };
    (Shape::Circle { radius, center: Point { x, y } }, after)
}

/// Reads the body of an arc record: five numbers — center-x, center-y,
/// radius, start angle, end angle — then one terminating line; the same
/// failure policy as for a circle.
pub fn read_arc(lines: &Vec<String>, start: usize) -> (r: (Shape, usize))
    requires
        start <= lines@.len(),
    ensures
        ({
            let (sh, c) = arc_rec(line_toks(lines@).skip(start as int));
            r.0@ == sh && r.1 == start + c && start <= r.1 <= lines@.len()
        }),
{
    let n = lines.len();
    let ghost toks = line_toks(lines@).skip(start as int);
    if start >= n {
        return (Shape::NoShape, start);
    }
    let x = match classify_line(lines[start].as_str()) {
        LineTok::Num(b) => b,
        _ => {
            return (Shape::NoShape, start + 1);
        },
    };
    proof {
        assert(toks[0] == tok_of(lines@[start as int]@));
    }
    if start + 1 >= n {
        return (Shape::NoShape, start + 1);
    }
    let y = match classify_line(lines[start + 1].as_str()) {
        LineTok::Num(b) => b,
        _ => {
            return (Shape::NoShape, start + 2);
        },
    };
    proof {
        assert(toks[1] == tok_of(lines@[start as int + 1]@));
    }
    if start + 2 >= n {
        return (Shape::NoShape, start + 2);
    }
    let radius = match classify_line(lines[start + 2].as_str()) {
        LineTok::Num(b) => b,
        _ => {
            return (Shape::NoShape, start + 3);
        },
    };
    proof {
        assert(toks[2] == tok_of(lines@[start as int + 2]@));
    }
    if start + 3 >= n {
        return (Shape::NoShape, start + 3);
    }
    let angle_start = match classify_line(lines[start + 3].as_str()) {
        LineTok::Num(b) => b,
        _ => {
            return (Shape::NoShape, start + 4);
        },
    };
    proof {
        assert(toks[3] == tok_of(lines@[start as int + 3]@));
    }
    if start + 4 >= n {
        return (Shape::NoShape, start + 4);
    }
    let angle_end = match classify_line(lines[start + 4].as_str()) {
        LineTok::Num(b) => b,
        _ => {
            return (Shape::NoShape, start + 5);
        },
    };
    proof {
        assert(toks[4] == tok_of(lines@[start as int + 4]@));
    }
    let after = if n - start >= 6 {
        start + 6
    } else {
        start + 5
    };
    (
        Shape::Arc { radius, center: Point { x, y }, start: angle_start, end: angle_end },
        after,
    )
}

/// Reads the body of a polyline record: numbers as long as they last,
/// grouped into points; the first line that is no number ends the
/// record and is left for the outer scan.
pub fn read_polyline(lines: &Vec<String>, start: usize) -> (r: (Shape, usize))
    requires
        start <= lines@.len(),
    ensures
        ({
            let (sh, c) = polyline_rec(line_toks(lines@).skip(start as int));
            r.0@ == sh && r.1 == start + c && start <= r.1 <= lines@.len()
        }),
{
    let n = lines.len();
    let ghost toks = line_toks(lines@);
    let mut nums: Vec<u64> = Vec::new();
    let mut i = start;
    proof {
        assert(nums@ + leading_nums(toks.skip(start as int)) =~= leading_nums(
            toks.skip(start as int),
        ));
    }
    loop
        invariant
            start <= i <= n,
            n == lines@.len(),
            toks == line_toks(lines@),
            i == start + nums@.len(),
            leading_nums(toks.skip(start as int)) == nums@ + leading_nums(toks.skip(i as int)),
        ensures
            start <= i <= n,
            i == start + nums@.len(),
            leading_nums(toks.skip(start as int)) == nums@,
        decreases n - i,
    {
        if i >= n {
            proof {
                assert(toks.skip(i as int) =~= Seq::<LineTok>::empty());
                assert(nums@ + leading_nums(toks.skip(i as int)) =~= nums@);
            }
            break;
        }
        let b = match classify_line(lines[i].as_str()) {
            LineTok::Num(b) => b,
            _ => {
                proof {
                    assert(toks.skip(i as int)[0] == tok_of(lines@[i as int]@));
                    assert(nums@ + leading_nums(toks.skip(i as int)) =~= nums@);
                }
                break;
            },
        };
        proof {
            let rest = toks.skip(i as int);
            assert(rest[0] == tok_of(lines@[i as int]@));
            assert(rest.drop_first() =~= toks.skip(i as int + 1));
            assert(leading_nums(rest) == seq![b] + leading_nums(toks.skip(i as int + 1)));
            assert(nums@ + leading_nums(rest) =~= (nums@ + seq![b]) + leading_nums(
                toks.skip(i as int + 1),
            ));
        }
        nums.push(b);
        i = i + 1;
    }
    let mut points: Vec<Point> = Vec::new();
    let mut j: usize = 0;
    while j + 1 < nums.len()
        invariant
            j == 2 * points@.len(),
            j <= nums@.len(),
            forall|k: int|
                0 <= k < points@.len() ==> points@[k] == (Point {
                    x: nums@[2 * k],
                    y: nums@[2 * k + 1],
                }),
        decreases nums@.len() - j,
    {
        points.push(Point { x: nums[j], y: nums[j + 1] });
        j = j + 2;
    }
    proof {
        crate::tokens::lemma_pair_points(nums@);
        assert(j == nums@.len() || j + 1 == nums@.len());
        assert(points@.len() == nums@.len() / 2);
        assert(points@ =~= pair_points(nums@));
    }
    let shape = if points.len() == 0 {
        Shape::NoShape
    } else {
        Shape::Polyline { points }
    };
    (shape, i)
}

/// Decodes a sequence of COR text lines into a document: scans for
/// record keywords, reads each record, and ignores any other line
/// between records. A malformed record degrades to a `NoShape` entry;
/// it never aborts the rest of the document.
pub fn decode_lines(lines: &Vec<String>) -> (doc: Document)
    ensures
        doc@ == decode_toks(line_toks(lines@)),
{
    let ghost toks = line_toks(lines@);
    let mut doc = Document::new();
    let n = lines.len();
    let mut i: usize = 0;
    proof {
        assert(toks.skip(0) =~= toks);
        assert(doc@ + decode_toks(toks) =~= decode_toks(toks));
    }
    while i < n
        invariant
            0 <= i <= n,
            n == lines@.len(),
            toks == line_toks(lines@),
            doc@ + decode_toks(toks.skip(i as int)) == decode_toks(toks),
        decreases n - i,
    {
        let ghost rest = toks.skip(i as int);
        proof {
            assert(rest[0] == tok_of(lines@[i as int]@));
            assert(rest.drop_first() =~= toks.skip(i as int + 1));
        }
        let t = classify_line(lines[i].as_str());
        match t {
            LineTok::KwCi => {
                let (shape, next) = read_circle(lines, i + 1);
                proof {
                    let (sh, c) = circle_rec(toks.skip(i as int + 1));
                    assert(rest.skip(1 + c) =~= toks.skip(i as int + 1 + c));
                    assert(decode_toks(rest) == seq![sh] + decode_toks(
                        toks.skip(i as int + 1 + c),
                    ));
                    assert((doc@ + seq![shape@]) + decode_toks(toks.skip(next as int)) =~= doc@
                        + decode_toks(rest));
                    assert(crate::model::shapes_view(doc.entities@.push(shape)) =~= doc@ + seq![
                        shape@,
                    ]);
                }
                doc.entities.push(shape);
                i = next;
            },
            LineTok::KwArc => {
                let (shape, next) = read_arc(lines, i + 1);
                proof {
                    let (sh, c) = arc_rec(toks.skip(i as int + 1));
                    assert(rest.skip(1 + c) =~= toks.skip(i as int + 1 + c));
                    assert(decode_toks(rest) == seq![sh] + decode_toks(
                        toks.skip(i as int + 1 + c),
                    ));
                    assert((doc@ + seq![shape@]) + decode_toks(toks.skip(next as int)) =~= doc@
                        + decode_toks(rest));
                    assert(crate::model::shapes_view(doc.entities@.push(shape)) =~= doc@ + seq![
                        shape@,
                    ]);
                }
                doc.entities.push(shape);
                i = next;
            },
            LineTok::KwPd => {
                let (shape, next) = read_polyline(lines, i + 1);
                proof {
                    let (sh, c) = polyline_rec(toks.skip(i as int + 1));
                    assert(rest.skip(1 + c) =~= toks.skip(i as int + 1 + c));
                    assert(decode_toks(rest) == seq![sh] + decode_toks(
                        toks.skip(i as int + 1 + c),
                    ));
                    assert((doc@ + seq![shape@]) + decode_toks(toks.skip(next as int)) =~= doc@
                        + decode_toks(rest));
                    assert(crate::model::shapes_view(doc.entities@.push(shape)) =~= doc@ + seq![
                        shape@,
                    ]);
                }
                doc.entities.push(shape);
                i = next;
            },
            _ => {
                i = i + 1;
            },
        }
    }
    proof {
        assert(toks.skip(n as int) =~= Seq::<LineTok>::empty());
        assert(doc@ + decode_toks(toks.skip(n as int)) =~= doc@);
    }
    doc
}

/// The text line of one token: the keyword's canonical spelling, or a
/// number's decimal text with the one leading space the format pads
/// data lines with.
pub open spec fn render_tok(t: LineTok) -> Seq<char> {
    match t {
        LineTok::KwCi => seq!['C', 'I'],
        LineTok::KwArc => seq!['A', 'R', 'C'],
        LineTok::KwPd => seq!['P', 'D'],
        LineTok::KwPu => seq!['P', 'U'],
        LineTok::Num(b) => seq![' '] + fmt_f64_bits(b),
        LineTok::Other => Seq::empty(),
    }
}

/// The text lines of a token list.
pub open spec fn render_toks(toks: Seq<LineTok>) -> Seq<Seq<char>> {
    toks.map_values(|t: LineTok| render_tok(t))
}

/// Whether a shape carries no NaN coordinate. Any other shape's record
/// reads back exactly; a NaN is written as `NaN`, which reads back as
/// the one canonical NaN pattern.
pub open spec fn shape_non_nan(s: ShapeV) -> bool {
    match s {
        ShapeV::NoShape => true,
        ShapeV::Circle { radius, center } => !is_nan_bits(radius) && !is_nan_bits(center.x)
            && !is_nan_bits(center.y),
        ShapeV::Arc { radius, center, start, end } => !is_nan_bits(radius) && !is_nan_bits(
            center.x,
        ) && !is_nan_bits(center.y) && !is_nan_bits(start) && !is_nan_bits(end),
        ShapeV::Polyline { points } => forall|i: int|
            0 <= i < points.len() ==> !is_nan_bits(#[trigger] points[i].x) && !is_nan_bits(
                points[i].y,
            ),
    }
}

/// Whether no shape of the document carries a NaN coordinate.
pub open spec fn doc_non_nan(shapes: Seq<ShapeV>) -> bool {
    forall|i: int| 0 <= i < shapes.len() ==> shape_non_nan(#[trigger] shapes[i])
}

/// One numeric data line: the value's decimal text behind one space.
/// Classifying the line yields the value back, NaN patterns aside.
fn num_line(b: u64) -> (line: String)
    ensures
        line@ == render_tok(LineTok::Num(b)),
        !is_nan_bits(b) ==> tok_of(line@) == LineTok::Num(b),
{
    let text = format_f64_bits(b);
    let mut line = String::from_str(" ");
    line.append(text.as_str());
    proof {
        reveal_strlit(" ");
        assert((" "@) =~= seq![' ']);
        assert(line@ == seq![' '] + fmt_f64_bits(b));
        assert(line@[0] == ' ');
        lemma_trim_padded(fmt_f64_bits(b));
    }
    line
}

/// Appends the encoded record of one shape to the output lines.
fn push_shape_lines(out: &mut Vec<String>, s: &Shape)
    ensures
        views_of(final(out)@) == views_of(old(out)@) + render_toks(encode_shape_toks(s@)),
        shape_non_nan(s@) ==> line_toks(final(out)@) == line_toks(old(out)@) + encode_shape_toks(
            s@,
        ),
{
    let ghost base = out@;
    match s {
        Shape::NoShape => {
            proof {
                assert(views_of(out@) =~= views_of(base) + render_toks(encode_shape_toks(s@)));
                assert(line_toks(out@) =~= line_toks(base) + encode_shape_toks(s@));
            }
        },
        Shape::Circle { radius, center } => {
            out.push(String::from_str("CI"));
            out.push(num_line(*radius));
            out.push(num_line(center.x));
            out.push(num_line(center.y));
            out.push(String::from_str("PU"));
            proof {
                reveal_strlit("CI");
                reveal_strlit("PU");
                assert(("CI"@) =~= seq!['C', 'I']);
                assert(("PU"@) =~= seq!['P', 'U']);
                assert(views_of(out@) =~= views_of(base) + render_toks(encode_shape_toks(s@)));
                if shape_non_nan(s@) {
                    assert(line_toks(out@) =~= line_toks(base) + encode_shape_toks(s@));
                }
            }
        },
        Shape::Arc { radius, center, start, end } => {
            out.push(String::from_str("ARC"));
            out.push(num_line(center.x));
            out.push(num_line(center.y));
            out.push(num_line(*radius));
            out.push(num_line(*start));
            out.push(num_line(*end));
            out.push(String::from_str("PU"));
            proof {
                reveal_strlit("ARC");
                reveal_strlit("PU");
                assert(("ARC"@) =~= seq!['A', 'R', 'C']);
                assert(("PU"@) =~= seq!['P', 'U']);
                assert(views_of(out@) =~= views_of(base) + render_toks(encode_shape_toks(s@)));
                if shape_non_nan(s@) {
                    assert(line_toks(out@) =~= line_toks(base) + encode_shape_toks(s@));
                }
            }
        },
        Shape::Polyline { points } => {
            let ghost nn = shape_non_nan(s@);
            out.push(String::from_str("PD"));
            proof {
                reveal_strlit("PD");
                assert(("PD"@) =~= seq!['P', 'D']);
                assert(points@.take(0) =~= Seq::<Point>::empty());
                assert(points_toks(points@.take(0)) =~= Seq::<LineTok>::empty());
                assert(s@ == ShapeV::Polyline { points: points@ });
                if nn {
                    assert(forall|i: int|
                        0 <= i < points@.len() ==> !is_nan_bits(#[trigger] points@[i].x)
                            && !is_nan_bits(points@[i].y));
                }
            }
            let m = points.len();
            let mut k: usize = 0;
            while k < m
                invariant
                    0 <= k <= m,
                    m == points@.len(),
                    nn == shape_non_nan(s@),
                    nn ==> forall|i: int|
                        0 <= i < points@.len() ==> !is_nan_bits(#[trigger] points@[i].x)
                            && !is_nan_bits(points@[i].y),
                    views_of(out@) == views_of(base) + seq![seq!['P', 'D']] + render_toks(
                        points_toks(points@.take(k as int)),
                    ),
                    nn ==> line_toks(out@) == line_toks(base) + seq![LineTok::KwPd] + points_toks(
                        points@.take(k as int),
                    ),
                decreases m - k,
            {
                let ghost before = out@;
                out.push(num_line(points[k].x));
                out.push(num_line(points[k].y));
                proof {
                    let px = points@[k as int].x;
                    let py = points@[k as int].y;
                    let prefix = points@.take(k as int);
                    let prefix1 = points@.take(k as int + 1);
                    lemma_points_toks_len(prefix);
                    assert(prefix1 =~= prefix + seq![points@[k as int]]);
                    lemma_points_toks_app(prefix, seq![points@[k as int]]);
                    assert(seq![points@[k as int]].drop_first() =~= Seq::<Point>::empty());
                    assert(points_toks(Seq::<Point>::empty()) =~= Seq::<LineTok>::empty());
                    assert(points_toks(prefix1) =~= points_toks(prefix) + seq![
                        LineTok::Num(px),
                        LineTok::Num(py),
                    ]);
                    assert(views_of(out@) =~= views_of(before) + seq![
                        render_tok(LineTok::Num(px)),
                        render_tok(LineTok::Num(py)),
                    ]);
                    assert(render_toks(points_toks(prefix1)) =~= render_toks(points_toks(prefix))
                        + seq![render_tok(LineTok::Num(px)), render_tok(LineTok::Num(py))]);
                    assert(views_of(out@) =~= views_of(base) + seq![seq!['P', 'D']] + render_toks(
                        points_toks(prefix1),
                    ));
                    if nn {
                        assert(!is_nan_bits(px) && !is_nan_bits(py));
                        assert(line_toks(out@) =~= line_toks(before) + seq![
                            LineTok::Num(px),
                            LineTok::Num(py),
                        ]);
                        assert(line_toks(out@) =~= line_toks(base) + seq![LineTok::KwPd]
                            + points_toks(prefix1));
                    }
                }
                k = k + 1;
            }
            let ghost whole = out@;
            out.push(String::from_str("PU"));
            proof {
                reveal_strlit("PU");
                assert(("PU"@) =~= seq!['P', 'U']);
                assert(points@.take(m as int) =~= points@);
                lemma_points_toks_len(points@);
                assert(views_of(out@) =~= views_of(whole) + seq![seq!['P', 'U']]);
                assert(encode_shape_toks(s@) == seq![LineTok::KwPd] + points_toks(points@) + seq![
                    LineTok::KwPu,
                ]);
                assert(views_of(out@) =~= views_of(base) + render_toks(encode_shape_toks(s@)));
                if shape_non_nan(s@) {
                    assert(line_toks(out@) =~= line_toks(whole) + seq![LineTok::KwPu]);
                    assert(line_toks(out@) =~= line_toks(base) + encode_shape_toks(s@));
                }
            }
        },
    }
}

/// Encodes a document into COR text lines: each shape's record —
/// keyword, numeric fields, `PU` terminator — in document order;
/// `NoShape` entries are skipped. Classifying the output lines yields
/// the encoder's tokens back, so a document without NaN coordinates
/// decodes to itself.
pub fn encode_lines(doc: &Document) -> (lines: Vec<String>)
    ensures
        views_of(lines@) == render_toks(encode_toks(doc@)),
        doc_non_nan(doc@) ==> line_toks(lines@) == encode_toks(doc@),
{
    let mut out: Vec<String> = Vec::new();
    let n = doc.entities.len();
    let mut i: usize = 0;
    proof {
        assert(doc@.take(0) =~= Seq::<ShapeV>::empty());
        assert(views_of(out@) =~= render_toks(encode_toks(doc@.take(0))));
        assert(line_toks(out@) =~= encode_toks(doc@.take(0)));
    }
    while i < n
        invariant
            0 <= i <= n,
            n == doc.entities@.len(),
            views_of(out@) == render_toks(encode_toks(doc@.take(i as int))),
            doc_non_nan(doc@) ==> line_toks(out@) == encode_toks(doc@.take(i as int)),
        decreases n - i,
    {
        push_shape_lines(&mut out, &doc.entities[i]);
        proof {
            let shape = doc@[i as int];
            let prefix = doc@.take(i as int);
            let prefix1 = doc@.take(i as int + 1);
            assert(prefix1 =~= prefix + seq![shape]);
            lemma_encode_toks_app(prefix, seq![shape]);
            assert(seq![shape].drop_first() =~= Seq::<ShapeV>::empty());
            assert(encode_toks(Seq::<ShapeV>::empty()) =~= Seq::<LineTok>::empty());
            assert(encode_toks(seq![shape]) =~= encode_shape_toks(shape));
            assert(views_of(out@) =~= render_toks(encode_toks(prefix1)));
            if doc_non_nan(doc@) {
                assert(shape_non_nan(shape));
                assert(line_toks(out@) =~= encode_toks(prefix1));
            }
        }
        i = i + 1;
    }
    proof {
        assert(doc@.take(n as int) =~= doc@);
    }
    out
}

/// Round trip: where `encode_lines` wrote a document of circles, arcs
/// and nonempty polylines — its second postcondition holds of every
/// document without NaN coordinates — `decode_lines` reads the same
/// document back from those lines, order preserved.
pub proof fn lemma_lines_round_trip(shapes: Seq<ShapeV>, lines: Seq<String>)
    requires
        line_toks(lines) == encode_toks(shapes),
        forall|i: int| 0 <= i < shapes.len() ==> round_trippable(#[trigger] shapes[i]),
    ensures
        decode_toks(line_toks(lines)) == shapes,
{
    lemma_encode_then_decode(shapes);
}

} // verus!
