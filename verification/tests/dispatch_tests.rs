use cor_convert::dispatch::{conversion_for, output_name, Conversion};

#[test]
fn extension_selects_direction() {
    assert_eq!(conversion_for("drawing.dxf"), Conversion::DxfToCor);
    assert_eq!(conversion_for("drawing.cor"), Conversion::CorToDxf);
    assert_eq!(conversion_for("DRAWING.DXF"), Conversion::DxfToCor);
    assert_eq!(conversion_for("plot.CoR"), Conversion::CorToDxf);
}

#[test]
fn unsupported_extension_is_reported_not_converted() {
    assert_eq!(conversion_for("notes.txt"), Conversion::Unsupported);
    assert_eq!(conversion_for("archive.cor.bak"), Conversion::Unsupported);
    assert_eq!(conversion_for("noext"), Conversion::Unsupported);
    assert_eq!(conversion_for(""), Conversion::Unsupported);
}

#[test]
fn last_dot_decides_the_extension() {
    assert_eq!(conversion_for("a.b.dxf"), Conversion::DxfToCor);
    // A name without any dot is its own extension.
    assert_eq!(conversion_for("dxf"), Conversion::DxfToCor);
}

#[test]
fn output_name_uses_stem_before_first_dot() {
    assert_eq!(output_name("drawing.cor", Conversion::CorToDxf), "drawing_out.dxf");
    assert_eq!(output_name("drawing.dxf", Conversion::DxfToCor), "drawing_out.cor");
    assert_eq!(output_name("a.b.dxf", Conversion::DxfToCor), "a_out.cor");
}
