use ponchi::raster::{pixmap_size, svg_to_png, tree_to_png, FontWarning, RasterContext, RasterError};

#[test]
fn raster_renders_minimal_svg() {
    let svg = r##"<svg xmlns="http://www.w3.org/2000/svg" width="20" height="20" viewBox="0 0 20 20"><rect width="20" height="20" fill="#000000"/></svg>"##;
    let png = svg_to_png(svg, None, "Yomogi").unwrap();
    assert_eq!(&png[..4], &[0x89, b'P', b'N', b'G']);
}

#[test]
fn unparsable_svg_is_a_parse_error() {
    let ctx = RasterContext::new(None, "Yomogi");
    match ctx.render_png("this is not svg") {
        Err(RasterError::Parse(m)) => assert!(!m.is_empty()),
        other => panic!("expected a parse error, got {other:?}"),
    }
}

#[test]
fn context_is_reusable() {
    let ctx = RasterContext::new(None, "Yomogi");
    let svg = r##"<svg xmlns="http://www.w3.org/2000/svg" width="3" height="2"><rect width="3" height="2" fill="#ff0000"/></svg>"##;
    let a = ctx.render_png(svg).unwrap();
    let b = ctx.render_png(svg).unwrap();
    assert_eq!(a, b);
}

#[test]
fn raster_error_messages() {
    assert_eq!(RasterError::Parse("bad".to_string()).message(), "SVG parse error: bad");
    assert_eq!(RasterError::Alloc.message(), "pixmap allocation failed");
    assert_eq!(RasterError::Encode("x".to_string()).message(), "PNG encode error: x");
    let io = RasterError::Io(std::io::Error::new(std::io::ErrorKind::Other, "disk"));
    assert_eq!(io.message(), "io error: disk");
}

fn png_dims(png: &[u8]) -> (u32, u32) {
    let w = u32::from_be_bytes([png[16], png[17], png[18], png[19]]);
    let h = u32::from_be_bytes([png[20], png[21], png[22], png[23]]);
    (w, h)
}

#[test]
fn pixmap_size_rounds_up_with_one_pixel_minimum() {
    let p = |w: f32, h: f32| pixmap_size(w.to_bits(), h.to_bits());
    assert_eq!(p(3.0, 2.0), (3, 2));
    assert_eq!(p(2.5, 0.0), (3, 1));
    assert_eq!(p(0.2, -4.0), (1, 1));
    assert_eq!(p(f32::NAN, 7.01), (1, 8));
    assert_eq!(p(1.0e10, 1.0), (u32::MAX, 1));
}

#[test]
fn png_declares_the_rounded_document_size() {
    let ctx = RasterContext::new(None, "Yomogi");
    let svg = r##"<svg xmlns="http://www.w3.org/2000/svg" width="3" height="2"><rect width="3" height="2" fill="#ff0000"/></svg>"##;
    let png = ctx.render_png(svg).unwrap();
    assert_eq!(&png[..8], &[137, 80, 78, 71, 13, 10, 26, 10]);
    assert_eq!(png_dims(&png), (3, 2));
    let svg = r##"<svg xmlns="http://www.w3.org/2000/svg" width="2.5" height="1.2"><rect width="2" height="1" fill="#00ff00"/></svg>"##;
    let tree = ctx.parse(svg).unwrap();
    let png = tree_to_png(&tree).unwrap();
    assert_eq!(png_dims(&png), (3, 2));
}

#[test]
fn parse_refuses_non_svg() {
    let ctx = RasterContext::new(None, "Yomogi");
    assert!(matches!(ctx.parse("<svg width="), Err(RasterError::Parse(_))));
}

#[test]
fn font_warning_message_quotes_the_family() {
    assert_eq!(
        FontWarning::FamilyMissing("Yomogi".to_string()).message(),
        "warning: font family \"Yomogi\" not found in font database; text will fall back to another font"
    );
    assert_eq!(
        FontWarning::FamilyMissing("Yo\"mogi".to_string()).message(),
        "warning: font family \"Yo\\\"mogi\" not found in font database; text will fall back to another font"
    );
}

#[test]
fn context_warns_only_about_a_missing_family() {
    let ctx = RasterContext::new(None, "No Such Family Xyzzy");
    assert_eq!(ctx.warnings(), &vec![FontWarning::FamilyMissing("No Such Family Xyzzy".to_string())]);
    let ctx = RasterContext::new(Some("/nonexistent/ponchi-fonts"), "No Such Family Xyzzy");
    assert_eq!(ctx.warnings(), &vec![FontWarning::FamilyMissing("No Such Family Xyzzy".to_string())]);
}

#[test]
fn bytes_that_are_not_a_font_add_no_face() {
    let ctx = RasterContext::with_font_data(b"not a font", None, "No Such Family Xyzzy");
    assert_eq!(ctx.warnings().len(), 1);
    let svg = r##"<svg xmlns="http://www.w3.org/2000/svg" width="4" height="4"><text x="0" y="4">a</text></svg>"##;
    assert_eq!(png_dims(&ctx.render_png(svg).unwrap()), (4, 4));
}

#[test]
fn refused_size_is_a_parse_error() {
    let ctx = RasterContext::new(None, "Yomogi");
    let svg = r##"<svg xmlns="http://www.w3.org/2000/svg" width="0" height="10"></svg>"##;
    match ctx.render_png(svg) {
        Err(RasterError::Parse(m)) => assert_eq!(m, "SVG has an invalid size"),
        other => panic!("expected a parse error, got {other:?}"),
    }
}
