use ponchi::backend::{color_rgba, rgb_hex};

#[test]
fn reads_hex_colors() {
    assert_eq!(color_rgba("#ffffff"), (255, 255, 255, 255));
    assert_eq!(color_rgba("#1f6feb"), (0x1f, 0x6f, 0xeb, 255));
    assert_eq!(color_rgba("#abc"), (0xaa, 0xbb, 0xcc, 255));
    assert_eq!(color_rgba("#11223344"), (0x11, 0x22, 0x33, 0x44));
    assert_eq!(color_rgba("ABCDEF"), (0xab, 0xcd, 0xef, 255));
}

#[test]
fn malformed_colors_read_as_black_or_zero() {
    assert_eq!(color_rgba("red"), (0, 0xee, 0xdd, 255));
    assert_eq!(color_rgba("#12345"), (0, 0, 0, 255));
    assert_eq!(color_rgba("#zz0000"), (0, 0, 0, 255));
    assert_eq!(color_rgba("#+f+f+f"), (15, 15, 15, 255));
}

#[test]
fn writes_rrggbb() {
    assert_eq!(rgb_hex(0, 15, 255), "#000fff");
    assert_eq!(rgb_hex(0x1f, 0x6f, 0xeb), "#1f6feb");
}

#[test]
fn read_then_write_round_trips() {
    for c in ["#3a3a3a", "#f6f6f6", "#9a6700", "#cf222e"] {
        let (r, g, b, _) = color_rgba(c);
        assert_eq!(rgb_hex(r, g, b), c);
    }
}
