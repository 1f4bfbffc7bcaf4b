use termgl::printer::{Color, Printer, PrinterType};

const START: &[u8] = b"\x1b[H\x1b[?25l";

/// The color the printer reads for a float color, as the pipeline builds it.
fn color(r: f32, g: f32, b: f32) -> Color {
    Color::new(
        (r * 255.0) as u32,
        (g * 255.0) as u32,
        (b * 255.0) as u32,
        r.to_bits(),
        g.to_bits(),
        b.to_bits(),
    )
}

#[test]
fn new_halves_the_pixel_height() {
    let p = Printer::new(PrinterType::Ascii, 3, 5);
    assert_eq!(p.width, 3);
    assert_eq!(p.height, 2);
    assert!(p.buff.is_empty());
    assert!(!p.carriage_return);
}

#[test]
fn resize_halves_the_pixel_height() {
    let mut p = Printer::new(PrinterType::Color, 3, 5);
    p.resize(10, 9);
    assert_eq!(p.width, 10);
    assert_eq!(p.height, 4);
    assert!(p.printer_type == PrinterType::Color);
}

#[test]
fn ascii_frame_uses_the_ramp() {
    let mut p = Printer::new(PrinterType::Ascii, 2, 2);
    let levels = vec![0usize, 9];
    assert!(p.accepts(&[], &levels));
    p.print(&[], &levels);
    let mut expected = START.to_vec();
    expected.extend_from_slice(b"\n @");
    assert_eq!(p.buff, expected);
}

#[test]
fn ascii_every_level() {
    let mut p = Printer::new(PrinterType::Ascii, 10, 2);
    let levels: Vec<usize> = (0..10).collect();
    p.print(&[], &levels);
    let mut expected = START.to_vec();
    expected.extend_from_slice(b"\n .:-=+*#%@");
    assert_eq!(p.buff, expected);
}

#[test]
fn ascii_rows_are_row_major() {
    let mut p = Printer::new(PrinterType::Ascii, 2, 4);
    p.print(&[], &[9, 8, 1, 0]);
    let mut expected = START.to_vec();
    expected.extend_from_slice(b"\n@%\n. ");
    assert_eq!(p.buff, expected);
}

#[test]
fn ascii_line_breaks_with_carriage_return() {
    let mut p = Printer::new(PrinterType::Ascii, 1, 4);
    p.carriage_return = true;
    p.print(&[], &[0, 0]);
    let mut expected = START.to_vec();
    expected.extend_from_slice(b"\r\n \r\n ");
    assert_eq!(p.buff, expected);
}

#[test]
fn ascii_frame_length_is_one_character_per_cell() {
    let mut p = Printer::new(PrinterType::Ascii, 7, 6);
    p.print(&[], &vec![3; 21]);
    assert_eq!(p.buff.len(), 9 + 3 * (1 + 7));
}

#[test]
fn color_frame_half_block() {
    let mut p = Printer::new(PrinterType::Color, 1, 2);
    let colors = vec![color(1.0, 0.0, 0.0), color(0.0, 0.0, 1.0)];
    assert!(p.accepts(&colors, &[]));
    p.print(&colors, &[]);
    let mut expected = START.to_vec();
    expected.extend_from_slice(b"\x1b[38;2;0;0;0m\x1b[48;2;0;0;0m\n");
    expected.extend_from_slice(b"\x1b[38;2;255;0;0m\x1b[48;2;0;0;255m");
    expected.extend_from_slice("▀".as_bytes());
    assert_eq!(p.buff, expected);
}

#[test]
fn color_codes_only_on_change() {
    let mut p = Printer::new(PrinterType::Color, 2, 2);
    let colors = vec![
        color(0.5, 0.25, 0.125),
        color(0.5, 0.25, 0.125),
        color(0.0, 0.0, 0.0),
        color(0.25, 0.5, 1.0),
    ];
    p.print(&colors, &[]);
    let mut expected = START.to_vec();
    expected.extend_from_slice(b"\x1b[38;2;0;0;0m\x1b[48;2;0;0;0m\n");
    // first cell: foreground changes, background stays black
    expected.extend_from_slice(b"\x1b[38;2;127;63;31m");
    expected.extend_from_slice("▀".as_bytes());
    // second cell: foreground stays, background changes
    expected.extend_from_slice(b"\x1b[48;2;63;127;255m");
    expected.extend_from_slice("▀".as_bytes());
    assert_eq!(p.buff, expected);
}

#[test]
fn color_codes_follow_float_equality_not_rounding() {
    // 0.1100 and 0.1112 both give channel 28, but they differ as floats, so
    // a new code is written for the second cell
    let mut p = Printer::new(PrinterType::Color, 2, 2);
    let a = color(0.1100, 0.1100, 0.1100);
    let b = color(0.1112, 0.1112, 0.1112);
    p.print(&[a, b, color(0.0, 0.0, 0.0), color(0.0, 0.0, 0.0)], &[]);
    let mut expected = START.to_vec();
    expected.extend_from_slice(b"\x1b[38;2;0;0;0m\x1b[48;2;0;0;0m\n");
    expected.extend_from_slice(b"\x1b[38;2;28;28;28m");
    expected.extend_from_slice("▀".as_bytes());
    expected.extend_from_slice(b"\x1b[38;2;28;28;28m");
    expected.extend_from_slice("▀".as_bytes());
    assert_eq!(p.buff, expected);
}

#[test]
fn negative_zero_equals_zero() {
    // -0.0 compares equal to the initial black, so no code is written
    let mut p = Printer::new(PrinterType::Color, 1, 2);
    let z = color(-0.0, -0.0, -0.0);
    p.print(&[z, z], &[]);
    let mut expected = START.to_vec();
    expected.extend_from_slice(b"\x1b[38;2;0;0;0m\x1b[48;2;0;0;0m\n");
    expected.extend_from_slice("▀".as_bytes());
    assert_eq!(p.buff, expected);
}

#[test]
fn nan_never_equals() {
    // a NaN channel never compares equal: each cell writes its codes again
    let mut p = Printer::new(PrinterType::Color, 2, 2);
    let n = color(f32::NAN, 0.0, 0.0);
    p.print(&[n, n, n, n], &[]);
    let code_fg = b"\x1b[38;2;0;0;0m";
    let code_bg = b"\x1b[48;2;0;0;0m";
    let mut expected = START.to_vec();
    expected.extend_from_slice(code_fg);
    expected.extend_from_slice(code_bg);
    expected.extend_from_slice(b"\n");
    for _ in 0..2 {
        expected.extend_from_slice(code_fg);
        expected.extend_from_slice(code_bg);
        expected.extend_from_slice("▀".as_bytes());
    }
    assert_eq!(p.buff, expected);
}

#[test]
fn print_replaces_the_previous_frame() {
    let mut p = Printer::new(PrinterType::Ascii, 1, 2);
    p.print(&[], &[9]);
    p.print(&[], &[0]);
    let mut expected = START.to_vec();
    expected.extend_from_slice(b"\n ");
    assert_eq!(p.buff, expected);
}

#[test]
fn empty_frame_is_just_the_header() {
    let mut p = Printer::new(PrinterType::Color, 0, 1);
    p.print(&[], &[]);
    let mut expected = START.to_vec();
    expected.extend_from_slice(b"\x1b[38;2;0;0;0m\x1b[48;2;0;0;0m");
    assert_eq!(p.buff, expected);
}

#[test]
fn accepts_rejects_short_frames() {
    let p = Printer::new(PrinterType::Color, 2, 2);
    let black = color(0.0, 0.0, 0.0);
    assert!(!p.accepts(&[black; 3], &[]));
    assert!(p.accepts(&[black; 5], &[]));
    let a = Printer::new(PrinterType::Ascii, 2, 4);
    assert!(!a.accepts(&[], &[0, 0, 0]));
    assert!(a.accepts(&[], &[0, 0, 0, 0]));
}

#[test]
fn accepts_rejects_levels_past_the_ramp() {
    let ascii = Printer::new(PrinterType::Ascii, 1, 2);
    assert!(!ascii.accepts(&[], &[10]));
    assert!(ascii.accepts(&[], &[9]));
    // levels are not read in color mode
    let c = Printer::new(PrinterType::Color, 1, 2);
    let white = color(1.0, 1.0, 1.0);
    assert!(c.accepts(&[white, white], &[10]));
}
