use parallax::capture::{capture_size, composite_cursor, validate_display_name, CursorImage};

fn cursor(x: i16, y: i16, width: u16, height: u16, pixels: Vec<u64>) -> CursorImage {
    CursorImage { x, y, width, height, xhot: 0, yhot: 0, pixels }
}

#[test]
fn display_names() {
    assert_eq!(validate_display_name("  "), Err("X11 display cannot be empty".to_string()));
    assert_eq!(
        validate_display_name(":0\0"),
        Err("X11 display contains an interior null byte".to_string())
    );
    assert_eq!(validate_display_name(":0"), Ok(()));
}

#[test]
fn capture_is_at_most_full_hd() {
    assert_eq!(capture_size(2560, 1440), (1920, 1080));
    assert_eq!(capture_size(800, 600), (800, 600));
    assert_eq!(capture_size(1920, 1200), (1920, 1080));
}

#[test]
fn half_transparent_cursor_blends() {
    let mut buf = vec![10u8; 16];
    let c = cursor(1, 0, 1, 1, vec![0x80FF_0000]);
    composite_cursor(&mut buf, 2, 2, &c);
    // pixel (1, 0) starts at byte 4: blue, green, red, alpha
    assert_eq!(&buf[4..8], &[4, 4, 132, 255]);
    assert_eq!(&buf[0..4], &[10, 10, 10, 10]);
    assert_eq!(&buf[8..16], &[10u8; 8]);
}

#[test]
fn opaque_cursor_replaces_and_transparent_leaves() {
    let mut buf = vec![0u8; 16];
    let c = CursorImage {
        x: 1,
        y: 1,
        width: 2,
        height: 1,
        xhot: 1,
        yhot: 0,
        pixels: vec![0xFF11_2233, 0x0044_5566],
    };
    composite_cursor(&mut buf, 2, 2, &c);
    // the hot spot puts the cursor's first pixel at (0, 1)
    assert_eq!(&buf[8..12], &[0x33, 0x22, 0x11, 0xff]);
    assert_eq!(&buf[12..16], &[0, 0, 0, 0]);
    assert_eq!(&buf[0..8], &[0u8; 8]);
}

#[test]
fn cursor_outside_the_frame_changes_nothing() {
    let mut buf = vec![5u8; 16];
    composite_cursor(&mut buf, 2, 2, &cursor(-3, 7, 1, 1, vec![0xFFFF_FFFF]));
    assert_eq!(buf, vec![5u8; 16]);
    let mut short = vec![5u8; 6];
    composite_cursor(&mut short, 2, 2, &cursor(1, 0, 1, 1, vec![0xFFFF_FFFF]));
    assert_eq!(short, vec![5u8; 6]);
}

#[test]
fn only_the_low_32_bits_are_the_pixel() {
    let mut buf = vec![0u8; 4];
    composite_cursor(&mut buf, 1, 1, &cursor(0, 0, 1, 1, vec![0xABCD_0000_FF01_0203]));
    assert_eq!(buf, vec![3, 2, 1, 255]);
}
