use parallax::qr::{qr_to_image, scale_modules};

#[test]
fn modules_become_squares() {
    let img = scale_modules(2, &[true, false, false, true], 2).unwrap();
    assert_eq!(img.size, 4);
    let rows: Vec<Vec<bool>> = img.dark.chunks(4).map(|r| r.to_vec()).collect();
    assert_eq!(
        rows,
        vec![
            vec![true, true, false, false],
            vec![true, true, false, false],
            vec![false, false, true, true],
            vec![false, false, true, true],
        ]
    );
    let empty = scale_modules(2, &[true, false, false, true], 0).unwrap();
    assert_eq!(empty.size, 0);
    assert!(empty.dark.is_empty());
}

#[test]
fn pairing_uri_draws_its_qr_code() {
    let uri = "prlx://192.168.1.2:40000?streamPort=5000&pin=123456";
    let img = qr_to_image(uri, 4).unwrap();
    let code = qrcode::QrCode::new(uri.as_bytes()).unwrap();
    let width = code.width();
    assert_eq!(img.size, width * 4);
    assert_eq!(img.dark.len(), img.size * img.size);
    for y in 0..img.size {
        for x in 0..img.size {
            let dark = code[(x / 4, y / 4)] == qrcode::Color::Dark;
            assert_eq!(img.dark[y * img.size + x], dark);
        }
    }
}

#[test]
fn text_too_long_for_a_qr_code() {
    let long = "x".repeat(8000);
    assert!(qr_to_image(&long, 1).is_none());
}
