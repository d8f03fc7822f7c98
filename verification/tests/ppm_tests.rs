use fractals::image::encode_ppm;

#[test]
fn ppm_two_pixels() {
    let bytes = encode_ppm(2, 1, &vec![(1, 2, 3), (4, 5, 6)]);
    assert_eq!(bytes, b"P6\n2 1\n255\n\x01\x02\x03\x04\x05\x06".to_vec());
}

#[test]
fn ppm_header_of_full_hd() {
    assert_eq!(encode_ppm(1920, 1080, &vec![]), b"P6\n1920 1080\n255\n".to_vec());
}

#[test]
fn ppm_header_of_zero_size() {
    assert_eq!(encode_ppm(0, 0, &vec![]), b"P6\n0 0\n255\n".to_vec());
}

#[test]
fn ppm_header_fits_reserved_space() {
    let bytes = encode_ppm(u32::MAX, u32::MAX, &vec![]);
    assert_eq!(bytes, b"P6\n4294967295 4294967295\n255\n".to_vec());
    assert!(bytes.len() <= 32);
}

#[test]
fn ppm_layout() {
    let pixels = vec![(10, 20, 30), (40, 50, 60), (70, 80, 90)];
    let bytes = encode_ppm(3, 1, &pixels);
    let header = b"P6\n3 1\n255\n".len();
    assert_eq!(bytes.len(), header + 9);
    for (k, &(r, g, b)) in pixels.iter().enumerate() {
        assert_eq!(&bytes[header + 3 * k..header + 3 * k + 3], &[r, g, b]);
    }
}

#[test]
fn ppm_decimal_round_trip() {
    for n in [0u32, 7, 10, 99, 100, 65535, 1_000_000] {
        let bytes = encode_ppm(n, 1, &vec![]);
        let text = String::from_utf8(bytes).unwrap();
        let w: u32 = text[3..].split(' ').next().unwrap().parse().unwrap();
        assert_eq!(w, n);
    }
}
