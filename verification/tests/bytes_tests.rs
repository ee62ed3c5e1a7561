use spur_api::bytes::format_bytes;

fn float_rendering(bytes: u64) -> String {
    let kib = 1024.0;
    let mib = 1024.0 * 1024.0;
    let gib = 1024.0 * 1024.0 * 1024.0;
    if bytes >= gib as u64 {
        format!("{:.1} GiB", bytes as f64 / gib)
    } else if bytes >= mib as u64 {
        format!("{:.1} MiB", bytes as f64 / mib)
    } else if bytes >= kib as u64 {
        format!("{:.1} KiB", bytes as f64 / kib)
    } else {
        format!("{bytes} bytes")
    }
}

#[test]
fn format_bytes_matches_double_rendering() {
    let mut samples: Vec<u64> = vec![0, 1, 512, 1023, 1024, 1075, 1126, 1127, 1229, 1280, 1331, 1536, 1792];
    for unit in [1024u64, 1048576, 1073741824] {
        for k in 0..200u64 {
            samples.push(unit + k * unit / 20);
            samples.push(unit + k * unit / 20 + 1);
            samples.push(unit + k * unit / 20 - 1);
            samples.push(unit * (k + 1) + unit / 4);
            samples.push(unit * (k + 1) + unit * 3 / 4);
        }
    }
    samples.push(u64::MAX);
    samples.push(u64::MAX - 1024);
    samples.push(1 << 53);
    samples.push((1 << 53) + 1);
    samples.push((1 << 54) + 2);
    samples.push((1 << 54) + 6);
    samples.push(9_007_199_254_740_993);
    let mut x: u64 = 0x9E37_79B9_7F4A_7C15;
    for _ in 0..20000 {
        x ^= x << 13;
        x ^= x >> 7;
        x ^= x << 17;
        samples.push(x);
        samples.push(x >> (x % 64));
    }
    for b in samples {
        assert_eq!(format_bytes(b), float_rendering(b), "bytes = {b}");
    }
}

#[test]
fn format_bytes_uses_binary_units() {
    assert_eq!(format_bytes(0), "0 bytes");
    assert_eq!(format_bytes(512), "512 bytes");
    assert_eq!(format_bytes(8_388_608), "8.0 MiB");
    assert_eq!(format_bytes(1_073_741_824), "1.0 GiB");
}
