use slint_clash::rate::format_rate;

#[test]
fn formats_transfer_rates_without_mislabeling_bytes() {
    assert_eq!(format_rate(0), "0 B/s");
    assert_eq!(format_rate(512), "512 B/s");
    assert_eq!(format_rate(1024), "1.0 KiB/s");
    assert_eq!(format_rate(1_048_576), "1.00 MiB/s");
}

fn by_doubles(bytes: u64) -> String {
    let kib: f64 = 1024.0;
    let mib: f64 = kib * 1024.0;
    let gib: f64 = mib * 1024.0;
    let value = bytes as f64;
    if value < kib {
        format!("{value:.0} B/s")
    } else if value < mib {
        format!("{:.1} KiB/s", value / kib)
    } else if value < gib {
        format!("{:.2} MiB/s", value / mib)
    } else {
        format!("{:.2} GiB/s", value / gib)
    }
}

#[test]
fn agrees_with_double_precision_formatting() {
    for bytes in 0..70_000_u64 {
        assert_eq!(format_rate(bytes), by_doubles(bytes));
    }
    for shift in 0..64_u32 {
        let power = 1_u64 << shift;
        for offset in 0..40_u64 {
            for bytes in [power.saturating_sub(offset), power.saturating_add(offset)] {
                assert_eq!(format_rate(bytes), by_doubles(bytes));
            }
        }
    }
    let mut state: u64 = 0x9e37_79b9_7f4a_7c15;
    for round in 0..50_000_u32 {
        state ^= state << 13;
        state ^= state >> 7;
        state ^= state << 17;
        let bytes = state >> (round % 64);
        assert_eq!(format_rate(bytes), by_doubles(bytes));
    }
    assert_eq!(format_rate(u64::MAX), by_doubles(u64::MAX));
}

#[test]
fn ties_go_to_the_even_digit() {
    assert_eq!(format_rate(1024 + 256), "1.2 KiB/s");
    assert_eq!(format_rate(1024 + 768), "1.8 KiB/s");
    assert_eq!(format_rate(1_048_576 + 131_072), "1.12 MiB/s");
    assert_eq!(format_rate(1_048_576 + 393_216), "1.38 MiB/s");
}

#[test]
fn rates_just_below_a_unit_stay_in_the_smaller_one() {
    assert_eq!(format_rate(1023), "1023 B/s");
    assert_eq!(format_rate(1_048_575), "1024.0 KiB/s");
    assert_eq!(format_rate(1_073_741_823), "1024.00 MiB/s");
    assert_eq!(format_rate(1_073_741_824), "1.00 GiB/s");
    assert_eq!(format_rate(u64::MAX), "17179869184.00 GiB/s");
}
