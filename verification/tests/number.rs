use airsim_client::number::{
    double_from_int, double_from_single, magnitude, millis_from_seconds, round_to,
    single_from_double, single_from_int, Precision,
};

fn next(seed: &mut u64) -> u64 {
    *seed = seed.wrapping_mul(6364136223846793005).wrapping_add(1442695040888963407);
    let mut x = *seed;
    x ^= x >> 33;
    x = x.wrapping_mul(0xff51afd7ed558ccd);
    x ^= x >> 29;
    x
}

fn native_single(bits: u64) -> u32 {
    (f64::from_bits(bits) as f32).to_bits()
}

fn same_single(bits: u64) {
    let got = single_from_double(bits);
    let want = native_single(bits);
    if f64::from_bits(bits).is_nan() {
        assert!(f32::from_bits(got).is_nan(), "{:#x}", bits);
        assert_eq!(got >> 31, (bits >> 63) as u32);
    } else {
        assert_eq!(got, want, "{:#x}", bits);
    }
}

#[test]
fn one_is_one() {
    assert_eq!(single_from_double(0x3ff0_0000_0000_0000), 0x3f80_0000);
    assert_eq!(single_from_double(1.0f64.to_bits()), 1.0f32.to_bits());
}

#[test]
fn named_values_narrow_exactly() {
    assert_eq!(single_from_double(0), 0);
    assert_eq!(single_from_double(0x8000_0000_0000_0000), 0x8000_0000);
    assert_eq!(single_from_double(f64::INFINITY.to_bits()), 0x7f80_0000);
    assert_eq!(single_from_double(f64::NEG_INFINITY.to_bits()), 0xff80_0000);
    assert_eq!(single_from_double((-2.5f64).to_bits()), (-2.5f32).to_bits());
    assert_eq!(single_from_double(0.1f64.to_bits()), 0x3dcc_cccd);
    assert_eq!(single_from_double(f64::MAX.to_bits()), 0x7f80_0000);
    assert_eq!(single_from_double(f64::MIN_POSITIVE.to_bits()), 0);
    assert_eq!(single_from_double((f32::MAX as f64).to_bits()), f32::MAX.to_bits());
    assert_eq!(single_from_double((f32::MIN_POSITIVE as f64).to_bits()), 0x0080_0000);
}

#[test]
fn nan_stays_nan() {
    for bits in [
        f64::NAN.to_bits(),
        0x7ff0_0000_0000_0001,
        0xfff0_0000_0000_0001,
        0x7ff8_0000_0000_0000,
        0x7fff_ffff_ffff_ffff,
        0x7ff0_0000_2000_0000,
    ] {
        same_single(bits);
    }
}

#[test]
fn ties_go_to_even() {
    // 1 + 2^-24 lies halfway between 1 and the next single: it goes down.
    assert_eq!(single_from_double(0x3ff0_0000_1000_0000), 0x3f80_0000);
    // 1 + 3 * 2^-24 lies halfway between two singles: it goes up.
    assert_eq!(single_from_double(0x3ff0_0000_3000_0000), 0x3f80_0002);
    // A hair above the halfway point goes up.
    assert_eq!(single_from_double(0x3ff0_0000_1000_0001), 0x3f80_0001);
    // A hair below it goes down.
    assert_eq!(single_from_double(0x3ff0_0000_0fff_ffff), 0x3f80_0000);
}

#[test]
fn rounding_can_carry_into_the_exponent() {
    // The largest double below 2 rounds to 2.
    assert_eq!(single_from_double(0x3fff_ffff_ffff_ffff), 2.0f32.to_bits());
    // Just above the largest single, below the halfway point to 2^128.
    assert_eq!(single_from_double(0x47ef_ffff_e000_0001), f32::MAX.to_bits());
    // At the halfway point the tie goes to the even side, which is infinity.
    assert_eq!(single_from_double(0x47ef_ffff_f000_0000), 0x7f80_0000);
}

#[test]
fn small_doubles_become_subnormal_singles() {
    let smallest = f32::from_bits(1) as f64;
    assert_eq!(single_from_double(smallest.to_bits()), 1);
    assert_eq!(single_from_double((smallest / 2.0).to_bits()), 0);
    assert_eq!(single_from_double((smallest * 0.75).to_bits()), 1);
    assert_eq!(single_from_double((smallest * 1.5).to_bits()), 2);
    assert_eq!(single_from_double((smallest * 2.5).to_bits()), 2);
    assert_eq!(single_from_double((smallest / 1.0e30).to_bits()), 0);
    let largest_subnormal = f32::from_bits(0x007f_ffff) as f64;
    assert_eq!(single_from_double(largest_subnormal.to_bits()), 0x007f_ffff);
}

#[test]
fn narrowing_agrees_with_the_machine_on_any_bits() {
    let mut seed: u64 = 1;
    for _ in 0..20_000 {
        same_single(next(&mut seed));
    }
}

#[test]
fn narrowing_agrees_with_the_machine_near_singles() {
    let mut seed: u64 = 2;
    for _ in 0..20_000 {
        let single = next(&mut seed) as u32;
        if f32::from_bits(single).is_nan() {
            continue;
        }
        let wide = (f32::from_bits(single) as f64).to_bits();
        assert_eq!(single_from_double(wide), single);
        let low = next(&mut seed) & 0x3fff_ffff;
        same_single(wide ^ low);
        same_single(wide | 0x1000_0000);
        same_single((wide & !0x1fff_ffff) | 0x1000_0000);
        same_single(wide.wrapping_add(0x0fff_ffff));
        same_single(wide.wrapping_sub(1));
    }
}

#[test]
fn narrowing_agrees_with_the_machine_below_the_normal_range() {
    let mut seed: u64 = 3;
    for _ in 0..20_000 {
        let r = next(&mut seed);
        let exponent = 0x360 + (r % 0x30);
        let fraction = next(&mut seed) & 0x000f_ffff_ffff_ffff;
        let sign = (r >> 63) << 63;
        same_single(sign | (exponent << 52) | fraction);
        same_single(sign | (exponent << 52));
        same_single(sign | (exponent << 52) | 0x0008_0000_0000_0000);
    }
}

#[test]
fn whole_numbers_become_doubles() {
    assert_eq!(double_from_int(0), 0);
    assert_eq!(double_from_int(1), 1.0f64.to_bits());
    assert_eq!(double_from_int(-1), (-1.0f64).to_bits());
    assert_eq!(double_from_int(20), 20.0f64.to_bits());
    assert_eq!(double_from_int(u64::MAX as i128), (u64::MAX as f64).to_bits());
    assert_eq!(double_from_int(i64::MIN as i128), (i64::MIN as f64).to_bits());
    assert_eq!(double_from_int((1i128 << 53) + 1), ((1u64 << 53) as f64).to_bits());
    assert_eq!(double_from_int((1i128 << 53) + 3), (((1u64 << 53) + 4) as f64).to_bits());
    assert_eq!(double_from_int(i128::MIN), (i128::MIN as f64).to_bits());
    assert_eq!(double_from_int(i128::MAX), (i128::MAX as f64).to_bits());
}

#[test]
fn whole_numbers_agree_with_the_machine() {
    let mut seed: u64 = 4;
    for _ in 0..20_000 {
        let r = next(&mut seed);
        let shift = next(&mut seed) % 64;
        let unsigned = r >> shift;
        assert_eq!(double_from_int(unsigned as i128), (unsigned as f64).to_bits());
        assert_eq!(single_from_int(unsigned as i128), ((unsigned as f64) as f32).to_bits());
        let signed = (r as i64) >> shift;
        assert_eq!(double_from_int(signed as i128), (signed as f64).to_bits());
        assert_eq!(single_from_int(signed as i128), ((signed as f64) as f32).to_bits());
        let wide = ((r as i128) << 64 | next(&mut seed) as i128) >> shift;
        assert_eq!(double_from_int(wide), (wide as f64).to_bits());
    }
}

#[test]
fn whole_number_to_single_goes_by_way_of_the_double() {
    // 2^24 + 1 + 2^-30 would round up if it were rounded once. As a whole
    // number it has no fraction; this one is rounded twice and shows it.
    let n: i128 = (1 << 60) + (1 << 36) + 1;
    assert_eq!(single_from_int(n), ((n as i64 as f64) as f32).to_bits());
    assert_eq!(single_from_int(16_777_217), 16_777_216f32.to_bits());
    assert_eq!(single_from_int(-3), (-3.0f32).to_bits());
}

#[test]
fn magnitude_drops_the_sign() {
    assert_eq!(magnitude(0), 0);
    assert_eq!(magnitude(7), 7);
    assert_eq!(magnitude(-7), 7);
    assert_eq!(magnitude(i128::MIN), 1u128 << 127);
    assert_eq!(magnitude(i128::MAX), i128::MAX as u128);
}

#[test]
fn round_to_gives_the_bits_without_the_sign() {
    assert_eq!(round_to(0, 0, Precision::Single), 0);
    assert_eq!(round_to(1, 0, Precision::Single), 0x3f80_0000);
    assert_eq!(round_to(3, -1, Precision::Single), 1.5f32.to_bits() as u64);
    assert_eq!(round_to(1, 0, Precision::Double), 0x3ff0_0000_0000_0000);
    assert_eq!(round_to(1, 128, Precision::Single), 0x7f80_0000);
    assert_eq!(round_to(1, 127, Precision::Single), 0x7f00_0000);
    assert_eq!(round_to(1, -149, Precision::Single), 1);
    assert_eq!(round_to(1, -150, Precision::Single), 0);
    assert_eq!(round_to(3, -151, Precision::Single), 1);
    assert_eq!(round_to(1, 1024, Precision::Double), 0x7ff0_0000_0000_0000);
    assert_eq!(round_to(u128::MAX, 0, Precision::Single), 0x7f80_0000);
    assert_eq!(round_to(u128::MAX, -1, Precision::Single), 0x7f00_0000);
    assert_eq!(round_to(u128::MAX, 0, Precision::Single), (u128::MAX as f32).to_bits() as u64);
}

#[test]
fn widening_is_exact() {
    assert_eq!(double_from_single(0), 0);
    assert_eq!(double_from_single(0x8000_0000), 0x8000_0000_0000_0000);
    assert_eq!(double_from_single(1.0f32.to_bits()), 0x3ff0_0000_0000_0000);
    assert_eq!(double_from_single((-2.5f32).to_bits()), (-2.5f64).to_bits());
    assert_eq!(double_from_single(f32::MAX.to_bits()), (f32::MAX as f64).to_bits());
    assert_eq!(double_from_single(f32::MIN_POSITIVE.to_bits()), (f32::MIN_POSITIVE as f64).to_bits());
    assert_eq!(double_from_single(1), (f32::from_bits(1) as f64).to_bits());
    assert_eq!(double_from_single(0x007f_ffff), (f32::from_bits(0x007f_ffff) as f64).to_bits());
    assert_eq!(double_from_single(0x7f80_0000), f64::INFINITY.to_bits());
    assert_eq!(double_from_single(0xff80_0000), f64::NEG_INFINITY.to_bits());
    assert_eq!(double_from_single(0x7fc0_0001), 0x7ff8_0000_2000_0000);
}

#[test]
fn widening_agrees_with_the_machine_and_is_undone_by_narrowing() {
    let mut seed: u64 = 5;
    for _ in 0..20_000 {
        let r = next(&mut seed);
        for single in [r as u32, (r >> 32) as u32 & 0x807f_ffff, (r >> 40) as u32] {
            if f32::from_bits(single).is_nan() {
                assert!(f64::from_bits(double_from_single(single)).is_nan());
                continue;
            }
            let wide = double_from_single(single);
            assert_eq!(wide, (f32::from_bits(single) as f64).to_bits(), "{:#x}", single);
            assert_eq!(single_from_double(wide), single);
        }
    }
}

#[test]
fn seconds_become_whole_milliseconds() {
    assert_eq!(millis_from_seconds(0), 0);
    assert_eq!(millis_from_seconds(1.0f32.to_bits()), 1_000);
    assert_eq!(millis_from_seconds(20.0f32.to_bits()), 20_000);
    assert_eq!(millis_from_seconds(0.5f32.to_bits()), 500);
    assert_eq!(millis_from_seconds(0.0009f32.to_bits()), 0);
    assert_eq!(millis_from_seconds(0.1f32.to_bits()), 100);
    assert_eq!(millis_from_seconds((-1.0f32).to_bits()), 0);
    assert_eq!(millis_from_seconds(0x8000_0000), 0);
    assert_eq!(millis_from_seconds(f32::NAN.to_bits()), 0);
    assert_eq!(millis_from_seconds(0x7f80_0001), 0);
    assert_eq!(millis_from_seconds(f32::INFINITY.to_bits()), u64::MAX);
    assert_eq!(millis_from_seconds(f32::NEG_INFINITY.to_bits()), 0);
    assert_eq!(millis_from_seconds(f32::MAX.to_bits()), u64::MAX);
    assert_eq!(millis_from_seconds(1), 0);
    assert_eq!(millis_from_seconds(1.0e16f32.to_bits()), 10_000_000_272_564_224_000);
    assert_eq!(millis_from_seconds(1.9e16f32.to_bits()), u64::MAX);
}

#[test]
fn milliseconds_agree_with_the_machine() {
    let mut seed: u64 = 6;
    for _ in 0..20_000 {
        let r = next(&mut seed);
        for bits in [r as u32, ((r >> 32) as u32 % 0x1000_0000) + 0x3800_0000] {
            let seconds = f32::from_bits(bits);
            let want = (seconds as f64 * 1000.0) as u64;
            assert_eq!(millis_from_seconds(bits), want, "{:#x}", bits);
        }
    }
}
