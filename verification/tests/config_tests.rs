use ws2812_pio::config::{clock_divisor, pio_settings, PIO_CLOCK_HZ, PULL_THRESHOLD, TARGET_BIT_RATE};
use ws2812_pio::program::CYCLES_PER_BIT;

#[test]
fn divisor_on_the_pico_clock() {
    // 125 MHz / (10 * 800 kHz) = 15.625 = 15 + 160/256
    let d = clock_divisor(125_000_000);
    assert_eq!(d.int_part, 15);
    assert_eq!(d.frac_part, 160);
}

#[test]
fn divisor_on_the_crystal_clock() {
    // 12 MHz / 8 MHz = 1.5 = 1 + 128/256
    let d = clock_divisor(12_000_000);
    assert_eq!(d.int_part, 1);
    assert_eq!(d.frac_part, 128);
}

#[test]
fn divisor_exact_division() {
    let d = clock_divisor(8_000_000);
    assert_eq!(d.int_part, 1);
    assert_eq!(d.frac_part, 0);
    let d = clock_divisor(16_000_000);
    assert_eq!(d.int_part, 2);
    assert_eq!(d.frac_part, 0);
}

#[test]
fn divisor_within_register_rounding() {
    assert_eq!(PIO_CLOCK_HZ, CYCLES_PER_BIT * TARGET_BIT_RATE);
    for &clk in &[125_000_000u32, 12_000_000, 48_000_000, 133_000_000, 8_000_001] {
        let d = clock_divisor(clk);
        let fp = d.int_part as u64 * 256 + d.frac_part as u64;
        // the divisor in 1/256 units never overshoots the exact ratio,
        // and misses it by less than one 1/256 step
        assert!(fp * PIO_CLOCK_HZ as u64 <= clk as u64 * 256);
        assert!((clk as u64) * 256 < (fp + 1) * PIO_CLOCK_HZ as u64);
    }
}

#[test]
fn settings_bind_pin_and_shift_setup() {
    let s = pio_settings(125_000_000, 8);
    assert_eq!(s.pin, 8);
    assert_eq!(s.divisor.int_part, 15);
    assert_eq!(s.divisor.frac_part, 160);
    assert_eq!(s.pull_threshold, PULL_THRESHOLD);
    assert_eq!(PULL_THRESHOLD, 24);
    assert!(s.autopull);
    assert!(s.shift_msb_first);
    assert!(s.tx_only);
}
