use ws2812_pio::assembler::pio_program;
use ws2812_pio::program::{
    simulate_bit_cycles, ws2812_program, CYCLES_PER_BIT, KIND_JMP_ALWAYS, KIND_JMP_X_ZERO,
    KIND_NOP, KIND_OUT_X, KIND_PULL_BLOCK, KIND_SET_PINDIRS, WRAP_TARGET,
};

#[test]
fn both_bit_paths_cost_cycles_per_bit() {
    assert_eq!(simulate_bit_cycles(true), CYCLES_PER_BIT);
    assert_eq!(simulate_bit_cycles(false), CYCLES_PER_BIT);
    assert_eq!(CYCLES_PER_BIT, 10);
}

#[test]
fn program_table_shape() {
    let p = ws2812_program();
    assert_eq!(p.len(), 6);
    let kinds: Vec<u8> = p.iter().map(|i| i.kind).collect();
    assert_eq!(
        kinds,
        vec![
            KIND_SET_PINDIRS,
            KIND_PULL_BLOCK,
            KIND_OUT_X,
            KIND_JMP_X_ZERO,
            KIND_JMP_ALWAYS,
            KIND_NOP
        ]
    );
    let delays: Vec<u8> = p.iter().map(|i| i.delay).collect();
    assert_eq!(delays, vec![0, 0, 2, 2, 3, 3]);
    let sides: Vec<Option<u8>> = p.iter().map(|i| i.side).collect();
    assert_eq!(sides, vec![None, None, Some(0), Some(1), Some(1), Some(0)]);
    // the zero path lands on the nop, the one path jumps back to the loop head
    assert_eq!(p[3].target, 5);
    assert_eq!(p[4].target, WRAP_TARGET);
    // every instruction costs 1 + delay cycles; both paths sum to 10
    let out = 1 + p[2].delay as u32;
    let branch = 1 + p[3].delay as u32;
    let one_path = out + branch + 1 + p[4].delay as u32;
    let zero_path = out + branch + 1 + p[5].delay as u32;
    assert_eq!(one_path, CYCLES_PER_BIT);
    assert_eq!(zero_path, CYCLES_PER_BIT);
}

#[test]
fn assembled_words_match_hardware_encoding() {
    // hand-encoded against the RP2040 datasheet, with an optional one-bit
    // side-set: set pindirs 1; pull block; out x 1 side 0 [2];
    // jmp !x 5 side 1 [2]; jmp 2 side 1 [3]; nop side 0 [3]
    let p = pio_program();
    let words: Vec<u16> = p.code.iter().copied().collect();
    assert_eq!(words, vec![0xE081, 0x80A0, 0x7221, 0x1A25, 0x1B02, 0xB342]);
    assert_eq!(p.wrap.source, 5);
    assert_eq!(p.wrap.target, WRAP_TARGET as u8);
    assert_eq!(p.origin, None);
    assert!(p.side_set.optional());
}
