use ws2812_pio::ledstrip::{LEDColor, LEDStrip};

#[test]
fn encode_wire_order() {
    // green in bits 31..24, red in 23..16, blue in 15..8, zero padding below
    assert_eq!(LEDColor::new(255, 0, 0).encode(), 0x00FF0000);
    assert_eq!(LEDColor::new(0, 255, 0).encode(), 0xFF000000);
    assert_eq!(LEDColor::new(0, 0, 255).encode(), 0x0000FF00);
    assert_eq!(LEDColor::new(0, 0, 0).encode(), 0x00000000);
    assert_eq!(LEDColor::new(255, 255, 255).encode(), 0xFFFFFF00);
}

#[test]
fn encode_formula() {
    for &(r, g, b) in &[(1u8, 2u8, 3u8), (17, 99, 200), (255, 1, 128), (0, 0, 1)] {
        let expected = ((g as u32) << 24) | ((r as u32) << 16) | ((b as u32) << 8);
        assert_eq!(LEDColor::new(r, g, b).encode(), expected);
    }
}

#[test]
fn new_strip_all_off() {
    let s = LEDStrip::<7>::new();
    assert_eq!(s.colors.len(), 7);
    for c in s.colors.iter() {
        assert_eq!(c.r, 0);
        assert_eq!(c.g, 0);
        assert_eq!(c.b, 0);
    }
}

#[test]
fn traversal_yields_n_words_in_index_order() {
    let mut s = LEDStrip::<3>::new();
    s.colors[0] = LEDColor::new(255, 0, 0);
    s.colors[1] = LEDColor::new(0, 255, 0);
    s.colors[2] = LEDColor::new(0, 0, 255);
    let mut it = s.iter();
    let mut words: Vec<u32> = Vec::new();
    while let Some(w) = it.next() {
        words.push(w);
    }
    assert_eq!(words, vec![0x00FF0000, 0xFF000000, 0x0000FF00]);
    // exhausted: stays exhausted
    assert_eq!(it.next(), None);
    assert_eq!(it.next(), None);
}

#[test]
fn traversal_is_restartable_and_nondestructive() {
    let mut s = LEDStrip::<4>::new();
    s.colors[1] = LEDColor::new(10, 20, 30);
    s.colors[3] = LEDColor::new(40, 50, 60);
    let mut first: Vec<u32> = Vec::new();
    let mut it = s.iter();
    while let Some(w) = it.next() {
        first.push(w);
    }
    let mut second: Vec<u32> = Vec::new();
    let mut it2 = s.iter();
    while let Some(w) = it2.next() {
        second.push(w);
    }
    assert_eq!(first.len(), 4);
    assert_eq!(first, second);
}

#[test]
fn indexed_access() {
    let mut s = LEDStrip::<3>::new();
    s.set_color(2, LEDColor::new(7, 8, 9));
    let c = s.get_color(2);
    assert_eq!((c.r, c.g, c.b), (7, 8, 9));
    let c0 = s.get_color(0);
    assert_eq!((c0.r, c0.g, c0.b), (0, 0, 0));
}

#[test]
fn traversal_reflects_mutation() {
    let mut s = LEDStrip::<2>::new();
    let mut it = s.iter();
    assert_eq!(it.next(), Some(0));
    s.colors[0] = LEDColor::new(1, 1, 1);
    let mut it2 = s.iter();
    assert_eq!(it2.next(), Some(0x01010100));
}
