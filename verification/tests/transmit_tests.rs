use ws2812_pio::ledstrip::{LEDColor, LEDStrip};
use ws2812_pio::transmit::{Transmission, TxAction};

/// A stand-in for the hardware transmit queue: bounded, FIFO, drained by a
/// modeled consumer.
struct ModelFifo {
    queue: Vec<u32>,
    capacity: usize,
    drained: Vec<u32>,
}

impl ModelFifo {
    fn new(capacity: usize) -> Self {
        ModelFifo { queue: Vec::new(), capacity, drained: Vec::new() }
    }

    fn is_full(&self) -> bool {
        self.queue.len() >= self.capacity
    }

    fn is_empty(&self) -> bool {
        self.queue.is_empty()
    }

    fn push(&mut self, w: u32) {
        assert!(!self.is_full(), "a word was pushed into a full queue");
        self.queue.push(w);
    }

    fn drain_one(&mut self) {
        if !self.queue.is_empty() {
            self.drained.push(self.queue.remove(0));
        }
    }
}

/// Run a whole transmission against the model queue, draining one word
/// every `drain_every` polls; returns the words written, in order.
fn run_output<const NLED: usize>(
    strip: &LEDStrip<NLED>,
    fifo: &mut ModelFifo,
    drain_every: usize,
) -> (Vec<u32>, usize) {
    let mut t = Transmission::new();
    let mut writes: Vec<u32> = Vec::new();
    let mut waits: usize = 0;
    let mut polls: usize = 0;
    loop {
        polls += 1;
        match t.step(strip, fifo.is_full(), fifo.is_empty()) {
            TxAction::Wait => waits += 1,
            TxAction::Write(w) => {
                writes.push(w);
                fifo.push(w);
            }
            TxAction::Done => break,
        }
        if polls % drain_every == 0 {
            fifo.drain_one();
        }
        assert!(polls < 10_000, "transmission did not finish");
    }
    (writes, waits)
}

#[test]
fn two_pixel_output_order_and_drain() {
    let mut strip = LEDStrip::<2>::new();
    strip.colors[0] = LEDColor::new(255, 0, 0);
    strip.colors[1] = LEDColor::new(0, 0, 255);
    let mut fifo = ModelFifo::new(8);
    let (writes, _) = run_output(&strip, &mut fifo, 3);
    // exactly these words, in this order
    assert_eq!(writes, vec![0x00FF0000, 0x0000FF00]);
    // done was only reported once the queue was fully drained
    assert!(fifo.is_empty());
    assert_eq!(fifo.drained, vec![0x00FF0000, 0x0000FF00]);
}

#[test]
fn backpressure_stalls_without_loss() {
    // capacity 2, six pixels: the producer must stall, and every word must
    // still come out, in buffer order
    let mut strip = LEDStrip::<6>::new();
    for i in 0..6 {
        strip.colors[i] = LEDColor::new(i as u8 + 1, 0, i as u8);
    }
    let expected: Vec<u32> = strip.colors.iter().map(|c| c.encode()).collect();
    let mut fifo = ModelFifo::new(2);
    let (writes, waits) = run_output(&strip, &mut fifo, 4);
    assert_eq!(writes, expected);
    assert!(waits > 0, "a full queue must stall the producer");
    assert!(fifo.is_empty());
    assert_eq!(fifo.drained, expected);
}

#[test]
fn empty_strip_completes_once_drained() {
    let strip = LEDStrip::<0>::new();
    let mut fifo = ModelFifo::new(4);
    let (writes, _) = run_output(&strip, &mut fifo, 2);
    assert!(writes.is_empty());
    assert!(fifo.is_empty());
}

#[test]
fn step_reports_wait_while_full_and_done_only_when_empty() {
    let mut strip = LEDStrip::<1>::new();
    strip.colors[0] = LEDColor::new(9, 8, 7);
    let mut t = Transmission::new();
    // full queue: wait, nothing sent
    assert_eq!(t.step(&strip, true, false), TxAction::Wait);
    assert_eq!(t.sent, 0);
    // queue accepts: the word goes out
    assert_eq!(t.step(&strip, false, false), TxAction::Write(0x08090700));
    assert_eq!(t.sent, 1);
    // all words out, queue still draining: wait
    assert_eq!(t.step(&strip, false, false), TxAction::Wait);
    // queue empty: done
    assert_eq!(t.step(&strip, false, true), TxAction::Done);
}
