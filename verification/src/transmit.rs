//! The transmit path: pushing a whole strip through the hardware queue.
//!
//! The queue itself and the running co-processor are hardware; the library
//! holds the decision logic. A transmission walks the strip's encoded
//! words: while a word remains and the queue is full it waits, otherwise
//! it hands the next word out to be enqueued; once every word was
//! enqueued it waits until the queue reports empty, so that a transmission
//! is complete only when every bit was physically shifted out. The laws
//! below state that whatever the queue reports over time, the words handed
//! out are exactly a prefix of the strip's words, in order: backpressure
//! delays the producer but never drops or reorders a word.

use vstd::prelude::*;

use crate::ledstrip::{encoded_words, LEDStrip};

verus! {

/// What the driver must do next with the hardware queue: wait and poll
/// again, enqueue this word, or nothing -- the transmission is complete.
#[derive(Copy, Clone, Debug, PartialEq, Eq, Structural)]
pub enum TxAction {
    Wait,
    Write(u32),
    Done,
}

/// The state of one transmission: how many words were handed out so far.
#[derive(Copy, Clone, PartialEq, Eq, Structural)]
pub struct Transmission {
    pub sent: usize,
}

/// The words handed out after one poll of the queue, given how many were
/// handed out before and whether the queue reported full.
pub open spec fn spec_step_sent(nled: nat, sent: nat, full: bool) -> nat {
    if sent < nled && !full {
        sent + 1
    } else {
        sent
    }
}

/// The words handed out after a whole sequence of polls, each recording
/// what the queue reported (full, empty) at that poll.
pub open spec fn run_sent(nled: nat, events: Seq<(bool, bool)>) -> nat
    decreases events.len(),
{
    if events.len() == 0 {
        0
    } else {
        spec_step_sent(nled, run_sent(nled, events.drop_last()), events.last().0)
    }
}

/// Every word handed out over a sequence of polls, in order.
pub open spec fn run_writes<const NLED: usize>(s: LEDStrip<NLED>, events: Seq<(bool, bool)>) -> Seq<
    u32,
>
    decreases events.len(),
{
    if events.len() == 0 {
        Seq::empty()
    } else {
        let prev = run_writes(s, events.drop_last());
        let sent = run_sent(NLED as nat, events.drop_last());
        if sent < NLED && !events.last().0 {
            prev.push(encoded_words(s)[sent as int])
        } else {
            prev
        }
    }
}

impl Transmission {
    /// A transmission that has not handed out any word yet.
    pub fn new() -> (t: Self)
        ensures
            t.sent == 0,
    {
        Transmission { sent: 0 }
    }

    /// One poll of the hardware queue: given what the queue reports,
    /// decide the next action. While words remain, a full queue means
    /// wait and an accepting queue means write the next word, in index
    /// order; with every word handed out, the transmission is done only
    /// once the queue reports empty.
    pub fn step<const NLED: usize>(
        &mut self,
        strip: &LEDStrip<NLED>,
        fifo_full: bool,
        fifo_empty: bool,
    ) -> (a: TxAction)
        requires
            old(self).sent <= NLED,
        ensures
            final(self).sent as nat == spec_step_sent(
                NLED as nat,
                old(self).sent as nat,
                fifo_full,
            ),
            final(self).sent <= NLED,
            old(self).sent < NLED && fifo_full ==> a == TxAction::Wait && final(self).sent == old(
                self,
            ).sent,
            old(self).sent < NLED && !fifo_full ==> a == TxAction::Write(
                encoded_words(*strip)[old(self).sent as int],
            ) && final(self).sent == old(self).sent + 1,
            old(self).sent == NLED && !fifo_empty ==> a == TxAction::Wait && final(self).sent
                == old(self).sent,
            old(self).sent == NLED && fifo_empty ==> a == TxAction::Done && final(self).sent == old(
                self,
            ).sent,
    {
        if self.sent < NLED {
            if fifo_full {
                TxAction::Wait
            } else {
                let c = strip.colors[self.sent];
                self.sent = self.sent + 1;
                TxAction::Write(c.encode())
            }
        } else if !fifo_empty {
            TxAction::Wait
        } else {
            TxAction::Done
        }
    }
}

/// Ordering and backpressure law: however the queue reports full over
/// time, the words handed out are exactly the first `run_sent` of the
/// strip's encoded words, in index order -- a full queue only delays the
/// producer, it never drops, duplicates or reorders a word -- and never
/// more than the strip holds.
pub proof fn lemma_output_order<const NLED: usize>(s: LEDStrip<NLED>, events: Seq<(bool, bool)>)
    ensures
        run_sent(NLED as nat, events) <= NLED,
        run_writes(s, events) == encoded_words(s).take(run_sent(NLED as nat, events) as int),
    decreases events.len(),
{
    if events.len() == 0 {
        assert(run_writes(s, events) =~= encoded_words(s).take(0));
    } else {
        lemma_output_order(s, events.drop_last());
        let prev_sent = run_sent(NLED as nat, events.drop_last());
        let sent = run_sent(NLED as nat, events);
        if prev_sent < NLED && !events.last().0 {
            assert(encoded_words(s).take(sent as int) =~= encoded_words(s).take(
                prev_sent as int,
            ).push(encoded_words(s)[prev_sent as int]));
        }
        assert(run_writes(s, events) =~= encoded_words(s).take(sent as int));
    }
}

/// Completion law: once every one of the strip's words was handed out,
/// the words handed out are exactly the strip's encoded words.
pub proof fn lemma_output_complete<const NLED: usize>(s: LEDStrip<NLED>, events: Seq<(bool, bool)>)
    requires
        run_sent(NLED as nat, events) == NLED,
    ensures
        run_writes(s, events) == encoded_words(s),
{
    lemma_output_order(s, events);
    assert(encoded_words(s).take(NLED as int) =~= encoded_words(s));
}

} // verus!
