//! Assembling the micro-program into a co-processor program.
//!
//! The instruction sequence itself is the library's own data, modeled and
//! checked in `program`; encoding it into the hardware's instruction words
//! is the pio crate's work. Each assembler operation the library uses
//! stands behind a trusted wrapper whose contract records, per call, the
//! operation kind, operand, delay and side-set that were appended. A
//! jump's operand is its address field: while its label is unbound the
//! field threads the label's patch chain, and binding the label patches
//! every chained jump to the bound offset, so the finished program's jump
//! addresses are the label offsets the contracts track.

use vstd::prelude::*;

use crate::program::{
    is_jump_kind, ws2812_instrs, ws2812_tuples, KIND_JMP_ALWAYS, KIND_JMP_X_ZERO, KIND_NOP,
    KIND_OUT_X, KIND_PULL_BLOCK, KIND_SET_PINDIRS, WRAP_TARGET,
};

verus! {

#[verifier::external_type_specification]
#[verifier::external_body]
pub struct ExAssembler<const PROGRAM_SIZE: usize>(pio::Assembler<PROGRAM_SIZE>);

#[verifier::external_type_specification]
#[verifier::external_body]
pub struct ExLabel(pio::Label);

#[verifier::external_type_specification]
#[verifier::external_body]
pub struct ExProgram<const PROGRAM_SIZE: usize>(pio::Program<PROGRAM_SIZE>);

/// The end-of-chain sentinel in a jump's address field: the address a jump
/// records when it is the oldest one awaiting its label.
pub const CHAIN_END: u8 = 255;

/// The instructions an assembler has accumulated, each as its operation
/// kind, operand, delay and side-set (None where the instruction carries
/// no side-set). A jump's operand is its current address field: the bound
/// offset of its label, or a link of the unbound label's patch chain.
pub uninterp spec fn asm_instrs(a: pio::Assembler<32>) -> Seq<(u8, u8, u8, Option<u8>)>;

/// The side-set configuration an assembler was created with: whether the
/// side-set is optional per instruction, and how many data bits it has.
pub uninterp spec fn asm_side_cfg(a: pio::Assembler<32>) -> (bool, u8);

/// The instruction offset a label is bound to, None while it is unbound.
pub uninterp spec fn label_offset(l: pio::Label) -> Option<int>;

/// The offsets of the jump words awaiting an unbound label, newest first:
/// the chain that binding the label walks and patches. Empty for a fresh
/// or a bound label.
pub uninterp spec fn label_pending(l: pio::Label) -> Seq<int>;

/// The instruction descriptors that the words of a program's code encode,
/// in order: operation kind, operand, delay and side-set of each word.
pub uninterp spec fn program_code(p: pio::Program<32>) -> Seq<(u8, u8, u8, Option<u8>)>;

/// A program's wrap offsets: the instruction after which execution wraps,
/// and the instruction it wraps back to.
pub uninterp spec fn program_wrap(p: pio::Program<32>) -> (int, int);

/// The address field a jump appended against an unbound label records:
/// the previous head of the label's patch chain, or the end-of-chain
/// sentinel when no jump awaited the label yet.
pub open spec fn chain_head(pending: Seq<int>) -> u8 {
    if pending.len() == 0 {
        CHAIN_END
    } else {
        pending[0] as u8
    }
}

/// Relies on pio::Assembler::new_with_side_set and pio::SideSet::new: a
/// new assembler holds no instructions and keeps the given side-set
/// configuration. SideSet::new shifts by the bit count, so it is kept in
/// the range the hardware allows.
#[verifier::external_body]
fn asm_new(opt: bool, bits: u8, pindirs: bool) -> (a: pio::Assembler<32>)
    requires
        bits <= 5,
    ensures
        asm_instrs(a) == Seq::<(u8, u8, u8, Option<u8>)>::empty(),
        asm_side_cfg(a) == (opt, bits),
{
    pio::Assembler::new_with_side_set(pio::SideSet::new(opt, bits, pindirs))
}

/// Relies on pio::Assembler::label: a fresh label, unbound, with no jump
/// awaiting it, and the assembler is left as it was. The label must be
/// bound before it is dropped; its drop panics otherwise.
#[verifier::external_body]
fn asm_label(a: &mut pio::Assembler<32>) -> (l: pio::Label)
    ensures
        label_offset(l) is None,
        label_pending(l) == Seq::<int>::empty(),
        asm_instrs(*final(a)) == asm_instrs(*old(a)),
        asm_side_cfg(*final(a)) == asm_side_cfg(*old(a)),
{
    a.label()
}

/// Relies on pio::Assembler::bind: binds an unbound label to the current
/// instruction offset and walks the label's patch chain, setting each
/// chained jump's address field to that offset; kinds, delays and
/// side-sets are unchanged. Binding a bound label panics, and the walk
/// indexes the instruction store unchecked and insists on finding jumps,
/// so the requires pin the whole chain inside this assembler: every
/// pending offset names a jump word, each jump's address field links to
/// the next pending offset, and the oldest ends at the sentinel. The walk
/// then stays in bounds, patches exactly the pending words, and stops.
#[verifier::external_body]
fn asm_bind(a: &mut pio::Assembler<32>, l: &mut pio::Label)
    requires
        label_offset(*old(l)) is None,
        forall|j: int|
            0 <= j < label_pending(*old(l)).len() ==> 0 <= #[trigger] label_pending(*old(l))[j]
                < asm_instrs(*old(a)).len(),
        forall|j: int|
            0 <= j < label_pending(*old(l)).len() ==> is_jump_kind(
                asm_instrs(*old(a))[#[trigger] label_pending(*old(l))[j]].0,
            ),
        forall|j: int|
            0 <= j < label_pending(*old(l)).len() - 1
                ==> asm_instrs(*old(a))[#[trigger] label_pending(*old(l))[j]].1 == label_pending(
                *old(l),
            )[j + 1] as u8,
        label_pending(*old(l)).len() > 0 ==> asm_instrs(*old(a))[label_pending(
            *old(l),
        ).last()].1 == CHAIN_END,
    ensures
        label_offset(*final(l)) == Some(asm_instrs(*old(a)).len() as int),
        label_pending(*final(l)) == Seq::<int>::empty(),
        asm_instrs(*final(a)).len() == asm_instrs(*old(a)).len(),
        forall|j: int|
            0 <= j < asm_instrs(*old(a)).len() ==> #[trigger] asm_instrs(*final(a))[j] == (
            if label_pending(*old(l)).contains(j) {
                (
                    asm_instrs(*old(a))[j].0,
                    asm_instrs(*old(a)).len() as u8,
                    asm_instrs(*old(a))[j].2,
                    asm_instrs(*old(a))[j].3,
                )
            } else {
                asm_instrs(*old(a))[j]
            }),
        asm_side_cfg(*final(a)) == asm_side_cfg(*old(a)),
{
    a.bind(l)
}

/// Relies on pio::Assembler::set with the PINDIRS destination: appends a
/// set instruction with the given data, no delay and no side-set.
#[verifier::external_body]
fn asm_set_pindirs(a: &mut pio::Assembler<32>, data: u8)
    requires
        asm_instrs(*old(a)).len() < 32,
    ensures
        asm_instrs(*final(a)) == asm_instrs(*old(a)).push(
            (KIND_SET_PINDIRS, data, 0u8, Option::<u8>::None),
        ),
        asm_side_cfg(*final(a)) == asm_side_cfg(*old(a)),
{
    a.set(pio::SetDestination::PINDIRS, data)
}

/// Relies on pio::Assembler::pull with if_empty false and block true:
/// appends a blocking pull, no delay and no side-set. The pull stalls the
/// co-processor while the transmit queue is empty and resumes when a word
/// arrives: the protocol's backpressure point.
#[verifier::external_body]
fn asm_pull_block(a: &mut pio::Assembler<32>)
    requires
        asm_instrs(*old(a)).len() < 32,
    ensures
        asm_instrs(*final(a)) == asm_instrs(*old(a)).push(
            (KIND_PULL_BLOCK, 0u8, 0u8, Option::<u8>::None),
        ),
        asm_side_cfg(*final(a)) == asm_side_cfg(*old(a)),
{
    a.pull(false, true)
}

/// Relies on pio::Assembler::out_with_delay_and_side_set with the X
/// scratch register destination: appends an out instruction that shifts
/// `bit_count` bits into X, with the given delay and side-set.
#[verifier::external_body]
fn asm_out_x(a: &mut pio::Assembler<32>, bit_count: u8, delay: u8, side: u8)
    requires
        asm_instrs(*old(a)).len() < 32,
    ensures
        asm_instrs(*final(a)) == asm_instrs(*old(a)).push(
            (KIND_OUT_X, bit_count, delay, Some(side)),
        ),
        asm_side_cfg(*final(a)) == asm_side_cfg(*old(a)),
{
    a.out_with_delay_and_side_set(pio::OutDestination::X, bit_count, delay, side)
}

/// Relies on pio::Assembler::jmp_with_delay_and_side_set with the
/// "X is zero" condition: appends that jump with the given delay and
/// side-set. Against a bound label the jump's address is the bound
/// offset; against an unbound one it records the previous head of the
/// label's patch chain and becomes the new head, to be patched when the
/// label is bound.
#[verifier::external_body]
fn asm_jmp_x_zero(a: &mut pio::Assembler<32>, l: &mut pio::Label, delay: u8, side: u8)
    requires
        asm_instrs(*old(a)).len() < 32,
    ensures
        asm_side_cfg(*final(a)) == asm_side_cfg(*old(a)),
        label_offset(*final(l)) == label_offset(*old(l)),
        label_offset(*old(l)) is Some ==> {
            &&& asm_instrs(*final(a)) == asm_instrs(*old(a)).push(
                (KIND_JMP_X_ZERO, label_offset(*old(l)).unwrap() as u8, delay, Some(side)),
            )
            &&& label_pending(*final(l)) == label_pending(*old(l))
        },
        label_offset(*old(l)) is None ==> {
            &&& asm_instrs(*final(a)) == asm_instrs(*old(a)).push(
                (KIND_JMP_X_ZERO, chain_head(label_pending(*old(l))), delay, Some(side)),
            )
            &&& label_pending(*final(l)) == seq![asm_instrs(*old(a)).len() as int]
                + label_pending(*old(l))
        },
{
    a.jmp_with_delay_and_side_set(pio::JmpCondition::XIsZero, l, delay, side)
}

/// Relies on pio::Assembler::jmp_with_delay_and_side_set with the
/// unconditional condition: appends that jump with the given delay and
/// side-set, its address resolved against the label as above.
#[verifier::external_body]
fn asm_jmp_always(a: &mut pio::Assembler<32>, l: &mut pio::Label, delay: u8, side: u8)
    requires
        asm_instrs(*old(a)).len() < 32,
    ensures
        asm_side_cfg(*final(a)) == asm_side_cfg(*old(a)),
        label_offset(*final(l)) == label_offset(*old(l)),
        label_offset(*old(l)) is Some ==> {
            &&& asm_instrs(*final(a)) == asm_instrs(*old(a)).push(
                (KIND_JMP_ALWAYS, label_offset(*old(l)).unwrap() as u8, delay, Some(side)),
            )
            &&& label_pending(*final(l)) == label_pending(*old(l))
        },
        label_offset(*old(l)) is None ==> {
            &&& asm_instrs(*final(a)) == asm_instrs(*old(a)).push(
                (KIND_JMP_ALWAYS, chain_head(label_pending(*old(l))), delay, Some(side)),
            )
            &&& label_pending(*final(l)) == seq![asm_instrs(*old(a)).len() as int]
                + label_pending(*old(l))
        },
{
    a.jmp_with_delay_and_side_set(pio::JmpCondition::Always, l, delay, side)
}

/// Relies on pio::Assembler::nop_with_delay_and_side_set: appends a no-op
/// (a mov of Y onto itself) with the given delay and side-set.
#[verifier::external_body]
fn asm_nop(a: &mut pio::Assembler<32>, delay: u8, side: u8)
    requires
        asm_instrs(*old(a)).len() < 32,
    ensures
        asm_instrs(*final(a)) == asm_instrs(*old(a)).push((KIND_NOP, 0u8, delay, Some(side))),
        asm_side_cfg(*final(a)) == asm_side_cfg(*old(a)),
{
    a.nop_with_delay_and_side_set(delay, side)
}

/// Relies on pio::Assembler::assemble_with_wrap: encodes the accumulated
/// instructions into a program whose code holds them word for word, and
/// whose wrap runs from the instruction before the source label's offset
/// back to the target label's offset. Encoding panics on a delay or a
/// side-set value that does not fit the side-set configuration, an
/// operand wider than its 5-bit field would bleed into neighbouring
/// fields, and the wrap offsets panic or underflow on an unbound or
/// ill-placed label, so the requires keep all of that out: with an
/// optional one-bit side-set, a delay has 3 bits (at most 7) and a
/// side-set value 1 bit, and every operand -- a jump's address included --
/// must fit 5 bits.
#[verifier::external_body]
fn asm_assemble_with_wrap(a: pio::Assembler<32>, source: pio::Label, target: pio::Label) -> (p:
    pio::Program<32>)
    requires
        asm_side_cfg(a) == (true, 1u8),
        forall|i: int| 0 <= i < asm_instrs(a).len() ==> (#[trigger] asm_instrs(a)[i]).1 < 32,
        forall|i: int| 0 <= i < asm_instrs(a).len() ==> (#[trigger] asm_instrs(a)[i]).2 <= 7,
        forall|i: int|
            0 <= i < asm_instrs(a).len() ==> ((#[trigger] asm_instrs(a)[i]).3 matches Some(s)
                ==> s <= 1),
        label_offset(source) is Some,
        1 <= label_offset(source).unwrap() <= asm_instrs(a).len(),
        label_offset(target) is Some,
        0 <= label_offset(target).unwrap() < asm_instrs(a).len(),
    ensures
        program_code(p) == asm_instrs(a),
        program_wrap(p) == (label_offset(source).unwrap() - 1, label_offset(target).unwrap()),
{
    a.assemble_with_wrap(source, target)
}

/// Assemble the WS2812 micro-program: the instruction sequence modeled by
/// `ws2812_instrs`, with an optional one-bit side-set driving the data
/// pin, wrapping from its last instruction back to the per-bit loop head.
/// The program's code encodes the model word for word, jump addresses
/// included: the "X is zero" jump lands on the no-op and the
/// unconditional jump lands back on the loop head, as the cycle
/// accounting assumes.
pub fn pio_program() -> (p: pio::Program<32>)
    ensures
        program_code(p) == ws2812_tuples(),
        program_wrap(p) == ((ws2812_instrs().len() - 1) as int, WRAP_TARGET as int),
{
    let mut a = asm_new(true, 1, false);
    let mut wrap_target = asm_label(&mut a);
    let mut wrap_source = asm_label(&mut a);
    let mut is_zero = asm_label(&mut a);
    asm_set_pindirs(&mut a, 1);
    asm_pull_block(&mut a);
    asm_bind(&mut a, &mut wrap_target);
    asm_out_x(&mut a, 1, 2, 0);
    asm_jmp_x_zero(&mut a, &mut is_zero, 2, 1);
    proof {
        assert(label_pending(is_zero) =~= seq![3int]);
    }
    asm_jmp_always(&mut a, &mut wrap_target, 3, 1);
    proof {
        assert(asm_instrs(a) =~= seq![
            (KIND_SET_PINDIRS, 1u8, 0u8, Option::<u8>::None),
            (KIND_PULL_BLOCK, 0u8, 0u8, Option::<u8>::None),
            (KIND_OUT_X, 1u8, 2u8, Some(0u8)),
            (KIND_JMP_X_ZERO, CHAIN_END, 2u8, Some(1u8)),
            (KIND_JMP_ALWAYS, 2u8, 3u8, Some(1u8)),
        ]);
        // the only jump awaiting is_zero is the one at offset 3
        assert(label_pending(is_zero).contains(3int)) by {
            assert(label_pending(is_zero)[0] == 3int);
        }
        assert forall|j: int| j != 3 implies !label_pending(is_zero).contains(j) by {
            if label_pending(is_zero).contains(j) {
                let k = choose|k: int|
                    0 <= k < label_pending(is_zero).len() && label_pending(is_zero)[k] == j;
                assert(k == 0);
            }
        }
    }
    asm_bind(&mut a, &mut is_zero);
    proof {
        assert(asm_instrs(a) =~= seq![
            (KIND_SET_PINDIRS, 1u8, 0u8, Option::<u8>::None),
            (KIND_PULL_BLOCK, 0u8, 0u8, Option::<u8>::None),
            (KIND_OUT_X, 1u8, 2u8, Some(0u8)),
            (KIND_JMP_X_ZERO, 5u8, 2u8, Some(1u8)),
            (KIND_JMP_ALWAYS, 2u8, 3u8, Some(1u8)),
        ]);
    }
    asm_nop(&mut a, 3, 0);
    asm_bind(&mut a, &mut wrap_source);
    proof {
        assert(asm_instrs(a) =~= ws2812_tuples());
    }
    asm_assemble_with_wrap(a, wrap_source, wrap_target)
}

} // verus!
