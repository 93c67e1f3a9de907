//! A register-level model of the fast-syscall entry and exit sequence. The
//! hardware switches only selectors and privilege; the stack switch is
//! software's job, through two global scratch slots that are sound only
//! because interrupts stay masked for the whole transition and the kernel
//! runs one syscall at a time.
//!
//! The protocol: save the incoming user stack pointer in its scratch slot;
//! load the dedicated kernel stack top from the other slot, align it down to
//! sixteen bytes and offset by eight so the call below leaves the callee
//! correctly aligned; keep the two CPU-preserved values (return address and
//! flags) across the call; move the syscall-ABI registers into the calling
//! convention's argument positions (number, then the three arguments); call
//! the dispatcher; put its result in the return register; restore the
//! preserved values and the user stack pointer; and return to user mode.
use vstd::prelude::*;
use crate::syscall::{syscall_handler, dispatch_post, Control, KernelState, UserMemory};

verus! {

/// The general-purpose registers as the trampoline sees them at entry: the
/// syscall number in `rax`, its arguments in `rdi`, `rsi`, `rdx`, the user
/// return address in `rcx` and the user flags in `r11` (placed there by the
/// hardware), and the caller's stack pointer in `rsp`.
pub struct RegisterFile {
    pub rax: u64,
    pub rbx: u64,
    pub rcx: u64,
    pub rdx: u64,
    pub rsi: u64,
    pub rdi: u64,
    pub rbp: u64,
    pub rsp: u64,
    pub r8: u64,
    pub r9: u64,
    pub r10: u64,
    pub r11: u64,
    pub r12: u64,
    pub r13: u64,
    pub r14: u64,
    pub r15: u64,
}

/// The two global stack-pointer cells. They are valid only while exactly one
/// syscall is in flight; a nested or concurrent syscall would corrupt them.
pub struct ScratchSlots {
    pub user_rsp: u64,
    pub kernel_rsp: u64,
}

/// The complete syscall round trip at register level. Its net effect is a
/// pure stack swap plus one dispatcher call: every register except the return
/// register `rax` is bit-identical afterwards, the user stack pointer passes
/// through its scratch slot, and the dispatcher runs on the arguments moved
/// out of the syscall-ABI registers.
pub fn syscall_trampoline(
    regs: &mut RegisterFile,
    slots: &mut ScratchSlots,
    st: &mut KernelState,
    mem: &mut UserMemory,
) -> (c: Control)
    requires
        old(st).inv(),
        old(slots).kernel_rsp >= 16,
    ensures
        final(st).inv(),
        // the stack swap through the scratch slots
        final(slots).user_rsp == old(regs).rsp,
        final(slots).kernel_rsp == old(slots).kernel_rsp,
        // the net register effect: everything but the return register survives
        final(regs).rsp == old(regs).rsp,
        final(regs).rbx == old(regs).rbx,
        final(regs).rcx == old(regs).rcx,
        final(regs).rdx == old(regs).rdx,
        final(regs).rsi == old(regs).rsi,
        final(regs).rdi == old(regs).rdi,
        final(regs).rbp == old(regs).rbp,
        final(regs).r8 == old(regs).r8,
        final(regs).r9 == old(regs).r9,
        final(regs).r10 == old(regs).r10,
        final(regs).r11 == old(regs).r11,
        final(regs).r12 == old(regs).r12,
        final(regs).r13 == old(regs).r13,
        final(regs).r14 == old(regs).r14,
        final(regs).r15 == old(regs).r15,
        // one dispatcher call on the remapped registers, its result in rax
        dispatch_post(
            *old(st),
            *final(st),
            old(mem).bytes@,
            final(mem).bytes@,
            old(regs).rax,
            old(regs).rdi,
            old(regs).rsi,
            old(regs).rdx,
            final(regs).rax,
            c,
        ),
{
    // save the incoming user stack pointer
    slots.user_rsp = regs.rsp;
    // switch to the dedicated kernel stack, aligned for the call below
    let aligned = slots.kernel_rsp & !0xfu64;
    proof {
        let kr = slots.kernel_rsp;
        assert(kr >= 16 ==> (kr & !0xfu64) >= 8) by (bit_vector);
    }
    regs.rsp = aligned - 8;
    // keep the CPU-preserved user return address and flags across the call
    let saved_rcx = regs.rcx;
    let saved_r11 = regs.r11;
    // the syscall-ABI registers, moved into argument positions
    let out = syscall_handler(st, mem, regs.rax, regs.rdi, regs.rsi, regs.rdx);
    // the dispatcher's result lands in the return register
    regs.rax = out.value;
    // restore the preserved values and the user stack
    regs.rcx = saved_rcx;
    regs.r11 = saved_r11;
    regs.rsp = slots.user_rsp;
    out.control
}

} // verus!
