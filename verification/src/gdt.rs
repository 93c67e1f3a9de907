//! Descriptor-table and task-state setup, modelled over plain values: the
//! four selectors the table hands out, and the two stack tops the task-state
//! record supplies when the CPU raises its privilege level. Loading the table
//! and the task register is the boot code's hardware action.
use vstd::prelude::*;

verus! {

/// Descriptor slots a privilege level can occupy: ring 0 for the kernel,
/// ring 3 for user code and data.
pub const RING0: u16 = 0;

pub const RING3: u16 = 3;

/// The four selectors produced once at boot and read-only thereafter.
pub struct Selectors {
    pub kernel_code_selector: u16,
    pub tss_selector: u16,
    pub user_data_selector: u16,
    pub user_code_selector: u16,
}

/// The selector value for a descriptor-table index at a privilege level:
/// the index in the upper bits, the requested privilege in the low two.
pub open spec fn selector_spec(index: u16, rpl: u16) -> u16 {
    (index * 8 + rpl) as u16
}

/// Packs a table index and privilege level into a selector value.
pub fn selector(index: u16, rpl: u16) -> (r: u16)
    requires
        index < 8192,
        rpl < 4,
    ensures
        r == selector_spec(index, rpl),
{
    proof {
        let i = index;
        let p = rpl;
        assert(i < 8192 && p < 4 ==> ((i << 3) | p) == i * 8 + p) by (bit_vector);
    }
    (index << 3) | rpl
}

/// The selector set of a table built with one null slot, then the kernel-code,
/// user-code and user-data descriptors (one slot each), then the task-state
/// descriptor (two slots): indices one to four, kernel entries at ring 0 and
/// user entries at ring 3.
pub fn build_selectors() -> (s: Selectors)
    ensures
        s.kernel_code_selector == selector_spec(1, RING0),
        s.user_code_selector == selector_spec(2, RING3),
        s.user_data_selector == selector_spec(3, RING3),
        s.tss_selector == selector_spec(4, RING0),
{
    let kernel_code_selector = selector(1, RING0);
    let user_code_selector = selector(2, RING3);
    let user_data_selector = selector(3, RING3);
    let tss_selector = selector(4, RING0);
    Selectors { kernel_code_selector, tss_selector, user_data_selector, user_code_selector }
}

/// The task-state record's two stack slots: the ring0 stack used when
/// hardware privilege rises, and one dedicated stack for the double-fault
/// class so fault handling never runs on a possibly-corrupt stack.
pub struct TaskState {
    pub privilege_stack_top: u64,
    pub fault_stack_top: u64,
}

/// The top of a statically reserved stack: its base plus its size. Stacks
/// grow downward, so the top is what the task-state record holds.
pub fn stack_top(base: u64, size: u64) -> (r: u64)
    requires
        base + size <= u64::MAX,
    ensures
        r == base + size,
        base % 16 == 0 && size % 16 == 0 ==> r % 16 == 0,
{
    proof {
        if base % 16 == 0 && size % 16 == 0 {
            assert((base + size) % 16 == 0) by (nonlinear_arith)
                requires
                    base % 16 == 0,
                    size % 16 == 0,
            ;
        }
    }
    base + size
}

/// Computes both stack tops from the two reserved, 16-byte-aligned buffers.
pub fn build_task_state(
    privilege_base: u64,
    privilege_size: u64,
    fault_base: u64,
    fault_size: u64,
) -> (t: TaskState)
    requires
        privilege_base + privilege_size <= u64::MAX,
        fault_base + fault_size <= u64::MAX,
    ensures
        t.privilege_stack_top == privilege_base + privilege_size,
        t.fault_stack_top == fault_base + fault_size,
{
    TaskState {
        privilege_stack_top: stack_top(privilege_base, privilege_size),
        fault_stack_top: stack_top(fault_base, fault_size),
    }
}

} // verus!
