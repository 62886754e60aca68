//! The decisions of the core-pass backend: interrupt setup after `init`, handler
//! export names, task execution wrapping and global definitions.
use vstd::prelude::*;
use vstd::string::StringExecFns;

use crate::cpu_interrupts::{
    allocate_cpu_interrupts, binding_entries, binds_in_order, export_name, insert_all,
    last_reserved, law_binding_lookup, spec_export_name, spec_first_unreserved, spec_free_slots,
    CpuBinding, CpuInterruptMap, SlotsExhausted, UsedIrq, LAST_CPU_INTERRUPT,
};
use crate::decimal::{all_digits, decimal, decimal_value, lemma_decimal_is_canonical, push_decimal};
use crate::features::{Chip, SlicBackend, Target};

verus! {

/// The priority that the SLIC sets for an interrupt.
#[derive(Debug)]
pub struct SlicPriority {
    pub name: String,
    pub priority: u8,
}

/// What the code run after `init` configures.
pub enum PostInitPlan {
    /// SLIC: set the priority of every used interrupt.
    Slic(Vec<SlicPriority>),
    /// ESP32: enable every used interrupt at its priority on its CPU interrupt slot.
    Esp32(Vec<CpuBinding>),
}

/// What is emitted around a task's execution.
pub struct TaskWrap {
    /// The interrupt to unpend before the task runs, if any.
    pub unpend: Option<String>,
    /// The priority threshold the task runs at.
    pub run_priority: u8,
}

/// The SLIC code-generation call emitted among the global definitions.
pub struct SlicCodegen {
    /// With the CLINT backend, the hart that signals software interrupts.
    pub clint_hart: Option<String>,
}

/// `irqs` with each priority cut to the 8 bits that the SLIC takes.
pub open spec fn slic_priorities_of(irqs: Seq<UsedIrq>, plan: Seq<SlicPriority>) -> bool {
    &&& plan.len() == irqs.len()
    &&& forall|i: int|
        0 <= i < plan.len() ==> (#[trigger] plan[i]).name@ == irqs[i].name@ && plan[i].priority
            == irqs[i].priority as u8
}

/// The name of the hart of `core`: `H` and `core` in decimal.
pub open spec fn spec_hart_name(core: u32) -> Seq<char> {
    "H"@ + decimal(core as nat)
}

/// State that the backend keeps between the calls of the core pass.
pub struct BackendState {
    cpu_interrupts: Option<CpuInterruptMap>,
}

impl BackendState {
    /// The interrupt-to-slot map that `post_init` recorded, if it ran for an ESP32 target.
    pub closed spec fn bound_interrupts(self) -> Option<Map<Seq<char>, u8>> {
        match self.cpu_interrupts {
            Some(m) => Some(m@),
            None => None,
        }
    }

    /// Whether `post_init` has recorded a binding of interrupts to CPU slots.
    pub fn has_bound_interrupts(&self) -> (r: bool)
        ensures
            r == self.bound_interrupts() is Some,
    {
        self.cpu_interrupts.is_some()
    }

    /// A state in which no interrupt is bound yet.
    pub fn new() -> (s: Self)
        ensures
            s.bound_interrupts() is None,
    {
        BackendState { cpu_interrupts: None }
    }

    /// Whether `post_init` may run for `target`: on an ESP32 chip the interrupt
    /// binding is set once, so it must not have been recorded yet.
    pub open spec fn post_init_permitted(self, target: Target) -> bool {
        target is Esp32 ==> self.bound_interrupts() is None
    }

    /// Plans the interrupt setup run after `init`. On the SLIC every used interrupt
    /// gets its priority; on an ESP32 chip the used interrupts are bound, in order,
    /// to the CPU interrupt slots above the reserved ones, each with the verdict on
    /// its priority, and the binding is kept for [`Self::task_export_name`]. When
    /// an ESP32 chip has fewer free slots than the application uses interrupts,
    /// nothing is bound and the shortage is reported.
    pub fn post_init(&mut self, target: Target, irqs: &Vec<UsedIrq>) -> (r: Result<
        PostInitPlan,
        SlotsExhausted,
    >)
        requires
            old(self).post_init_permitted(target),
        ensures
            match target {
                Target::Slic(_) => {
                    &&& r matches Ok(PostInitPlan::Slic(p)) && slic_priorities_of(irqs@, p@)
                        && p.len() == irqs.len() && (forall|i: int|
                        0 <= i < p.len() ==> (#[trigger] p@[i]).name@ == irqs@[i].name@
                            && p@[i].priority as int == irqs@[i].priority as int % 256)
                    &&& final(self).bound_interrupts() == old(self).bound_interrupts()
                },
                Target::Esp32(chip) => if irqs.len() <= spec_free_slots(chip) {
                    &&& r matches Ok(PostInitPlan::Esp32(b)) && binds_in_order(chip, irqs@, b@)
                        && b.len() == irqs.len() && (forall|i: int|
                        0 <= i < b.len() ==> (#[trigger] b@[i]).name@ == irqs@[i].name@
                            && b@[i].priority == irqs@[i].priority && b@[i].cpu_interrupt
                            == spec_first_unreserved(chip) + i) && (forall|i: int|
                        0 <= i < b.len() ==> last_reserved(chip) < (#[trigger] b@[i]).cpu_interrupt
                            <= LAST_CPU_INTERRUPT) && final(self).bound_interrupts() == Some(
                        insert_all(binding_entries(b@)),
                    )
                } else {
                    &&& r matches Err(e) && e.used == irqs.len() && e.free == spec_free_slots(chip)
                    &&& final(self).bound_interrupts() == old(self).bound_interrupts()
                },
            },
    {
        match target {
            Target::Slic(_) => {
                let mut plan: Vec<SlicPriority> = Vec::new();
                let mut i: usize = 0;
                while i < irqs.len()
                    invariant
                        i <= irqs.len(),
                        plan.len() == i,
                        forall|j: int|
                            0 <= j < i ==> (#[trigger] plan@[j]).name@ == irqs@[j].name@
                                && plan@[j].priority == irqs@[j].priority as u8
                                && plan@[j].priority as int == irqs@[j].priority as int % 256,
                    decreases irqs.len() - i,
                {
                    let declared: u16 = irqs[i].priority;
                    assert((declared as u8) as int == declared as int % 256) by (bit_vector);
                    plan.push(
                        SlicPriority { name: irqs[i].name.clone(), priority: irqs[i].priority as u8 },
                    );
                    i = i + 1;
                }
                Ok(PostInitPlan::Slic(plan))
            },
            Target::Esp32(chip) => match allocate_cpu_interrupts(chip, irqs) {
                Ok(bindings) => {
                    self.cpu_interrupts = Some(CpuInterruptMap::from_bindings(&bindings));
                    Ok(PostInitPlan::Esp32(bindings))
                },
                Err(e) => Err(e),
            },
        }
    }

    /// The export name of the handler of `interrupt`: `interrupt` and its CPU
    /// interrupt slot in decimal, when `post_init` bound it to one; otherwise none.
    pub fn task_export_name(&self, interrupt: &String) -> (r: Option<String>)
        ensures
            match self.bound_interrupts() {
                Some(m) if m.contains_key(interrupt@) => r matches Some(s) && s@ == spec_export_name(
                    m[interrupt@],
                ),
                _ => r is None,
            },
    {
        match &self.cpu_interrupts {
            Some(m) => match m.get(interrupt) {
                Some(id) => Some(export_name(id)),
                None => None,
            },
            None => None,
        }
    }
}

/// The wrapping of a task's execution: run it at its priority (cut to 8 bits) and,
/// except on the SLIC (which unpends at the dispatcher), first unpend the interrupt
/// it is bound to.
pub fn wrap_task_execution(target: Target, priority: u16, binds: &Option<String>) -> (w: TaskWrap)
    ensures
        w.run_priority == priority as u8,
        match target {
            Target::Slic(_) => w.unpend is None,
            Target::Esp32(_) => match binds {
                Some(b) => w.unpend matches Some(u) && u@ == b@,
                None => w.unpend is None,
            },
        },
{
    let unpend = match target {
        Target::Slic(_) => None,
        Target::Esp32(_) => match binds {
            Some(b) => Some(b.clone()),
            None => None,
        },
    };
    TaskWrap { unpend, run_priority: priority as u8 }
}

/// The global definitions of the target: on the SLIC, its code-generation call,
/// with the hart `H<core>` when the CLINT backend signals software interrupts; on
/// the ESP32 chips, none.
pub fn global_definitions(target: Target, core: u32) -> (r: Option<SlicCodegen>)
    ensures
        match target {
            Target::Slic(SlicBackend::Clint) => r matches Some(c) && c.clint_hart matches Some(h)
                && h@ == spec_hart_name(core),
            Target::Slic(SlicBackend::Mecall) => r matches Some(c) && c.clint_hart is None,
            Target::Esp32(_) => r is None,
        },
{
    match target {
        Target::Slic(SlicBackend::Clint) => {
            let mut hart = String::from_str("H");
            push_decimal(&mut hart, core);
            Some(SlicCodegen { clint_hart: Some(hart) })
        },
        Target::Slic(SlicBackend::Mecall) => Some(SlicCodegen { clint_hart: None }),
        Target::Esp32(_) => None,
    }
}

/// The SLIC plan sets, for the `i`-th used interrupt, the priority it was
/// declared with, reduced to the 8 bits the controller takes: the same value
/// whenever it fits in a byte.
pub proof fn law_slic_priorities(irqs: Seq<UsedIrq>, plan: Seq<SlicPriority>)
    requires
        slic_priorities_of(irqs, plan),
    ensures
        plan.len() == irqs.len(),
        forall|i: int|
            0 <= i < plan.len() ==> (#[trigger] plan[i]).name@ == irqs[i].name@ && plan[i].priority
                as int == irqs[i].priority as int % 256,
        forall|i: int|
            0 <= i < plan.len() && irqs[i].priority < 256 ==> (#[trigger] plan[i]).priority as int
                == irqs[i].priority as int,
{
    assert forall|i: int| 0 <= i < plan.len() implies (#[trigger] plan[i]).priority as int
        == irqs[i].priority as int % 256 by {
        let p = irqs[i].priority;
        assert((p as u8) as int == p as int % 256) by (bit_vector);
    }
}

/// Whether the dispatchers of software tasks are named through the SLIC's own
/// software-interrupt type (`slic::SoftwareInterrupt`) rather than the device's
/// interrupt type: so on the SLIC, not on the ESP32 chips.
pub fn dispatchers_use_slic_interrupts(target: Target) -> (r: bool)
    ensures
        r == target is Slic,
{
    match target {
        Target::Slic(_) => true,
        Target::Esp32(_) => false,
    }
}

/// The interrupt binding of an ESP32 chip is set at most once: after `post_init`
/// has bound interrupts, no further ESP32 `post_init` is permitted, and a SLIC
/// `post_init` (the only other call that could touch the state) keeps the
/// recorded binding. Only `post_init` changes the state, so the binding that the
/// first call recorded is the one every later lookup sees.
pub proof fn law_post_init_at_most_once(state: BackendState, chip: Chip, backend: SlicBackend)
    requires
        state.bound_interrupts() is Some,
    ensures
        !state.post_init_permitted(Target::Esp32(chip)),
        state.post_init_permitted(Target::Slic(backend)),
{
}

/// A hart is named `H` followed by the decimal digits of its core number.
pub proof fn law_hart_name(core: u32)
    ensures
        spec_hart_name(core).len() >= 2,
        spec_hart_name(core)[0] == 'H',
        all_digits(spec_hart_name(core).skip(1)),
        decimal_value(spec_hart_name(core).skip(1)) == core,
{
    reveal_strlit("H");
    lemma_decimal_is_canonical(core as nat);
    assert(spec_hart_name(core).skip(1) =~= decimal(core as nat));
}

/// A handler is exported as `interrupt` followed by the decimal digits of its
/// CPU interrupt slot.
pub proof fn law_export_name(id: u8)
    ensures
        spec_export_name(id).len() >= 10,
        spec_export_name(id).take(9) == seq!['i', 'n', 't', 'e', 'r', 'r', 'u', 'p', 't'],
        all_digits(spec_export_name(id).skip(9)),
        decimal_value(spec_export_name(id).skip(9)) == id,
{
    reveal_strlit("interrupt");
    lemma_decimal_is_canonical(id as nat);
    assert(spec_export_name(id).skip(9) =~= decimal(id as nat));
    assert(spec_export_name(id).take(9) =~= seq!['i', 'n', 't', 'e', 'r', 'r', 'u', 'p', 't']);
}

/// Distinct CPU interrupt slots give distinct handler export names.
pub proof fn law_export_name_injective(a: u8, b: u8)
    ensures
        spec_export_name(a) == spec_export_name(b) ==> a == b,
{
    if spec_export_name(a) == spec_export_name(b) {
        reveal_strlit("interrupt");
        let prefix_len = "interrupt"@.len() as int;
        let ea = spec_export_name(a);
        assert(ea.subrange(prefix_len, ea.len() as int) =~= decimal(a as nat));
        assert(spec_export_name(b).subrange(prefix_len, ea.len() as int) =~= decimal(b as nat));
        lemma_decimal_is_canonical(a as nat);
        lemma_decimal_is_canonical(b as nat);
    }
}

/// After `post_init` has bound interrupts with distinct names on an ESP32 chip,
/// the handler of the `i`-th used interrupt is exported as `interrupt<first + i>`,
/// an interrupt that is not used gets no export name, and no two handlers share
/// an export name.
pub proof fn law_export_names_after_post_init(
    chip: Chip,
    irqs: Seq<UsedIrq>,
    bindings: Seq<CpuBinding>,
    state: BackendState,
)
    requires
        binds_in_order(chip, irqs, bindings),
        state.bound_interrupts() == Some(insert_all(binding_entries(bindings))),
        forall|i: int, j: int|
            0 <= i < irqs.len() && 0 <= j < irqs.len() && i != j
                ==> (#[trigger] irqs[i]).name@ != (#[trigger] irqs[j]).name@,
    ensures
        forall|i: int|
            0 <= i < irqs.len() ==> state.bound_interrupts().unwrap().contains_key(
                (#[trigger] irqs[i]).name@,
            ) && state.bound_interrupts().unwrap()[irqs[i].name@] == spec_first_unreserved(chip) + i,
        forall|k: Seq<char>|
            (forall|i: int| 0 <= i < irqs.len() ==> (#[trigger] irqs[i]).name@ != k)
                ==> !state.bound_interrupts().unwrap().contains_key(k),
        forall|i: int, j: int|
            0 <= i < irqs.len() && 0 <= j < irqs.len() && i != j ==> spec_export_name(
                state.bound_interrupts().unwrap()[(#[trigger] irqs[i]).name@],
            ) != spec_export_name(state.bound_interrupts().unwrap()[(#[trigger] irqs[j]).name@]),
{
    law_binding_lookup(chip, irqs, bindings);
    let m = state.bound_interrupts().unwrap();
    assert forall|i: int, j: int|
        0 <= i < irqs.len() && 0 <= j < irqs.len() && i != j implies spec_export_name(
            m[(#[trigger] irqs[i]).name@],
        ) != spec_export_name(m[(#[trigger] irqs[j]).name@]) by {
        law_export_name_injective(m[irqs[i].name@], m[irqs[j].name@]);
    }
}

} // verus!
