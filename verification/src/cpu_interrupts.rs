//! Binding of the interrupts an application uses to the CPU interrupt slots of the
//! Espressif RISC-V chips, and the export names of their handlers.
//!
//! `esp-hal` reserves the low CPU interrupt slots for its own vectored dispatch
//! (ESP32-C3: 1..=15, ESP32-C6: 1..=19). Handlers are bound to the slots above
//! them, in the order in which the application uses the interrupts.
use vstd::prelude::*;
use vstd::string::StringExecFns;

use crate::decimal::{decimal, push_decimal};
use crate::features::Chip;

verus! {

/// The highest CPU interrupt slot of the chips.
pub const LAST_CPU_INTERRUPT: u8 = 31;

/// A threshold-based priority must be below this value.
pub const MAX_PRIORITY: u16 = 15;

/// A threshold-based priority must be at least this value.
pub const MIN_PRIORITY: u16 = 1;

/// An interrupt that the application binds a task to, with the task's priority.
#[derive(Debug)]
pub struct UsedIrq {
    pub name: String,
    pub priority: u16,
}

/// An interrupt bound to a CPU interrupt slot, with the verdict on its priority.
#[derive(Debug)]
pub struct CpuBinding {
    pub name: String,
    pub priority: u16,
    pub priority_check: PriorityCheck,
    pub cpu_interrupt: u8,
}

/// More interrupts are used than there are free CPU interrupt slots.
#[derive(Clone, Copy, Debug, PartialEq, Eq, Structural)]
pub struct SlotsExhausted {
    /// How many interrupts the application uses.
    pub used: usize,
    /// How many slots the chip leaves free.
    pub free: u8,
}

/// How a priority compares with the range that the hardware supports.
#[derive(Clone, Copy, Debug, PartialEq, Eq, Structural)]
pub enum PriorityCheck {
    InRange,
    /// At or above [`MAX_PRIORITY`].
    AboveMaximum,
    /// Below [`MIN_PRIORITY`].
    BelowMinimum,
}

/// The last CPU interrupt slot that `esp-hal` reserves on `chip`.
pub open spec fn last_reserved(chip: Chip) -> int {
    match chip {
        Chip::Esp32c3 => 15,
        Chip::Esp32c6 => 19,
    }
}

/// The first CPU interrupt slot that handlers are bound to on `chip`.
pub open spec fn spec_first_unreserved(chip: Chip) -> int {
    last_reserved(chip) + 1
}

/// How many CPU interrupt slots `esp-hal` leaves free on `chip`.
pub open spec fn spec_free_slots(chip: Chip) -> int {
    LAST_CPU_INTERRUPT - last_reserved(chip)
}

/// The result of checking `priority` against the supported range.
pub open spec fn spec_check_priority(priority: u16) -> PriorityCheck {
    if MAX_PRIORITY <= priority {
        PriorityCheck::AboveMaximum
    } else if priority < MIN_PRIORITY {
        PriorityCheck::BelowMinimum
    } else {
        PriorityCheck::InRange
    }
}

/// `bindings` binds `irqs`, in order, to consecutive slots from the first unreserved one.
pub open spec fn binds_in_order(chip: Chip, irqs: Seq<UsedIrq>, bindings: Seq<CpuBinding>) -> bool {
    &&& bindings.len() == irqs.len()
    &&& forall|i: int|
        0 <= i < bindings.len() ==> {
            &&& (#[trigger] bindings[i]).name@ == irqs[i].name@
            &&& bindings[i].priority == irqs[i].priority
            &&& bindings[i].priority_check == spec_check_priority(irqs[i].priority)
            &&& bindings[i].cpu_interrupt == spec_first_unreserved(chip) + i
        }
}

/// The map that inserting `entries` one after the other into an empty map gives.
pub open spec fn insert_all(entries: Seq<(Seq<char>, u8)>) -> Map<Seq<char>, u8>
    decreases entries.len(),
{
    if entries.len() == 0 {
        Map::empty()
    } else {
        insert_all(entries.drop_last()).insert(entries.last().0, entries.last().1)
    }
}

/// The (name, slot) pairs of `bindings`.
pub open spec fn binding_entries(bindings: Seq<CpuBinding>) -> Seq<(Seq<char>, u8)> {
    bindings.map_values(|b: CpuBinding| (b.name@, b.cpu_interrupt))
}

/// The export name of the handler of CPU interrupt `id`: `interrupt` and `id` in decimal.
pub open spec fn spec_export_name(id: u8) -> Seq<char> {
    "interrupt"@ + decimal(id as nat)
}

/// The first CPU interrupt slot that handlers are bound to on `chip`.
pub fn first_unreserved_cpu_interrupt(chip: Chip) -> (r: u8)
    ensures
        r == spec_first_unreserved(chip),
        chip == Chip::Esp32c3 ==> r == 16,
        chip == Chip::Esp32c6 ==> r == 20,
{
    match chip {
        Chip::Esp32c3 => 16,
        Chip::Esp32c6 => 20,
    }
}

/// Checks a task priority against the range that the interrupt threshold supports.
pub fn check_priority(priority: u16) -> (r: PriorityCheck)
    ensures
        r == spec_check_priority(priority),
        r == PriorityCheck::InRange <==> MIN_PRIORITY <= priority && priority < MAX_PRIORITY,
        r == PriorityCheck::AboveMaximum <==> MAX_PRIORITY <= priority,
        r == PriorityCheck::BelowMinimum <==> priority < MIN_PRIORITY,
{
    if MAX_PRIORITY <= priority {
        PriorityCheck::AboveMaximum
    } else if priority < MIN_PRIORITY {
        PriorityCheck::BelowMinimum
    } else {
        PriorityCheck::InRange
    }
}

/// How many CPU interrupt slots `esp-hal` leaves free on `chip`.
pub fn free_cpu_interrupt_slots(chip: Chip) -> (r: u8)
    ensures
        r == spec_free_slots(chip),
        chip == Chip::Esp32c3 ==> r == 16,
        chip == Chip::Esp32c6 ==> r == 12,
{
    LAST_CPU_INTERRUPT - (first_unreserved_cpu_interrupt(chip) - 1)
}

/// Binds each used interrupt, in order, to the next CPU interrupt slot, starting at
/// the first slot that `esp-hal` does not reserve, and checks its priority. When
/// the used interrupts outnumber the free slots (16 on the ESP32-C3, 12 on the
/// ESP32-C6), nothing is bound and the shortage is reported.
pub fn allocate_cpu_interrupts(chip: Chip, irqs: &Vec<UsedIrq>) -> (r: Result<
    Vec<CpuBinding>,
    SlotsExhausted,
>)
    ensures
        match r {
            Ok(bindings) => {
                &&& irqs.len() <= spec_free_slots(chip)
                &&& binds_in_order(chip, irqs@, bindings@)
                &&& bindings.len() == irqs.len()
                &&& forall|i: int|
                    0 <= i < bindings.len() ==> {
                        &&& (#[trigger] bindings@[i]).name@ == irqs@[i].name@
                        &&& bindings@[i].priority == irqs@[i].priority
                        &&& bindings@[i].cpu_interrupt == bindings@[0].cpu_interrupt + i
                        &&& (bindings@[i].priority_check == PriorityCheck::InRange <==> MIN_PRIORITY
                            <= irqs@[i].priority < MAX_PRIORITY)
                    }
                &&& bindings.len() > 0 ==> bindings@[0].cpu_interrupt == last_reserved(chip) + 1
                &&& forall|i: int|
                    0 <= i < bindings.len() ==> last_reserved(chip) < (
                    #[trigger] bindings@[i]).cpu_interrupt <= LAST_CPU_INTERRUPT
            },
            Err(e) => irqs.len() > spec_free_slots(chip) && e.used == irqs.len() && e.free
                == spec_free_slots(chip),
        },
{
    let free = free_cpu_interrupt_slots(chip);
    if irqs.len() > free as usize {
        return Err(SlotsExhausted { used: irqs.len(), free });
    }
    let first = first_unreserved_cpu_interrupt(chip);
    let mut bindings: Vec<CpuBinding> = Vec::new();
    let mut i: usize = 0;
    while i < irqs.len()
        invariant
            first == spec_first_unreserved(chip),
            irqs.len() <= spec_free_slots(chip),
            i <= irqs.len(),
            bindings.len() == i,
            forall|j: int|
                0 <= j < i ==> {
                    &&& (#[trigger] bindings@[j]).name@ == irqs@[j].name@
                    &&& bindings@[j].priority == irqs@[j].priority
                    &&& bindings@[j].priority_check == spec_check_priority(irqs@[j].priority)
                    &&& bindings@[j].cpu_interrupt == first + j
                },
        decreases irqs.len() - i,
    {
        let irq = &irqs[i];
        let slot: u8 = first + (i as u8);
        bindings.push(
            CpuBinding {
                name: irq.name.clone(),
                priority: irq.priority,
                priority_check: check_priority(irq.priority),
                cpu_interrupt: slot,
            },
        );
        i = i + 1;
    }
    Ok(bindings)
}

/// Which CPU interrupt slot each interrupt name is bound to. A name bound more
/// than once maps to its last binding.
pub struct CpuInterruptMap {
    names: Vec<String>,
    slots: Vec<u8>,
}

impl View for CpuInterruptMap {
    type V = Map<Seq<char>, u8>;

    /// The map from interrupt name to CPU interrupt slot.
    open spec fn view(&self) -> Map<Seq<char>, u8> {
        insert_all(self.entries())
    }
}

impl CpuInterruptMap {
    #[verifier::type_invariant]
    spec fn well_formed(self) -> bool {
        self.names.len() == self.slots.len()
    }

    /// The (name, slot) pairs in insertion order.
    pub closed spec fn entries(self) -> Seq<(Seq<char>, u8)> {
        Seq::new(self.names.len() as nat, |i: int| (self.names@[i]@, self.slots@[i]))
    }


    /// The map that inserting each binding's (name, slot) in order gives.
    pub fn from_bindings(bindings: &Vec<CpuBinding>) -> (m: Self)
        ensures
            m@ == insert_all(binding_entries(bindings@)),
    {
        let mut names: Vec<String> = Vec::new();
        let mut slots: Vec<u8> = Vec::new();
        let mut i: usize = 0;
        while i < bindings.len()
            invariant
                i <= bindings.len(),
                names.len() == i,
                slots.len() == i,
                forall|j: int|
                    0 <= j < i ==> (#[trigger] names@[j])@ == bindings@[j].name@ && slots@[j]
                        == bindings@[j].cpu_interrupt,
            decreases bindings.len() - i,
        {
            let b = &bindings[i];
            let name = b.name.clone();
            assert(name@ == bindings@[i as int].name@);
            names.push(name);
            slots.push(b.cpu_interrupt);
            i = i + 1;
        }
        let m = CpuInterruptMap { names, slots };
        assert(m.entries() =~= binding_entries(bindings@));
        m
    }

    /// The slot that `name` is bound to, if any.
    pub fn get(&self, name: &String) -> (r: Option<u8>)
        ensures
            r == (if self@.contains_key(name@) {
                Some(self@[name@])
            } else {
                None
            }),
    {
        proof {
            use_type_invariant(self);
        }
        let ghost entries = self.entries();
        let mut found: Option<u8> = None;
        let mut i: usize = 0;
        assert(entries.take(0) =~= Seq::<(Seq<char>, u8)>::empty());
        while i < self.names.len()
            invariant
                self.names.len() == self.slots.len(),
                entries == self.entries(),
                i <= self.names.len(),
                found == (if insert_all(entries.take(i as int)).contains_key(name@) {
                    Some(insert_all(entries.take(i as int))[name@])
                } else {
                    None::<u8>
                }),
            decreases self.names.len() - i,
        {
            assert(entries.take(i + 1).drop_last() =~= entries.take(i as int));
            if self.names[i] == *name {
                found = Some(self.slots[i]);
            }
            i = i + 1;
        }
        assert(entries.take(i as int) =~= entries);
        found
    }
}

/// The export name of the handler of CPU interrupt `id`.
pub fn export_name(id: u8) -> (s: String)
    ensures
        s@ == spec_export_name(id),
{
    let mut s = String::from_str("interrupt");
    push_decimal(&mut s, id as u32);
    s
}

/// Every slot that handlers are bound to lies in the free range of the chip
/// (16..=31 on the ESP32-C3, 20..=31 on the ESP32-C6): never one of the slots
/// that `esp-hal` reserves, never above the last CPU interrupt; and no two
/// interrupts share a slot.
pub proof fn law_bindings_use_free_distinct_slots(
    chip: Chip,
    irqs: Seq<UsedIrq>,
    bindings: Seq<CpuBinding>,
)
    requires
        irqs.len() <= spec_free_slots(chip),
        binds_in_order(chip, irqs, bindings),
    ensures
        forall|i: int| 0 <= i < bindings.len() ==> (#[trigger] bindings[i]).cpu_interrupt > last_reserved(chip),
        forall|i: int, j: int|
            0 <= i < bindings.len() && 0 <= j < bindings.len() && i != j
                ==> (#[trigger] bindings[i]).cpu_interrupt != (#[trigger] bindings[j]).cpu_interrupt,
        forall|i: int| 0 <= i < bindings.len() ==> (#[trigger] bindings[i]).cpu_interrupt <= LAST_CPU_INTERRUPT,
{
}

/// The priority verdict accepts exactly 1..=14: a priority of 15 or more is
/// above the maximum, 0 is below the minimum.
pub proof fn law_priority_range(priority: u16)
    ensures
        spec_check_priority(priority) == PriorityCheck::InRange <==> 1 <= priority <= 14,
        spec_check_priority(priority) == PriorityCheck::AboveMaximum <==> priority >= 15,
        spec_check_priority(priority) == PriorityCheck::BelowMinimum <==> priority == 0,
{
}

/// The free slot ranges: 16..=31 on the ESP32-C3 (16 slots), 20..=31 on the
/// ESP32-C6 (12 slots).
pub proof fn law_free_slot_ranges()
    ensures
        last_reserved(Chip::Esp32c3) == 15,
        last_reserved(Chip::Esp32c6) == 19,
        spec_first_unreserved(Chip::Esp32c3) == 16,
        spec_first_unreserved(Chip::Esp32c6) == 20,
        spec_free_slots(Chip::Esp32c3) == 16,
        spec_free_slots(Chip::Esp32c6) == 12,
        LAST_CPU_INTERRUPT == 31,
{
}

/// A binding keeps the name and the priority of the interrupt it binds, and its
/// verdict accepts the priority exactly when it lies in 1..=14; the `i`-th
/// interrupt goes to slot 16 + i on the ESP32-C3 and 20 + i on the ESP32-C6.
pub proof fn law_bindings_keep_interrupts(chip: Chip, irqs: Seq<UsedIrq>, bindings: Seq<CpuBinding>)
    requires
        binds_in_order(chip, irqs, bindings),
    ensures
        bindings.len() == irqs.len(),
        forall|i: int|
            0 <= i < bindings.len() ==> {
                &&& (#[trigger] bindings[i]).name@ == irqs[i].name@
                &&& bindings[i].priority == irqs[i].priority
                &&& (bindings[i].priority_check == PriorityCheck::InRange <==> 1 <= irqs[i].priority
                    <= 14)
                &&& (bindings[i].priority_check == PriorityCheck::AboveMaximum <==> irqs[i].priority
                    >= 15)
                &&& (bindings[i].priority_check == PriorityCheck::BelowMinimum <==> irqs[i].priority
                    == 0)
                &&& (chip == Chip::Esp32c3 ==> bindings[i].cpu_interrupt == 16 + i)
                &&& (chip == Chip::Esp32c6 ==> bindings[i].cpu_interrupt == 20 + i)
            },
{
}

/// A name that several entries bind maps to the slot of the last of them; a name
/// that no entry binds is not in the map.
pub proof fn law_insert_all_last_wins(entries: Seq<(Seq<char>, u8)>, k: Seq<char>)
    ensures
        (forall|i: int| 0 <= i < entries.len() ==> (#[trigger] entries[i]).0 != k)
            ==> !insert_all(entries).contains_key(k),
        forall|i: int|
            0 <= i < entries.len() && (#[trigger] entries[i]).0 == k && (forall|j: int|
                i < j < entries.len() ==> (#[trigger] entries[j]).0 != k) ==> insert_all(
                entries,
            ).contains_key(k) && insert_all(entries)[k] == entries[i].1,
    decreases entries.len(),
{
    if entries.len() > 0 {
        let prefix = entries.drop_last();
        law_insert_all_last_wins(prefix, k);
        let last = entries.len() - 1;
        if forall|i: int| 0 <= i < entries.len() ==> (#[trigger] entries[i]).0 != k {
            assert forall|i: int| 0 <= i < prefix.len() implies (#[trigger] prefix[i]).0 != k by {
                assert(prefix[i] == entries[i]);
            }
        }
        assert forall|i: int|
            0 <= i < entries.len() && (#[trigger] entries[i]).0 == k && (forall|j: int|
                i < j < entries.len() ==> (#[trigger] entries[j]).0 != k) implies insert_all(
            entries,
        ).contains_key(k) && insert_all(entries)[k] == entries[i].1 by {
            if i < last {
                assert(entries[last].0 != k);
                assert(prefix[i] == entries[i]);
                assert forall|j: int| i < j < prefix.len() implies (#[trigger] prefix[j]).0 != k by {
                    assert(prefix[j] == entries[j]);
                }
            }
        }
    }
}

/// With distinct keys, inserting all entries maps each key to its own value and
/// holds no other key.
pub proof fn lemma_insert_all_distinct(entries: Seq<(Seq<char>, u8)>)
    requires
        forall|i: int, j: int|
            0 <= i < entries.len() && 0 <= j < entries.len() && i != j
                ==> (#[trigger] entries[i]).0 != (#[trigger] entries[j]).0,
    ensures
        forall|i: int|
            0 <= i < entries.len() ==> insert_all(entries).contains_key((#[trigger] entries[i]).0)
                && insert_all(entries)[entries[i].0] == entries[i].1,
        forall|k: Seq<char>|
            #[trigger] insert_all(entries).contains_key(k) ==> exists|i: int|
                0 <= i < entries.len() && (#[trigger] entries[i]).0 == k,
    decreases entries.len(),
{
    if entries.len() > 0 {
        let prefix = entries.drop_last();
        assert forall|i: int, j: int|
            0 <= i < prefix.len() && 0 <= j < prefix.len() && i != j
                implies (#[trigger] prefix[i]).0 != (#[trigger] prefix[j]).0 by {
            assert(prefix[i] == entries[i] && prefix[j] == entries[j]);
        }
        lemma_insert_all_distinct(prefix);
        let last = entries.len() - 1;
        assert forall|i: int|
            0 <= i < entries.len() implies insert_all(entries).contains_key(
                (#[trigger] entries[i]).0,
            ) && insert_all(entries)[entries[i].0] == entries[i].1 by {
            if i < last {
                assert(prefix[i] == entries[i]);
                assert(entries[i].0 != entries[last].0);
            }
        }
        assert forall|k: Seq<char>|
            #[trigger] insert_all(entries).contains_key(k) implies exists|i: int|
                0 <= i < entries.len() && (#[trigger] entries[i]).0 == k by {
            if k != entries[last].0 {
                assert(insert_all(prefix).contains_key(k));
                let i = choose|i: int| 0 <= i < prefix.len() && (#[trigger] prefix[i]).0 == k;
                assert(entries[i] == prefix[i]);
            }
        }
    }
}

/// After binding interrupts with distinct names, looking up the name of the
/// `i`-th used interrupt gives slot `first + i`, and a name that is not used is
/// bound to nothing.
pub proof fn law_binding_lookup(chip: Chip, irqs: Seq<UsedIrq>, bindings: Seq<CpuBinding>)
    requires
        binds_in_order(chip, irqs, bindings),
        forall|i: int, j: int|
            0 <= i < irqs.len() && 0 <= j < irqs.len() && i != j
                ==> (#[trigger] irqs[i]).name@ != (#[trigger] irqs[j]).name@,
    ensures
        forall|i: int|
            0 <= i < irqs.len() ==> insert_all(binding_entries(bindings)).contains_key(
                (#[trigger] irqs[i]).name@,
            ) && insert_all(binding_entries(bindings))[irqs[i].name@] == spec_first_unreserved(chip)
                + i,
        forall|k: Seq<char>|
            (forall|i: int| 0 <= i < irqs.len() ==> (#[trigger] irqs[i]).name@ != k)
                ==> !insert_all(binding_entries(bindings)).contains_key(k),
{
    let entries = binding_entries(bindings);
    assert forall|i: int, j: int|
        0 <= i < entries.len() && 0 <= j < entries.len() && i != j
            implies (#[trigger] entries[i]).0 != (#[trigger] entries[j]).0 by {
        assert(bindings[i].name@ == irqs[i].name@);
        assert(bindings[j].name@ == irqs[j].name@);
    }
    lemma_insert_all_distinct(entries);
    assert forall|i: int| 0 <= i < irqs.len() implies insert_all(entries).contains_key(
        (#[trigger] irqs[i]).name@,
    ) && insert_all(entries)[irqs[i].name@] == spec_first_unreserved(chip) + i by {
        assert(entries[i] == (bindings[i].name@, bindings[i].cpu_interrupt));
        assert(bindings[i].name@ == irqs[i].name@);
    }
    assert forall|k: Seq<char>|
        (forall|i: int| 0 <= i < irqs.len() ==> (#[trigger] irqs[i]).name@ != k)
            implies !insert_all(entries).contains_key(k) by {
        if insert_all(entries).contains_key(k) {
            let i = choose|i: int| 0 <= i < entries.len() && (#[trigger] entries[i]).0 == k;
            assert(bindings[i].name@ == irqs[i].name@);
            assert(irqs[i].name@ != k);
        }
    }
}

} // verus!
