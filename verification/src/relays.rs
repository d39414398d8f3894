//! Registry of printer-status relays: at most one relay follows a printer
//! at a time. A relay claims its printer before it starts and releases it
//! when the printer's connection ends.

use std::collections::HashSet;
use vstd::prelude::*;

use crate::ids::PrinterId;

verus! {

broadcast use vstd::std_specs::hash::group_hash_axioms;

/// The printers that currently have a relay.
pub struct PrinterRelays {
    active: HashSet<u128>,
}

impl PrinterRelays {
    /// Identifiers of the printers that have a relay.
    pub closed spec fn active_set(&self) -> Set<u128> {
        self.active@
    }

    /// A registry with no relay.
    pub fn new() -> (r: Self)
        ensures
            r.active_set() == Set::<u128>::empty(),
    {
        PrinterRelays { active: HashSet::new() }
    }

    /// Number of active relays.
    pub fn active_count(&self) -> (r: usize)
        ensures
            r == self.active_set().len(),
    {
        self.active.len()
    }

    /// Whether a printer has a relay.
    pub fn is_active(&self, printer: PrinterId) -> (r: bool)
        ensures
            r == self.active_set().contains(printer.0),
    {
        self.active.contains(&printer.0)
    }

    /// Claims the relay slot of a printer: `true` when the printer had no
    /// relay (the caller then starts one), `false` when one already runs.
    /// Either way the printer has a relay afterwards.
    pub fn claim(&mut self, printer: PrinterId) -> (r: bool)
        ensures
            final(self).active_set() == old(self).active_set().insert(printer.0),
            r == !old(self).active_set().contains(printer.0),
    {
        self.active.insert(printer.0)
    }

    /// Releases the slot of a printer whose relay ended.
    pub fn release(&mut self, printer: PrinterId)
        ensures
            final(self).active_set() == old(self).active_set().remove(printer.0),
    {
        self.active.remove(&printer.0);
    }
}

/// A printer is followed by at most one relay: once a claim for it has
/// succeeded, every further claim fails until the slot is released, and a
/// release makes the next claim succeed again.
pub proof fn law_one_relay_per_printer(active: Set<u128>, printer: u128)
    ensures
        active.insert(printer).contains(printer),
        !active.insert(printer).remove(printer).contains(printer),
        active.insert(printer).insert(printer) == active.insert(printer),
{
    assert(active.insert(printer).insert(printer) =~= active.insert(printer));
}

} // verus!
