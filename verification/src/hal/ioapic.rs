//! Routing global interrupts through the I/O interrupt controllers.
//!
//! A controller is reached through two registers in memory: an index
//! register and a data window. This module works out which of a
//! controller's registers are to be written with what, and in which order;
//! its caller writes them.

use vstd::prelude::*;
use crate::devices::acpi::{IoApicInfo, IsoInfo};

verus! {

/// Where a controller's index register lies behind its base address.
pub const IOAPIC_REG_SELECT: u64 = 0x00;

/// Where a controller's data window lies behind its base address.
pub const IOAPIC_REG_WINDOW: u64 = 0x10;

/// The number of redirection entries assumed of a controller whose version
/// register could not be read.
pub const DEFAULT_REDIRECTION_ENTRIES: u32 = 24;

/// The register index of the low dword of a controller's first redirection
/// entry; each entry takes two registers.
pub const REDIRECTION_BASE: u8 = 0x10;

/// The bit of the low dword of a redirection entry that masks it.
pub const REDIRECTION_MASK_BIT: u32 = 0x1_0000;

/// The vector that legacy interrupt line 0 is routed to; line `n` goes to
/// the vector `n` above it.
pub const LEGACY_VECTOR_BASE: u32 = 0x20;

/// How many redirection entries of a controller can be reached: the
/// register index has eight bits, and two registers make an entry.
pub const REACHABLE_ENTRIES: u32 = 120;

/// An I/O interrupt controller in use.
#[derive(Debug, Clone, Copy, PartialEq, Eq, Structural)]
pub struct IoApic {
    pub id: u8,
    pub phys_addr: u32,
    /// The first global interrupt that the controller serves.
    pub gsi_base: u32,
    /// How many redirection entries the controller has.
    pub redir_entries: u32,
}

/// A register of a controller to be read: the register's index is written
/// to the index register at `base`, then the data window is read.
#[derive(Debug, Clone, Copy, PartialEq, Eq, Structural)]
pub struct RegisterRead {
    pub base: u64,
    pub reg: u8,
}

/// A register of a controller to be written: the register's index is
/// written to the index register at `base`, then `value` to the data
/// window.
#[derive(Debug, Clone, Copy, PartialEq, Eq, Structural)]
pub struct RegisterWrite {
    pub base: u64,
    pub reg: u8,
    pub value: u32,
}

/// The list of the controllers in use.
pub struct IoApicTable {
    pub ioapics: Vec<IoApic>,
}

/// Where a controller at the physical address `phys_addr` is seen when
/// physical memory is mapped at `phys_offset`; the sum wraps at 64 bits.
pub open spec fn mapped_base(phys_addr: u32, phys_offset: u64) -> u64 {
    ((phys_addr + phys_offset) % 0x1_0000_0000_0000_0000) as u64
}

/// The identifier of a controller from its register 0: the top byte.
pub open spec fn id_in(register: u32) -> u8 {
    (register >> 24) as u8
}

/// The version of a controller from its register 1: the low byte.
pub open spec fn version_in(register: u32) -> u8 {
    (register & 0xFF) as u8
}

/// The number of redirection entries of a controller from its register 1:
/// one more than the third byte.
pub open spec fn redirection_entries_in(register: u32) -> u32 {
    (((register >> 16) & 0xFF) + 1) as u32
}

/// The number of redirection entries from register 1, which holds the
/// index of the last entry in its third byte.
pub fn redirection_entries(register: u32) -> (count: u32)
    ensures
        count == redirection_entries_in(register),
        1 <= count <= 256,
{
    let last = (register >> 16) & 0xFF;
    assert(last <= 0xFF) by (bit_vector)
        requires
            last == (register >> 16) & 0xFF,
    ;
    last + 1
}

impl IoApic {
    /// Where the controller is seen when physical memory is mapped at
    /// `phys_offset`; `None` where that comes to address zero.
    pub fn base(&self, phys_offset: u64) -> (base: Option<u64>)
        ensures
            base == if mapped_base(self.phys_addr, phys_offset) == 0 {
                None
            } else {
                Some(mapped_base(self.phys_addr, phys_offset))
            },
    {
        let virt = (self.phys_addr as u64).wrapping_add(phys_offset);
        if virt == 0 {
            None
        } else {
            Some(virt)
        }
    }

    /// The read of register `reg` of the controller; `None` where the
    /// controller is not reachable.
    pub fn register(&self, phys_offset: u64, reg: u8) -> (read: Option<RegisterRead>)
        ensures
            read == if mapped_base(self.phys_addr, phys_offset) == 0 {
                None
            } else {
                Some(RegisterRead { base: mapped_base(self.phys_addr, phys_offset), reg })
            },
    {
        match self.base(phys_offset) {
            Some(base) => Some(RegisterRead { base, reg }),
            None => None,
        }
    }

    /// The identifier that the controller reports, given what its
    /// register 0 holds; `None` where the controller is not reachable.
    pub fn read_id(&self, phys_offset: u64, register: u32) -> (id: Option<u8>)
        ensures
            id == if mapped_base(self.phys_addr, phys_offset) == 0 {
                None
            } else {
                Some(id_in(register))
            },
    {
        match self.base(phys_offset) {
            Some(_) => Some((register >> 24) as u8),
            None => None,
        }
    }

    /// The version that the controller reports, given what its register 1
    /// holds; `None` where the controller is not reachable.
    pub fn read_version(&self, phys_offset: u64, register: u32) -> (version: Option<u8>)
        ensures
            version == if mapped_base(self.phys_addr, phys_offset) == 0 {
                None
            } else {
                Some(version_in(register))
            },
    {
        match self.base(phys_offset) {
            Some(_) => Some((register & 0xFF) as u8),
            None => None,
        }
    }

    /// The number of redirection entries that the controller reports,
    /// given what its register 1 holds; `None` where the controller is not
    /// reachable.
    pub fn read_redir_count(&self, phys_offset: u64, register: u32) -> (count: Option<u32>)
        ensures
            count == if mapped_base(self.phys_addr, phys_offset) == 0 {
                None
            } else {
                Some(redirection_entries_in(register))
            },
    {
        match self.base(phys_offset) {
            Some(_) => Some(redirection_entries(register)),
            None => None,
        }
    }
}

/// The reads of the version registers of the controllers that the
/// firmware describes, one for each in order: `None` for a controller
/// that is not reachable.
pub fn version_requests(ioapics: &Vec<IoApicInfo>, phys_offset: u64) -> (reads: Vec<
    Option<RegisterRead>,
>)
    ensures
        reads@.len() == ioapics@.len(),
        forall|i: int|
            0 <= i < ioapics@.len() ==> #[trigger] reads@[i] == if mapped_base(
                ioapics@[i].addr,
                phys_offset,
            ) == 0 {
                None
            } else {
                Some(RegisterRead { base: mapped_base(ioapics@[i].addr, phys_offset), reg: 1 })
            },
{
    let mut reads: Vec<Option<RegisterRead>> = Vec::new();
    let mut i: usize = 0;
    while i < ioapics.len()
        invariant
            i <= ioapics.len(),
            reads@.len() == i,
            forall|k: int|
                0 <= k < i ==> #[trigger] reads@[k] == if mapped_base(
                    ioapics@[k].addr,
                    phys_offset,
                ) == 0 {
                    None
                } else {
                    Some(RegisterRead { base: mapped_base(ioapics@[k].addr, phys_offset), reg: 1 })
                },
        decreases ioapics.len() - i,
    {
        let virt = (ioapics[i].addr as u64).wrapping_add(phys_offset);
        if virt == 0 {
            reads.push(None);
        } else {
            reads.push(Some(RegisterRead { base: virt, reg: 1 }));
        }
        i += 1;
    }
    reads
}

/// What the version register of controller `i` held, or `None` where it
/// was not read.
pub open spec fn reply_at(replies: Seq<Option<u32>>, i: int) -> Option<u32> {
    if 0 <= i < replies.len() {
        replies[i]
    } else {
        None
    }
}

/// The controller that the firmware describes as `info`, with the number
/// of redirection entries taken from its version register where that was
/// read.
pub open spec fn ioapic_from(info: IoApicInfo, version_register: Option<u32>) -> IoApic {
    IoApic {
        id: info.id,
        phys_addr: info.addr,
        gsi_base: info.gsi_base,
        redir_entries: match version_register {
            Some(register) => redirection_entries_in(register),
            None => DEFAULT_REDIRECTION_ENTRIES,
        },
    }
}

/// Takes the controllers that the firmware describes into use, behind
/// those already in use. `version_registers` holds for each controller
/// what its version register held, or `None` where it was not read.
pub fn init_from_acpi(
    table: &mut IoApicTable,
    ioapics: &Vec<IoApicInfo>,
    version_registers: &Vec<Option<u32>>,
)
    ensures
        final(table).ioapics@ == old(table).ioapics@ + Seq::new(
            ioapics@.len(),
            |i: int| ioapic_from(ioapics@[i], reply_at(version_registers@, i)),
        ),
{
    let mut i: usize = 0;
    assert(table.ioapics@ =~= old(table).ioapics@ + Seq::new(
        0,
        |i: int| ioapic_from(ioapics@[i], reply_at(version_registers@, i)),
    ));
    while i < ioapics.len()
        invariant
            i <= ioapics.len(),
            table.ioapics@ == old(table).ioapics@ + Seq::new(
                i as nat,
                |k: int| ioapic_from(ioapics@[k], reply_at(version_registers@, k)),
            ),
        decreases ioapics.len() - i,
    {
        let info = ioapics[i];
        let reply = if i < version_registers.len() {
            version_registers[i]
        } else {
            None
        };
        let redir_entries = match reply {
            Some(register) => redirection_entries(register),
            None => DEFAULT_REDIRECTION_ENTRIES,
        };
        table.ioapics.push(
            IoApic { id: info.id, phys_addr: info.addr, gsi_base: info.gsi_base, redir_entries },
        );
        i += 1;
        assert(table.ioapics@ =~= old(table).ioapics@ + Seq::new(
            i as nat,
            |k: int| ioapic_from(ioapics@[k], reply_at(version_registers@, k)),
        ));
    }
}

/// A copy of the list of controllers in use.
pub fn list_ioapics(table: &IoApicTable) -> (list: Vec<IoApic>)
    ensures
        list@ == table.ioapics@,
{
    table.ioapics.clone()
}

/// Whether the controller `io` serves the global interrupt `gsi`: its
/// entries serve the interrupts from `gsi_base` on.
pub open spec fn serves(io: IoApic, gsi: u32) -> bool {
    io.gsi_base <= gsi < io.gsi_base + io.redir_entries
}

/// The first controller among `table` that serves `gsi`, as its position
/// and the number of the redirection entry for `gsi` in it.
pub open spec fn resolve(table: Seq<IoApic>, gsi: u32) -> Option<(int, int)>
    decreases table.len(),
{
    if table.len() == 0 {
        None
    } else {
        match resolve(table.drop_last(), gsi) {
            Some(found) => Some(found),
            None => if serves(table.last(), gsi) {
                Some((table.len() - 1, gsi - table.last().gsi_base))
            } else {
                None
            },
        }
    }
}

/// What resolving a global interrupt comes to: a controller that serves
/// it, with none before it that does, or none at all.
pub proof fn lemma_resolve(table: Seq<IoApic>, gsi: u32)
    ensures
        match resolve(table, gsi) {
            Some((index, local)) => {
                &&& 0 <= index < table.len()
                &&& serves(table[index], gsi)
                &&& local == gsi - table[index].gsi_base
                &&& 0 <= local < table[index].redir_entries
                &&& forall|i: int| 0 <= i < index ==> !serves(#[trigger] table[i], gsi)
            },
            None => forall|i: int| 0 <= i < table.len() ==> !serves(#[trigger] table[i], gsi),
        },
    decreases table.len(),
{
    if table.len() > 0 {
        lemma_resolve(table.drop_last(), gsi);
        assert forall|i: int| 0 <= i < table.len() - 1 implies table.drop_last()[i]
            == table[i] by {}
        match resolve(table.drop_last(), gsi) {
            Some((index, local)) => {
                assert(table.drop_last()[index] == table[index]);
                assert forall|i: int| 0 <= i < index implies !serves(#[trigger] table[i], gsi) by {
                    assert(table.drop_last()[i] == table[i]);
                }
            },
            None => {
                assert forall|i: int| 0 <= i < table.len() - 1 implies !serves(
                    #[trigger] table[i],
                    gsi,
                ) by {
                    assert(table.drop_last()[i] == table[i]);
                }
            },
        }
    }
}

/// The controller that serves the global interrupt `gsi`, as its position
/// in the table and the number of the redirection entry for `gsi` in it.
pub fn find_ioapic_for_gsi(table: &IoApicTable, gsi: u32) -> (found: Option<(usize, u32)>)
    ensures
        match found {
            Some((index, local)) => resolve(table.ioapics@, gsi) == Some(
                (index as int, local as int),
            ),
            None => resolve(table.ioapics@, gsi) is None,
        },
{
    let mut i: usize = 0;
    while i < table.ioapics.len()
        invariant
            i <= table.ioapics.len(),
            resolve(table.ioapics@.take(i as int), gsi) is None,
        decreases table.ioapics.len() - i,
    {
        let io = table.ioapics[i];
        proof {
            assert(table.ioapics@.take(i as int + 1).drop_last() =~= table.ioapics@.take(
                i as int,
            ));
        }
        if gsi >= io.gsi_base && (gsi as u64) < io.gsi_base as u64 + io.redir_entries as u64 {
            proof {
                lemma_resolve_prefix(table.ioapics@, i as int + 1, gsi);
            }
            return Some((i, gsi - io.gsi_base));
        }
        i += 1;
    }
    assert(table.ioapics@.take(i as int) =~= table.ioapics@);
    None
}

/// What is resolved in the first `n` controllers is resolved the same way
/// in the whole table.
pub proof fn lemma_resolve_prefix(table: Seq<IoApic>, n: int, gsi: u32)
    requires
        0 <= n <= table.len(),
        resolve(table.take(n), gsi) is Some,
    ensures
        resolve(table, gsi) == resolve(table.take(n), gsi),
    decreases table.len() - n,
{
    if n < table.len() {
        assert(table.take(n + 1).drop_last() =~= table.take(n));
        lemma_resolve_prefix(table, n + 1, gsi);
    } else {
        assert(table.take(n) =~= table);
    }
}

/// The register index of the low dword of redirection entry `local`.
pub open spec fn low_register(local: int) -> u8 {
    (REDIRECTION_BASE + 2 * local) as u8
}

/// The register index of the high dword of redirection entry `local`.
pub open spec fn high_register(local: int) -> u8 {
    (REDIRECTION_BASE + 2 * local + 1) as u8
}

/// Where the redirection entry for `gsi` is reached: the base of the
/// controller that serves it and the number of the entry in it. There is
/// none where no controller serves `gsi`, where the controller is not
/// reachable, or where the entry lies beyond the registers that can be
/// indexed.
pub open spec fn entry_location(table: Seq<IoApic>, gsi: u32, phys_offset: u64) -> Option<
    (u64, int),
> {
    match resolve(table, gsi) {
        Some((index, local)) => if mapped_base(table[index].phys_addr, phys_offset) != 0
            && local < REACHABLE_ENTRIES {
            Some((mapped_base(table[index].phys_addr, phys_offset), local))
        } else {
            None
        },
        None => None,
    }
}

/// The two writes that program a redirection entry: the high dword, which
/// holds the destination, goes first, the low dword, which holds vector
/// and mask, second.
pub open spec fn entry_writes(base: u64, local: int, low: u32, high: u32) -> Seq<RegisterWrite> {
    seq![
        RegisterWrite { base, reg: high_register(local), value: high },
        RegisterWrite { base, reg: low_register(local), value: low },
    ]
}

/// The writes that program the redirection entry for `gsi` with `low` and
/// `high`; none where the entry cannot be reached.
pub open spec fn redirection_writes(
    table: Seq<IoApic>,
    gsi: u32,
    low: u32,
    high: u32,
    phys_offset: u64,
) -> Seq<RegisterWrite> {
    match entry_location(table, gsi, phys_offset) {
        Some((base, local)) => entry_writes(base, local, low, high),
        None => Seq::empty(),
    }
}

/// Where the redirection entry for `gsi` is reached, as the base of its
/// controller and the entry's number in it.
pub fn locate_entry(table: &IoApicTable, gsi: u32, phys_offset: u64) -> (found: Option<(u64, u8)>)
    ensures
        match found {
            Some((base, local)) => entry_location(table.ioapics@, gsi, phys_offset) == Some(
                (base, local as int),
            ) && local < REACHABLE_ENTRIES,
            None => entry_location(table.ioapics@, gsi, phys_offset) is None,
        },
{
    match find_ioapic_for_gsi(table, gsi) {
        Some((index, local)) => {
            proof {
                lemma_resolve(table.ioapics@, gsi);
            }
            match table.ioapics[index].base(phys_offset) {
                Some(base) => if local < REACHABLE_ENTRIES {
                    Some((base, local as u8))
                } else {
                    None
                },
                None => None,
            }
        },
        None => None,
    }
}

/// The writes that program the redirection entry for the global interrupt
/// `gsi` with the dwords `low` and `high`, in the order in which they are
/// to be made. No writes come back where the entry cannot be reached.
pub fn write_redirection_entry_for_gsi(
    table: &IoApicTable,
    gsi: u32,
    low: u32,
    high: u32,
    phys_offset: u64,
) -> (writes: Vec<RegisterWrite>)
    ensures
        writes@ == redirection_writes(table.ioapics@, gsi, low, high, phys_offset),
{
    let mut writes: Vec<RegisterWrite> = Vec::new();
    match locate_entry(table, gsi, phys_offset) {
        Some((base, local)) => {
            let reg_low: u8 = REDIRECTION_BASE + 2 * local;
            writes.push(RegisterWrite { base, reg: reg_low + 1, value: high });
            writes.push(RegisterWrite { base, reg: reg_low, value: low });
            assert(writes@ =~= entry_writes(base, local as int, low, high));
        },
        None => {},
    }
    writes
}

/// The low dword that an entry for the legacy line `source` is programmed
/// with before any processor takes it: the vector `source` above
/// [`LEGACY_VECTOR_BASE`], masked.
pub open spec fn masked_default_low(source: u32) -> u32 {
    (((LEGACY_VECTOR_BASE + source) as u32) & 0xFF) | REDIRECTION_MASK_BIT
}

/// The writes that program the entries of the overrides `isos`, in order:
/// each is given its default vector, masked, with destination zero.
pub open spec fn iso_writes(table: Seq<IoApic>, isos: Seq<IsoInfo>, phys_offset: u64) -> Seq<
    RegisterWrite,
>
    decreases isos.len(),
{
    if isos.len() == 0 {
        Seq::empty()
    } else {
        iso_writes(table, isos.drop_last(), phys_offset) + redirection_writes(
            table,
            isos.last().gsi,
            masked_default_low(isos.last().source as u32),
            0,
            phys_offset,
        )
    }
}

/// The writes that program the entries of the legacy lines below `n`, in
/// order: line `k` is taken to arrive as global interrupt `k`.
pub open spec fn legacy_writes(table: Seq<IoApic>, phys_offset: u64, n: int) -> Seq<RegisterWrite>
    decreases n,
{
    if n <= 0 {
        Seq::empty()
    } else {
        legacy_writes(table, phys_offset, n - 1) + redirection_writes(
            table,
            (n - 1) as u32,
            masked_default_low((n - 1) as u32),
            0,
            phys_offset,
        )
    }
}

/// The low dword of a masked entry with the default vector of `source`.
pub fn default_low(source: u32) -> (low: u32)
    requires
        source <= 0xFF,
    ensures
        low == masked_default_low(source),
{
    ((LEGACY_VECTOR_BASE + source) & 0xFF) | REDIRECTION_MASK_BIT
}

/// The writes that program the redirection entries named by the interrupt
/// source overrides of the firmware: each with the default vector of its
/// legacy line, masked, and with destination zero.
pub fn apply_isos_from_acpi(table: &IoApicTable, isos: &Vec<IsoInfo>, phys_offset: u64) -> (writes:
    Vec<RegisterWrite>)
    ensures
        writes@ == iso_writes(table.ioapics@, isos@, phys_offset),
{
    let mut writes: Vec<RegisterWrite> = Vec::new();
    let mut i: usize = 0;
    while i < isos.len()
        invariant
            i <= isos.len(),
            writes@ == iso_writes(table.ioapics@, isos@.take(i as int), phys_offset),
        decreases isos.len() - i,
    {
        let iso = isos[i];
        let mut pair = write_redirection_entry_for_gsi(
            table,
            iso.gsi,
            default_low(iso.source as u32),
            0,
            phys_offset,
        );
        proof {
            assert(isos@.take(i as int + 1).drop_last() =~= isos@.take(i as int));
        }
        writes.append(&mut pair);
        i += 1;
    }
    assert(isos@.take(i as int) =~= isos@);
    writes
}

/// The writes that program the redirection entries of the sixteen legacy
/// lines, taken to arrive as the global interrupts 0 to 15: each with its
/// default vector, masked, and with destination zero.
pub fn apply_legacy_isa_fallback(table: &IoApicTable, phys_offset: u64) -> (writes: Vec<
    RegisterWrite,
>)
    ensures
        writes@ == legacy_writes(table.ioapics@, phys_offset, 16),
{
    let mut writes: Vec<RegisterWrite> = Vec::new();
    let mut irq: u32 = 0;
    while irq < 16
        invariant
            irq <= 16,
            writes@ == legacy_writes(table.ioapics@, phys_offset, irq as int),
        decreases 16 - irq,
    {
        let mut pair = write_redirection_entry_for_gsi(
            table,
            irq,
            default_low(irq),
            0,
            phys_offset,
        );
        writes.append(&mut pair);
        irq += 1;
    }
    writes
}

/// The read of the low dword of the entry for `gsi`; none where the entry
/// cannot be reached.
pub open spec fn entry_read(table: Seq<IoApic>, gsi: u32, phys_offset: u64) -> Seq<RegisterRead> {
    match entry_location(table, gsi, phys_offset) {
        Some((base, local)) => seq![RegisterRead { base, reg: low_register(local) }],
        None => Seq::empty(),
    }
}

/// The reads of the low dwords of the entries of the overrides `isos`, in
/// order.
pub open spec fn iso_reads(table: Seq<IoApic>, isos: Seq<IsoInfo>, phys_offset: u64) -> Seq<
    RegisterRead,
>
    decreases isos.len(),
{
    if isos.len() == 0 {
        Seq::empty()
    } else {
        iso_reads(table, isos.drop_last(), phys_offset) + entry_read(
            table,
            isos.last().gsi,
            phys_offset,
        )
    }
}

/// The reads of the low dwords of the entries of the legacy lines below
/// `n`, in order.
pub open spec fn legacy_reads(table: Seq<IoApic>, phys_offset: u64, n: int) -> Seq<RegisterRead>
    decreases n,
{
    if n <= 0 {
        Seq::empty()
    } else {
        legacy_reads(table, phys_offset, n - 1) + entry_read(table, (n - 1) as u32, phys_offset)
    }
}

/// The entries that a processor takes over: first those of the overrides,
/// then those of the sixteen legacy lines, each as the read of its low
/// dword.
pub open spec fn enable_reads(table: Seq<IoApic>, isos: Seq<IsoInfo>, phys_offset: u64) -> Seq<
    RegisterRead,
> {
    iso_reads(table, isos, phys_offset) + legacy_reads(table, phys_offset, 16)
}

/// Whether `reg` is the low dword of a redirection entry.
pub open spec fn is_entry_low(reg: u8) -> bool {
    REDIRECTION_BASE <= reg < 0xFF && reg % 2 == 0
}

/// The reads that [`enable_isos_for_local`] needs answered: the low dwords
/// of the entries that it is going to unmask, in its order.
pub fn enable_targets(table: &IoApicTable, isos: &Vec<IsoInfo>, phys_offset: u64) -> (reads: Vec<
    RegisterRead,
>)
    ensures
        reads@ == enable_reads(table.ioapics@, isos@, phys_offset),
        forall|k: int| 0 <= k < reads@.len() ==> is_entry_low(#[trigger] reads@[k].reg),
{
    let mut reads: Vec<RegisterRead> = Vec::new();
    let mut i: usize = 0;
    while i < isos.len()
        invariant
            i <= isos.len(),
            reads@ == iso_reads(table.ioapics@, isos@.take(i as int), phys_offset),
            forall|k: int| 0 <= k < reads@.len() ==> is_entry_low(#[trigger] reads@[k].reg),
        decreases isos.len() - i,
    {
        proof {
            assert(isos@.take(i as int + 1).drop_last() =~= isos@.take(i as int));
        }
        match locate_entry(table, isos[i].gsi, phys_offset) {
            Some((base, local)) => {
                reads.push(RegisterRead { base, reg: REDIRECTION_BASE + 2 * local });
                assert(reads@ =~= iso_reads(
                    table.ioapics@,
                    isos@.take(i as int + 1),
                    phys_offset,
                ));
            },
            None => {
                assert(reads@ =~= iso_reads(
                    table.ioapics@,
                    isos@.take(i as int + 1),
                    phys_offset,
                ));
            },
        }
        i += 1;
    }
    assert(isos@.take(i as int) =~= isos@);
    let ghost first = reads@;
    let mut irq: u32 = 0;
    assert(reads@ =~= first + legacy_reads(table.ioapics@, phys_offset, 0));
    while irq < 16
        invariant
            irq <= 16,
            reads@ == first + legacy_reads(table.ioapics@, phys_offset, irq as int),
            forall|k: int| 0 <= k < reads@.len() ==> is_entry_low(#[trigger] reads@[k].reg),
        decreases 16 - irq,
    {
        match locate_entry(table, irq, phys_offset) {
            Some((base, local)) => {
                reads.push(RegisterRead { base, reg: REDIRECTION_BASE + 2 * local });
                assert(reads@ =~= first + legacy_reads(
                    table.ioapics@,
                    phys_offset,
                    irq as int + 1,
                ));
            },
            None => {
                assert(reads@ =~= first + legacy_reads(
                    table.ioapics@,
                    phys_offset,
                    irq as int + 1,
                ));
            },
        }
        irq += 1;
    }
    reads
}

/// The high dword that routes an entry to the processor whose local
/// interrupt controller has the identifier `apic_id`: the identifier sits
/// in the top byte.
pub open spec fn destination_high(apic_id: u8) -> u32 {
    (apic_id as u32) << 24
}

/// The low dword `low` with the mask bit cleared.
pub open spec fn unmasked(low: u32) -> u32 {
    low & !REDIRECTION_MASK_BIT
}

/// The writes that hand the entries read as `reads` to a processor:
/// for each entry whose low dword was read, first the destination is
/// written to the high dword, then the low dword is written back with the
/// mask bit cleared. `lows[k]` is what read number `k` brought back; an
/// entry whose low dword was not read is left alone.
pub open spec fn unmask_writes(reads: Seq<RegisterRead>, lows: Seq<u32>, apic_id: u8) -> Seq<
    RegisterWrite,
>
    decreases reads.len(),
{
    if reads.len() == 0 {
        Seq::empty()
    } else {
        let k = reads.len() - 1;
        let before = unmask_writes(reads.drop_last(), lows, apic_id);
        if k < lows.len() {
            before + seq![
                RegisterWrite {
                    base: reads[k].base,
                    reg: (reads[k].reg + 1) as u8,
                    value: destination_high(apic_id),
                },
                RegisterWrite { base: reads[k].base, reg: reads[k].reg, value: unmasked(lows[k]) },
            ]
        } else {
            before
        }
    }
}

/// The writes that hand the redirection entries of the overrides and of
/// the sixteen legacy lines to the processor whose local interrupt
/// controller has the identifier `local_apic_id`, in the order in which
/// they are to be made. `lows` holds what the reads of
/// [`enable_targets`] brought back, in their order.
pub fn enable_isos_for_local(
    table: &IoApicTable,
    isos: &Vec<IsoInfo>,
    phys_offset: u64,
    local_apic_id: u8,
    lows: &Vec<u32>,
) -> (writes: Vec<RegisterWrite>)
    ensures
        writes@ == unmask_writes(
            enable_reads(table.ioapics@, isos@, phys_offset),
            lows@,
            local_apic_id,
        ),
{
    let reads = enable_targets(table, isos, phys_offset);
    let mut writes: Vec<RegisterWrite> = Vec::new();
    let mut k: usize = 0;
    while k < reads.len()
        invariant
            k <= reads.len(),
            forall|j: int| 0 <= j < reads@.len() ==> is_entry_low(#[trigger] reads@[j].reg),
            writes@ == unmask_writes(reads@.take(k as int), lows@, local_apic_id),
        decreases reads.len() - k,
    {
        proof {
            assert(reads@.take(k as int + 1).drop_last() =~= reads@.take(k as int));
        }
        if k < lows.len() {
            let read = reads[k];
            assert(is_entry_low(reads@[k as int].reg));
            let ghost before = writes@;
            writes.push(
                RegisterWrite {
                    base: read.base,
                    reg: read.reg + 1,
                    value: (local_apic_id as u32) << 24,
                },
            );
            writes.push(
                RegisterWrite {
                    base: read.base,
                    reg: read.reg,
                    value: lows[k] & !REDIRECTION_MASK_BIT,
                },
            );
            assert(writes@ =~= before + seq![
                RegisterWrite {
                    base: read.base,
                    reg: (read.reg + 1) as u8,
                    value: destination_high(local_apic_id),
                },
                RegisterWrite { base: read.base, reg: read.reg, value: unmasked(lows@[k as int]) },
            ]);
        }
        k += 1;
    }
    assert(reads@.take(k as int) =~= reads@);
    writes
}

/// Whether the low dword `low` masks its entry.
pub open spec fn is_masked(low: u32) -> bool {
    low & REDIRECTION_MASK_BIT != 0
}

/// The destination that the high dword `high` names.
pub open spec fn destination_of(high: u32) -> u8 {
    (high >> 24) as u8
}

/// The registers `regs` of all controllers after the write `w`: `regs`
/// gives the content of a register by the base of its controller and its
/// index.
pub open spec fn write_register(regs: spec_fn(u64, u8) -> u32, w: RegisterWrite) -> spec_fn(
    u64,
    u8,
) -> u32 {
    |base: u64, reg: u8|
        if base == w.base && reg == w.reg {
            w.value
        } else {
            regs(base, reg)
        }
}

/// The registers `regs` after the writes `writes`, made in order.
pub open spec fn registers_after(regs: spec_fn(u64, u8) -> u32, writes: Seq<RegisterWrite>)
    -> spec_fn(u64, u8) -> u32
    decreases writes.len(),
{
    if writes.len() == 0 {
        regs
    } else {
        write_register(registers_after(regs, writes.drop_last()), writes.last())
    }
}

/// Whether the entry whose low dword is register `reg` of the controller
/// at `base` is masked or routed to `apic_id`.
pub open spec fn entry_guarded(regs: spec_fn(u64, u8) -> u32, base: u64, reg: u8, apic_id: u8)
    -> bool {
    is_masked(regs(base, reg)) || destination_of(regs(base, (reg + 1) as u8)) == apic_id
}

/// Whether every redirection entry of every controller is masked or
/// routed to `apic_id`.
pub open spec fn all_guarded(regs: spec_fn(u64, u8) -> u32, apic_id: u8) -> bool {
    forall|base: u64, reg: u8| is_entry_low(reg) ==> #[trigger] entry_guarded(regs, base, reg, apic_id)
}

/// Whether every write among `writes` that goes to the low dword of an
/// entry masks the entry.
pub open spec fn writes_masked(writes: Seq<RegisterWrite>) -> bool {
    forall|k: int|
        0 <= k < writes.len() && is_entry_low((#[trigger] writes[k]).reg) ==> is_masked(
            writes[k].value,
        )
}

/// Clearing the mask bit unmasks, setting it masks, and a destination is
/// read back as it was written.
pub proof fn lemma_redirection_bits(low: u32, source: u32, apic_id: u8)
    ensures
        !is_masked(unmasked(low)),
        is_masked(masked_default_low(source)),
        destination_of(destination_high(apic_id)) == apic_id,
{
    assert((low & !0x1_0000u32) & 0x1_0000u32 == 0) by (bit_vector);
    let vector = (LEGACY_VECTOR_BASE + source) as u32;
    assert(((vector & 0xFF) | 0x1_0000u32) & 0x1_0000u32 != 0) by (bit_vector);
    assert((((apic_id as u32) << 24) >> 24) as u8 == apic_id) by (bit_vector);
}

/// Making one run of writes and then another is making the two runs one
/// behind the other.
pub proof fn lemma_registers_after_concat(
    regs: spec_fn(u64, u8) -> u32,
    first: Seq<RegisterWrite>,
    second: Seq<RegisterWrite>,
)
    ensures
        registers_after(regs, first + second) == registers_after(
            registers_after(regs, first),
            second,
        ),
    decreases second.len(),
{
    if second.len() == 0 {
        assert(first + second =~= first);
    } else {
        assert((first + second).drop_last() =~= first + second.drop_last());
        assert((first + second).last() == second.last());
        lemma_registers_after_concat(regs, first, second.drop_last());
    }
}

/// One more write changes the register it names and no other.
pub proof fn lemma_registers_after_push(
    regs: spec_fn(u64, u8) -> u32,
    writes: Seq<RegisterWrite>,
    w: RegisterWrite,
)
    ensures
        registers_after(regs, writes.push(w)) == write_register(registers_after(regs, writes), w),
{
    assert(writes.push(w).drop_last() =~= writes);
}

/// While a processor takes entries over, an entry is never seen unmasked
/// with another destination than that processor: after any number of the
/// writes of [`unmask_writes`], an entry that was masked or routed to
/// `apic_id` before the first write still is, whatever the other entries
/// hold. The destination of an entry is written before its mask bit is
/// cleared.
pub proof fn lemma_enable_keeps_entry_guarded(
    regs: spec_fn(u64, u8) -> u32,
    reads: Seq<RegisterRead>,
    lows: Seq<u32>,
    apic_id: u8,
    n: int,
    base: u64,
    reg: u8,
)
    requires
        forall|k: int| 0 <= k < reads.len() ==> is_entry_low(#[trigger] reads[k].reg),
        0 <= n <= unmask_writes(reads, lows, apic_id).len(),
        is_entry_low(reg),
        entry_guarded(regs, base, reg, apic_id),
    ensures
        entry_guarded(
            registers_after(regs, unmask_writes(reads, lows, apic_id).take(n)),
            base,
            reg,
            apic_id,
        ),
    decreases reads.len(),
{
    let writes = unmask_writes(reads, lows, apic_id);
    if reads.len() == 0 {
        assert(writes.take(n) =~= Seq::<RegisterWrite>::empty());
    } else {
        let k = reads.len() - 1;
        let before = unmask_writes(reads.drop_last(), lows, apic_id);
        assert forall|j: int| 0 <= j < reads.drop_last().len() implies is_entry_low(
            #[trigger] reads.drop_last()[j].reg,
        ) by {
            assert(reads.drop_last()[j] == reads[j]);
        }
        if n <= before.len() {
            assert(writes.take(n) =~= before.take(n));
            lemma_enable_keeps_entry_guarded(regs, reads.drop_last(), lows, apic_id, n, base, reg);
        } else {
            lemma_enable_keeps_entry_guarded(
                regs,
                reads.drop_last(),
                lows,
                apic_id,
                before.len() as int,
                base,
                reg,
            );
            assert(before.take(before.len() as int) =~= before);
            let mid = registers_after(regs, before);
            let high = RegisterWrite {
                base: reads[k].base,
                reg: (reads[k].reg + 1) as u8,
                value: destination_high(apic_id),
            };
            let low = RegisterWrite {
                base: reads[k].base,
                reg: reads[k].reg,
                value: unmasked(lows[k]),
            };
            lemma_redirection_bits(lows[k], 0, apic_id);
            assert(is_entry_low(reads[k].reg));
            let after_high = write_register(mid, high);
            assert(entry_guarded(after_high, base, reg, apic_id));
            let after_low = write_register(after_high, low);
            assert(entry_guarded(after_low, base, reg, apic_id));
            lemma_registers_after_push(regs, before, high);
            lemma_registers_after_push(regs, before.push(high), low);
            if n == before.len() + 1 {
                assert(writes.take(n) =~= before.push(high));
            } else {
                assert(writes.take(n) =~= before.push(high).push(low));
            }
        }
    }
}

/// While a processor takes entries over, no entry is ever seen unmasked
/// with another destination than that processor, if none was before the
/// first write.
pub proof fn lemma_enable_keeps_entries_guarded(
    regs: spec_fn(u64, u8) -> u32,
    reads: Seq<RegisterRead>,
    lows: Seq<u32>,
    apic_id: u8,
    n: int,
)
    requires
        forall|k: int| 0 <= k < reads.len() ==> is_entry_low(#[trigger] reads[k].reg),
        all_guarded(regs, apic_id),
        0 <= n <= unmask_writes(reads, lows, apic_id).len(),
    ensures
        all_guarded(registers_after(regs, unmask_writes(reads, lows, apic_id).take(n)), apic_id),
{
    let after = registers_after(regs, unmask_writes(reads, lows, apic_id).take(n));
    assert forall|base: u64, reg: u8| is_entry_low(reg) implies #[trigger] entry_guarded(
        after,
        base,
        reg,
        apic_id,
    ) by {
        assert(entry_guarded(regs, base, reg, apic_id));
        lemma_enable_keeps_entry_guarded(regs, reads, lows, apic_id, n, base, reg);
    }
}

/// Where a processor takes entries over, the write that clears the mask
/// bit of an entry comes directly behind the write that routes the entry
/// to the processor: every write to the low dword of an entry is unmasked
/// and follows the write of the destination to the high dword of the same
/// entry.
pub proof fn lemma_destination_is_written_first(
    reads: Seq<RegisterRead>,
    lows: Seq<u32>,
    apic_id: u8,
    j: int,
)
    requires
        forall|k: int| 0 <= k < reads.len() ==> is_entry_low(#[trigger] reads[k].reg),
        0 <= j < unmask_writes(reads, lows, apic_id).len(),
        is_entry_low(unmask_writes(reads, lows, apic_id)[j].reg),
    ensures
        j >= 1,
        !is_masked(unmask_writes(reads, lows, apic_id)[j].value),
        unmask_writes(reads, lows, apic_id)[j - 1] == (RegisterWrite {
            base: unmask_writes(reads, lows, apic_id)[j].base,
            reg: (unmask_writes(reads, lows, apic_id)[j].reg + 1) as u8,
            value: destination_high(apic_id),
        }),
    decreases reads.len(),
{
    if reads.len() > 0 {
        let k = reads.len() - 1;
        let before = unmask_writes(reads.drop_last(), lows, apic_id);
        assert forall|i: int| 0 <= i < reads.drop_last().len() implies is_entry_low(
            #[trigger] reads.drop_last()[i].reg,
        ) by {
            assert(reads.drop_last()[i] == reads[i]);
        }
        if j < before.len() {
            lemma_destination_is_written_first(reads.drop_last(), lows, apic_id, j);
        } else {
            assert(is_entry_low(reads[k].reg));
            lemma_redirection_bits(lows[k], 0, apic_id);
        }
    }
}

/// The read of the entry for `gsi`, where there is one, is of the low
/// dword of a redirection entry.
pub proof fn lemma_entry_read_is_entry(table: Seq<IoApic>, gsi: u32, phys_offset: u64)
    ensures
        forall|k: int|
            0 <= k < entry_read(table, gsi, phys_offset).len() ==> is_entry_low(
                #[trigger] entry_read(table, gsi, phys_offset)[k].reg,
            ),
{
    lemma_resolve(table, gsi);
}

/// Every read among those of the overrides is of the low dword of a
/// redirection entry.
pub proof fn lemma_iso_reads_are_entries(table: Seq<IoApic>, isos: Seq<IsoInfo>, phys_offset: u64)
    ensures
        forall|k: int|
            0 <= k < iso_reads(table, isos, phys_offset).len() ==> is_entry_low(
                #[trigger] iso_reads(table, isos, phys_offset)[k].reg,
            ),
    decreases isos.len(),
{
    if isos.len() > 0 {
        let before = iso_reads(table, isos.drop_last(), phys_offset);
        let one = entry_read(table, isos.last().gsi, phys_offset);
        lemma_iso_reads_are_entries(table, isos.drop_last(), phys_offset);
        lemma_entry_read_is_entry(table, isos.last().gsi, phys_offset);
        assert forall|k: int| 0 <= k < (before + one).len() implies is_entry_low(
            #[trigger] (before + one)[k].reg,
        ) by {
            if k < before.len() {
                assert((before + one)[k] == before[k]);
            } else {
                assert((before + one)[k] == one[k - before.len()]);
            }
        }
    }
}

/// Every read among those of the legacy lines below `n` is of the low
/// dword of a redirection entry.
pub proof fn lemma_legacy_reads_are_entries(table: Seq<IoApic>, phys_offset: u64, n: int)
    ensures
        forall|k: int|
            0 <= k < legacy_reads(table, phys_offset, n).len() ==> is_entry_low(
                #[trigger] legacy_reads(table, phys_offset, n)[k].reg,
            ),
    decreases n,
{
    if n > 0 {
        let before = legacy_reads(table, phys_offset, n - 1);
        let one = entry_read(table, (n - 1) as u32, phys_offset);
        lemma_legacy_reads_are_entries(table, phys_offset, n - 1);
        lemma_entry_read_is_entry(table, (n - 1) as u32, phys_offset);
        assert forall|k: int| 0 <= k < (before + one).len() implies is_entry_low(
            #[trigger] (before + one)[k].reg,
        ) by {
            if k < before.len() {
                assert((before + one)[k] == before[k]);
            } else {
                assert((before + one)[k] == one[k - before.len()]);
            }
        }
    }
}

/// Every read among those of [`enable_reads`] is of the low dword of a
/// redirection entry.
pub proof fn lemma_enable_reads_are_entries(
    table: Seq<IoApic>,
    isos: Seq<IsoInfo>,
    phys_offset: u64,
)
    ensures
        forall|k: int|
            0 <= k < enable_reads(table, isos, phys_offset).len() ==> is_entry_low(
                #[trigger] enable_reads(table, isos, phys_offset)[k].reg,
            ),
{
    let first = iso_reads(table, isos, phys_offset);
    let second = legacy_reads(table, phys_offset, 16);
    lemma_iso_reads_are_entries(table, isos, phys_offset);
    lemma_legacy_reads_are_entries(table, phys_offset, 16);
    assert forall|k: int| 0 <= k < (first + second).len() implies is_entry_low(
        #[trigger] (first + second)[k].reg,
    ) by {
        if k < first.len() {
            assert((first + second)[k] == first[k]);
        } else {
            assert((first + second)[k] == second[k - first.len()]);
        }
    }
}

/// Whether a processor that takes entries over takes the entry of the
/// global interrupt `gsi`: an override names `gsi`, or `gsi` is one of
/// the sixteen legacy lines.
pub open spec fn is_enable_target(isos: Seq<IsoInfo>, gsi: u32) -> bool {
    gsi < 16 || exists|i: int| 0 <= i < isos.len() && (#[trigger] isos[i]).gsi == gsi
}

/// The entry of an override that can be reached is among the reads of the
/// overrides: the result is its place among them.
pub proof fn lemma_override_is_read(
    table: Seq<IoApic>,
    isos: Seq<IsoInfo>,
    phys_offset: u64,
    i: int,
) -> (k: int)
    requires
        0 <= i < isos.len(),
        entry_location(table, isos[i].gsi, phys_offset) is Some,
    ensures
        0 <= k < iso_reads(table, isos, phys_offset).len(),
        iso_reads(table, isos, phys_offset)[k] == entry_read(table, isos[i].gsi, phys_offset)[0],
    decreases isos.len(),
{
    let before = iso_reads(table, isos.drop_last(), phys_offset);
    if i == isos.len() - 1 {
        before.len() as int
    } else {
        assert(isos.drop_last()[i] == isos[i]);
        lemma_override_is_read(table, isos.drop_last(), phys_offset, i)
    }
}

/// The entry of a legacy line below `n` that can be reached is among the
/// reads of the legacy lines below `n`: the result is its place among
/// them.
pub proof fn lemma_legacy_line_is_read(table: Seq<IoApic>, phys_offset: u64, n: int, irq: u32) -> (k:
    int)
    requires
        0 <= irq < n,
        entry_location(table, irq, phys_offset) is Some,
    ensures
        0 <= k < legacy_reads(table, phys_offset, n).len(),
        legacy_reads(table, phys_offset, n)[k] == entry_read(table, irq, phys_offset)[0],
    decreases n,
{
    let before = legacy_reads(table, phys_offset, n - 1);
    if irq == n - 1 {
        before.len() as int
    } else {
        lemma_legacy_line_is_read(table, phys_offset, n - 1, irq)
    }
}

/// Once a processor has taken entries over, each entry whose low dword was
/// read is unmasked and routed to that processor.
pub proof fn lemma_enable_unmasks(
    regs: spec_fn(u64, u8) -> u32,
    reads: Seq<RegisterRead>,
    lows: Seq<u32>,
    apic_id: u8,
    k: int,
)
    requires
        forall|j: int| 0 <= j < reads.len() ==> is_entry_low(#[trigger] reads[j].reg),
        0 <= k < reads.len(),
        k < lows.len(),
    ensures
        ({
            let after = registers_after(regs, unmask_writes(reads, lows, apic_id));
            &&& !is_masked(after(reads[k].base, reads[k].reg))
            &&& destination_of(after(reads[k].base, (reads[k].reg + 1) as u8)) == apic_id
        }),
    decreases reads.len(),
{
    let last = reads.len() - 1;
    let before = unmask_writes(reads.drop_last(), lows, apic_id);
    let mid = registers_after(regs, before);
    assert forall|j: int| 0 <= j < reads.drop_last().len() implies is_entry_low(
        #[trigger] reads.drop_last()[j].reg,
    ) by {
        assert(reads.drop_last()[j] == reads[j]);
    }
    if k < last {
        lemma_enable_unmasks(regs, reads.drop_last(), lows, apic_id, k);
        assert(reads.drop_last()[k] == reads[k]);
    }
    assert(is_entry_low(reads[k].reg));
    assert(is_entry_low(reads[last].reg));
    if last < lows.len() {
        let high = RegisterWrite {
            base: reads[last].base,
            reg: (reads[last].reg + 1) as u8,
            value: destination_high(apic_id),
        };
        let low = RegisterWrite {
            base: reads[last].base,
            reg: reads[last].reg,
            value: unmasked(lows[last]),
        };
        lemma_redirection_bits(lows[last], 0, apic_id);
        lemma_registers_after_push(regs, before, high);
        lemma_registers_after_push(regs, before.push(high), low);
        assert(unmask_writes(reads, lows, apic_id) =~= before.push(high).push(low));
    }
}

/// Once a processor has taken the entries over with every read answered,
/// the entry of each override and of each legacy line that can be reached
/// is unmasked and routed to that processor, whatever the registers held
/// before.
pub proof fn lemma_enable_unmasks_interrupt(
    regs: spec_fn(u64, u8) -> u32,
    table: Seq<IoApic>,
    isos: Seq<IsoInfo>,
    phys_offset: u64,
    lows: Seq<u32>,
    apic_id: u8,
    gsi: u32,
)
    requires
        is_enable_target(isos, gsi),
        entry_location(table, gsi, phys_offset) is Some,
        lows.len() >= enable_reads(table, isos, phys_offset).len(),
    ensures
        ({
            let after = registers_after(
                regs,
                unmask_writes(enable_reads(table, isos, phys_offset), lows, apic_id),
            );
            let (base, local) = entry_location(table, gsi, phys_offset)->Some_0;
            &&& !is_masked(after(base, low_register(local)))
            &&& destination_of(after(base, high_register(local))) == apic_id
        }),
{
    let reads = enable_reads(table, isos, phys_offset);
    let first = iso_reads(table, isos, phys_offset);
    let (base, local) = entry_location(table, gsi, phys_offset)->Some_0;
    lemma_resolve(table, gsi);
    lemma_enable_reads_are_entries(table, isos, phys_offset);
    let k = if exists|i: int| 0 <= i < isos.len() && (#[trigger] isos[i]).gsi == gsi {
        let i = choose|i: int| 0 <= i < isos.len() && (#[trigger] isos[i]).gsi == gsi;
        lemma_override_is_read(table, isos, phys_offset, i)
    } else {
        first.len() + lemma_legacy_line_is_read(table, phys_offset, 16, gsi)
    };
    assert(reads[k] == RegisterRead { base, reg: low_register(local) });
    lemma_enable_unmasks(regs, reads, lows, apic_id, k);
}

/// While a processor takes the entries over, an entry that was masked or
/// routed to that processor before the first write is so after every
/// write: at no moment is it seen unmasked with another destination.
/// Nothing is asked of the other entries.
pub proof fn lemma_enable_never_exposes(
    regs: spec_fn(u64, u8) -> u32,
    table: Seq<IoApic>,
    isos: Seq<IsoInfo>,
    phys_offset: u64,
    lows: Seq<u32>,
    apic_id: u8,
    n: int,
    base: u64,
    reg: u8,
)
    requires
        0 <= n <= unmask_writes(enable_reads(table, isos, phys_offset), lows, apic_id).len(),
        is_entry_low(reg),
        entry_guarded(regs, base, reg, apic_id),
    ensures
        entry_guarded(
            registers_after(
                regs,
                unmask_writes(enable_reads(table, isos, phys_offset), lows, apic_id).take(n),
            ),
            base,
            reg,
            apic_id,
        ),
{
    lemma_enable_reads_are_entries(table, isos, phys_offset);
    lemma_enable_keeps_entry_guarded(
        regs,
        enable_reads(table, isos, phys_offset),
        lows,
        apic_id,
        n,
        base,
        reg,
    );
}

/// Two runs of writes that each mask every entry they touch do so one
/// behind the other.
pub proof fn lemma_writes_masked_concat(first: Seq<RegisterWrite>, second: Seq<RegisterWrite>)
    requires
        writes_masked(first),
        writes_masked(second),
    ensures
        writes_masked(first + second),
{
    assert forall|k: int|
        0 <= k < (first + second).len() && is_entry_low(
            (#[trigger] (first + second)[k]).reg,
        ) implies is_masked((first + second)[k].value) by {
        if k < first.len() {
            assert((first + second)[k] == first[k]);
        } else {
            assert((first + second)[k] == second[k - first.len()]);
        }
    }
}

/// Programming the default entry of a legacy line masks the entry.
pub proof fn lemma_default_entry_masked(
    table: Seq<IoApic>,
    gsi: u32,
    source: u32,
    phys_offset: u64,
)
    ensures
        writes_masked(
            redirection_writes(table, gsi, masked_default_low(source), 0, phys_offset),
        ),
{
    lemma_resolve(table, gsi);
    lemma_redirection_bits(0, source, 0);
}

/// The writes that program default entries mask every entry they touch.
pub proof fn lemma_default_writes_masked(
    table: Seq<IoApic>,
    isos: Seq<IsoInfo>,
    phys_offset: u64,
    n: int,
)
    requires
        n <= 16,
    ensures
        writes_masked(iso_writes(table, isos, phys_offset)),
        writes_masked(legacy_writes(table, phys_offset, n)),
    decreases isos.len(), n,
{
    if isos.len() > 0 {
        lemma_default_writes_masked(table, isos.drop_last(), phys_offset, 0);
        lemma_default_entry_masked(
            table,
            isos.last().gsi,
            isos.last().source as u32,
            phys_offset,
        );
        lemma_writes_masked_concat(
            iso_writes(table, isos.drop_last(), phys_offset),
            redirection_writes(
                table,
                isos.last().gsi,
                masked_default_low(isos.last().source as u32),
                0,
                phys_offset,
            ),
        );
    }
    if n > 0 {
        lemma_default_writes_masked(table, Seq::empty(), phys_offset, n - 1);
        lemma_default_entry_masked(table, (n - 1) as u32, (n - 1) as u32, phys_offset);
        lemma_writes_masked_concat(
            legacy_writes(table, phys_offset, n - 1),
            redirection_writes(
                table,
                (n - 1) as u32,
                masked_default_low((n - 1) as u32),
                0,
                phys_offset,
            ),
        );
    }
}

/// Writes that mask every entry they touch leave a masked entry masked at
/// every moment: after any number of them, an entry that was masked
/// before the first still is.
pub proof fn lemma_masked_stays_masked(
    regs: spec_fn(u64, u8) -> u32,
    writes: Seq<RegisterWrite>,
    n: int,
    base: u64,
    reg: u8,
)
    requires
        writes_masked(writes),
        0 <= n <= writes.len(),
        is_entry_low(reg),
        is_masked(regs(base, reg)),
    ensures
        is_masked(registers_after(regs, writes.take(n))(base, reg)),
    decreases n,
{
    if n > 0 {
        lemma_masked_stays_masked(regs, writes, n - 1, base, reg);
        assert(writes.take(n).drop_last() =~= writes.take(n - 1));
        assert(writes.take(n).last() == writes[n - 1]);
    }
}

/// The global interrupt as which the legacy line `irq` arrives: the one
/// that the first override for the line names, or the one with the number
/// of the line where no override names the line.
pub open spec fn gsi_of(isos: Seq<IsoInfo>, irq: u32, from: int) -> u32
    decreases isos.len() - from,
{
    if from < 0 || from >= isos.len() {
        irq
    } else if isos[from].source as u32 == irq {
        isos[from].gsi
    } else {
        gsi_of(isos, irq, from + 1)
    }
}

/// The global interrupt as which the legacy line `irq` arrives.
pub fn gsi_for_irq(isos: &Vec<IsoInfo>, irq: u32) -> (gsi: u32)
    ensures
        gsi == gsi_of(isos@, irq, 0),
{
    let mut i: usize = 0;
    while i < isos.len()
        invariant
            i <= isos.len(),
            gsi_of(isos@, irq, i as int) == gsi_of(isos@, irq, 0),
        decreases isos.len() - i,
    {
        if isos[i].source as u32 == irq {
            return isos[i].gsi;
        }
        i += 1;
    }
    irq
}

/// The writes that route the global interrupt `gsi` to the vector
/// `vector` of the processor whose local interrupt controller has the
/// identifier `apic_id`, unmasked: the destination is written first.
pub fn unmask_gsi(table: &IoApicTable, gsi: u32, vector: u8, apic_id: u8, phys_offset: u64) -> (writes:
    Vec<RegisterWrite>)
    ensures
        writes@ == redirection_writes(
            table.ioapics@,
            gsi,
            vector as u32,
            destination_high(apic_id),
            phys_offset,
        ),
{
    write_redirection_entry_for_gsi(table, gsi, vector as u32, (apic_id as u32) << 24, phys_offset)
}

} // verus!
