//! Exception capture: which privilege level a trap came from, which fault
//! registers describe it, and the fatal report built from their values.
use vstd::prelude::*;
use vstd::string::StringSliceAdditionalSpecFns;

use crate::format::{dec_text, hex_text, push_dec, push_hex, push_str};

verus! {

/// A privilege level at which faults are captured.
#[derive(Clone, Copy, Debug, PartialEq, Eq, Structural)]
pub enum ExceptionLevel {
    El1,
    El2,
}

/// One of the four fault registers that each capturable level owns.
#[derive(Clone, Copy, Debug, PartialEq, Eq, Structural)]
pub enum FaultField {
    Syndrome,
    FaultAddress,
    ReturnAddress,
    SavedState,
}

/// A fault register of a given level (syndrome, fault address, exception
/// return address and saved processor state of level 1 or of level 2).
#[derive(Clone, Copy, Debug, PartialEq, Eq, Structural)]
pub struct SystemRegister {
    pub level: ExceptionLevel,
    pub field: FaultField,
}

/// The architectural fault state of one trap.
#[derive(Clone, Copy, Debug, PartialEq, Eq, Structural)]
pub struct ExceptionSnapshot {
    pub level: ExceptionLevel,
    pub syndrome: u64,
    pub fault_address: u64,
    pub return_address: u64,
    pub saved_state: u64,
}

impl ExceptionLevel {
    /// The level's number.
    pub open spec fn number(self) -> nat {
        match self {
            ExceptionLevel::El1 => 1,
            ExceptionLevel::El2 => 2,
        }
    }

    /// The level's number.
    pub fn as_u64(&self) -> (r: u64)
        ensures
            r == self.number(),
    {
        match self {
            ExceptionLevel::El1 => 1,
            ExceptionLevel::El2 => 2,
        }
    }
}

/// The level number held in a raw current-level register value (bits 2 and
/// up).
pub open spec fn raw_level(current_el: u64) -> nat {
    (current_el / 4) as nat
}

/// The capturable level named by a level number, if any.
pub open spec fn level_of_number(n: nat) -> Option<ExceptionLevel> {
    if n == 1 {
        Some(ExceptionLevel::El1)
    } else if n == 2 {
        Some(ExceptionLevel::El2)
    } else {
        None
    }
}

/// The level number held in a raw current-level register value.
pub fn level_number(current_el: u64) -> (r: u64)
    ensures
        r == raw_level(current_el),
{
    let r = current_el >> 2;
    assert(current_el >> 2 == current_el / 4) by (bit_vector);
    r
}

/// Decides from the raw current-level register value whether the trap can
/// be captured: `Some` for level 1 or 2, `None` for any other level.
pub fn exception_level(current_el: u64) -> (r: Option<ExceptionLevel>)
    ensures
        r == level_of_number(raw_level(current_el)),
{
    let n = level_number(current_el);
    if n == 1 {
        Some(ExceptionLevel::El1)
    } else if n == 2 {
        Some(ExceptionLevel::El2)
    } else {
        None
    }
}

/// The four fault registers of a level, in the order syndrome, fault
/// address, return address, saved state.
pub open spec fn registers_of(level: ExceptionLevel) -> Seq<SystemRegister> {
    seq![
        SystemRegister { level, field: FaultField::Syndrome },
        SystemRegister { level, field: FaultField::FaultAddress },
        SystemRegister { level, field: FaultField::ReturnAddress },
        SystemRegister { level, field: FaultField::SavedState },
    ]
}

/// The registers to read when capturing a trap taken at `level`.
pub fn fault_registers(level: ExceptionLevel) -> (r: [SystemRegister; 4])
    ensures
        r@ == registers_of(level),
{
    let r = [
        SystemRegister { level, field: FaultField::Syndrome },
        SystemRegister { level, field: FaultField::FaultAddress },
        SystemRegister { level, field: FaultField::ReturnAddress },
        SystemRegister { level, field: FaultField::SavedState },
    ];
    assert(r@ =~= registers_of(level));
    r
}

impl ExceptionSnapshot {
    /// Builds a snapshot from the values read from `fault_registers(level)`,
    /// in that order.
    pub fn from_registers(level: ExceptionLevel, values: [u64; 4]) -> (r: ExceptionSnapshot)
        ensures
            r.level == level,
            r.syndrome == values@[0],
            r.fault_address == values@[1],
            r.return_address == values@[2],
            r.saved_state == values@[3],
    {
        ExceptionSnapshot {
            level,
            syndrome: values[0],
            fault_address: values[1],
            return_address: values[2],
            saved_state: values[3],
        }
    }
}

/// The fatal report of a captured trap: core, level, kind, syndrome, fault
/// address, return address and saved state, the last five in hexadecimal.
pub open spec fn fault_text(core: u64, kind: u64, s: ExceptionSnapshot) -> Seq<u8> {
    "Core #".spec_bytes() + dec_text(core as nat)
        + " triggered an exception at level ".spec_bytes() + dec_text(s.level.number())
        + ": Kind: 0x".spec_bytes() + hex_text(kind as nat, false)
        + ", Syndrome: 0x".spec_bytes() + hex_text(s.syndrome as nat, false)
        + ", Address: 0x".spec_bytes() + hex_text(s.fault_address as nat, false)
        + ", Location: 0x".spec_bytes() + hex_text(s.return_address as nat, false)
        + ", State: 0x".spec_bytes() + hex_text(s.saved_state as nat, false)
}

/// The fatal report of a trap taken at a level that cannot be captured.
pub open spec fn unsupported_text(level: nat) -> Seq<u8> {
    "Exception caught at unsupported level ".spec_bytes() + dec_text(level)
}

/// Formats the fatal report of a captured trap.
pub fn fault_message(core: u64, kind: u64, snapshot: &ExceptionSnapshot) -> (r: Vec<u8>)
    ensures
        r@ == fault_text(core, kind, *snapshot),
{
    let mut out: Vec<u8> = Vec::new();
    push_str(&mut out, "Core #");
    push_dec(&mut out, core);
    push_str(&mut out, " triggered an exception at level ");
    push_dec(&mut out, snapshot.level.as_u64());
    push_str(&mut out, ": Kind: 0x");
    push_hex(&mut out, kind, false);
    push_str(&mut out, ", Syndrome: 0x");
    push_hex(&mut out, snapshot.syndrome, false);
    push_str(&mut out, ", Address: 0x");
    push_hex(&mut out, snapshot.fault_address, false);
    push_str(&mut out, ", Location: 0x");
    push_hex(&mut out, snapshot.return_address, false);
    push_str(&mut out, ", State: 0x");
    push_hex(&mut out, snapshot.saved_state, false);
    out
}

/// Formats the fatal report of a trap whose raw current-level value names a
/// level that cannot be captured.
pub fn unsupported_level_message(current_el: u64) -> (r: Vec<u8>)
    ensures
        r@ == unsupported_text(raw_level(current_el)),
{
    let mut out: Vec<u8> = Vec::new();
    push_str(&mut out, "Exception caught at unsupported level ");
    push_dec(&mut out, level_number(current_el));
    out
}

/// What to do first on a trap: read a level's fault registers, or give up
/// with a fatal report when the level cannot be captured.
#[derive(Clone, Debug)]
pub enum FaultStep {
    ReadRegisters(ExceptionLevel, [SystemRegister; 4]),
    Fatal(Vec<u8>),
}

/// Starts the capture of a trap from the raw current-level register value:
/// at level 1 or 2 the four fault registers of that level are to be read;
/// at any other level no register is read and the report names the level.
pub fn begin_fault(current_el: u64) -> (r: FaultStep)
    ensures
        match r {
            FaultStep::ReadRegisters(level, regs) => {
                &&& level_of_number(raw_level(current_el)) == Some(level)
                &&& regs@ == registers_of(level)
            },
            FaultStep::Fatal(message) => {
                &&& level_of_number(raw_level(current_el)) is None
                &&& message@ == unsupported_text(raw_level(current_el))
            },
        },
{
    match exception_level(current_el) {
        Some(level) => FaultStep::ReadRegisters(level, fault_registers(level)),
        None => FaultStep::Fatal(unsupported_level_message(current_el)),
    }
}

/// `part` stands somewhere in `whole` as a contiguous run.
pub open spec fn occurs_in(part: Seq<u8>, whole: Seq<u8>) -> bool {
    exists|i: int|
        0 <= i && i + part.len() <= whole.len() && #[trigger] whole.subrange(i, i + part.len())
            == part
}

proof fn lemma_occurs_between(a: Seq<u8>, b: Seq<u8>, c: Seq<u8>)
    ensures
        occurs_in(b, a + b + c),
{
    assert((a + b + c).subrange(a.len() as int, (a.len() + b.len()) as int) =~= b);
}

/// The snapshot holding `values` read from the fault registers of `level`.
pub open spec fn snapshot_of(level: ExceptionLevel, values: Seq<u64>) -> ExceptionSnapshot {
    ExceptionSnapshot {
        level,
        syndrome: values[0],
        fault_address: values[1],
        return_address: values[2],
        saved_state: values[3],
    }
}

/// A trap at level 1 or 2 is captured by reading exactly the four distinct
/// fault registers of that level, and each of the four values read appears
/// in hexadecimal in its report; at any other level no register is read and
/// the report is the unsupported-level message.
pub proof fn lemma_capture_reads_level_registers(
    core: u64,
    kind: u64,
    current_el: u64,
    values: Seq<u64>,
)
    requires
        values.len() == 4,
    ensures
        match level_of_number(raw_level(current_el)) {
            Some(level) => {
                &&& registers_of(level).len() == 4
                &&& forall|i: int| 0 <= i < 4 ==> (#[trigger] registers_of(level)[i]).level == level
                &&& forall|i: int, j: int|
                    0 <= i < 4 && 0 <= j < 4 && i != j ==> #[trigger] registers_of(level)[i]
                        != #[trigger] registers_of(level)[j]
                &&& forall|i: int|
                    0 <= i < 4 ==> occurs_in(
                        hex_text(#[trigger] values[i] as nat, false),
                        fault_text(core, kind, snapshot_of(level, values)),
                    )
            },
            None => raw_level(current_el) != 1 && raw_level(current_el) != 2,
        },
{
    if let Some(level) = level_of_number(raw_level(current_el)) {
        let s = snapshot_of(level, values);
        let t = fault_text(core, kind, s);
        let p1 = "Core #".spec_bytes() + dec_text(core as nat)
            + " triggered an exception at level ".spec_bytes() + dec_text(s.level.number())
            + ": Kind: 0x".spec_bytes() + hex_text(kind as nat, false)
            + ", Syndrome: 0x".spec_bytes();
        let h1 = hex_text(values[0] as nat, false);
        let p2 = ", Address: 0x".spec_bytes();
        let h2 = hex_text(values[1] as nat, false);
        let p3 = ", Location: 0x".spec_bytes();
        let h3 = hex_text(values[2] as nat, false);
        let p4 = ", State: 0x".spec_bytes();
        let h4 = hex_text(values[3] as nat, false);
        assert(t =~= p1 + h1 + (p2 + h2 + p3 + h3 + p4 + h4));
        lemma_occurs_between(p1, h1, p2 + h2 + p3 + h3 + p4 + h4);
        assert(t =~= (p1 + h1 + p2) + h2 + (p3 + h3 + p4 + h4));
        lemma_occurs_between(p1 + h1 + p2, h2, p3 + h3 + p4 + h4);
        assert(t =~= (p1 + h1 + p2 + h2 + p3) + h3 + (p4 + h4));
        lemma_occurs_between(p1 + h1 + p2 + h2 + p3, h3, p4 + h4);
        assert(t =~= (p1 + h1 + p2 + h2 + p3 + h3 + p4) + h4 + Seq::<u8>::empty());
        lemma_occurs_between(p1 + h1 + p2 + h2 + p3 + h3 + p4, h4, Seq::<u8>::empty());
        assert forall|i: int| 0 <= i < 4 implies occurs_in(
            hex_text(#[trigger] values[i] as nat, false),
            t,
        ) by {
            if i == 0 {
            } else if i == 1 {
            } else if i == 2 {
            } else {
            }
        }
    }
}

} // verus!
