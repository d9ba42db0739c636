use vstd::prelude::*;

verus! {

/// Exception class of a `BRK` instruction.
pub const EC_BREAKPOINT: u8 = 0x3C;

/// Exception class of an instruction abort taken from a lower exception level.
pub const EC_INSTRUCTION_ABORT_LOWER_EL: u8 = 0x20;

/// Exception class of an instruction abort taken without a change of level.
pub const EC_INSTRUCTION_ABORT_SAME_EL: u8 = 0x21;

/// Exception class of a data abort taken from a lower exception level.
pub const EC_DATA_ABORT_LOWER_EL: u8 = 0x24;

/// Exception class of a data abort taken without a change of level.
pub const EC_DATA_ABORT_SAME_EL: u8 = 0x25;

/// The `EC` field of an exception syndrome: bits 26..32.
pub open spec fn spec_exception_class(esr: u64) -> int {
    (esr as int / 0x400_0000) % 64
}

/// Extracts the exception class (ESR_EL1 bits 31:26).
pub fn exception_class(esr: u64) -> (ec: u8)
    ensures
        ec == spec_exception_class(esr),
        ec < 64,
{
    assert(((esr >> 26u64) & 0x3f) == (esr / 0x400_0000) % 64) by (bit_vector);
    ((esr >> 26) & 0x3f) as u8
}

/// Name given to an exception class.
pub open spec fn exception_text(ec: u8) -> Seq<char> {
    if ec == EC_BREAKPOINT {
        "Breakpoint (BRK)"@
    } else if ec == EC_INSTRUCTION_ABORT_LOWER_EL {
        "Instruction Abort (lower EL)"@
    } else if ec == EC_INSTRUCTION_ABORT_SAME_EL {
        "Instruction Abort (same EL)"@
    } else if ec == EC_DATA_ABORT_LOWER_EL {
        "Data Abort (lower EL)"@
    } else if ec == EC_DATA_ABORT_SAME_EL {
        "Data Abort (same EL)"@
    } else {
        "Unknown"@
    }
}

/// Human-readable name of an exception class.
pub fn exception_name(ec: u8) -> (name: &'static str)
    ensures
        name@ == exception_text(ec),
{
    if ec == EC_BREAKPOINT {
        "Breakpoint (BRK)"
    } else if ec == EC_INSTRUCTION_ABORT_LOWER_EL {
        "Instruction Abort (lower EL)"
    } else if ec == EC_INSTRUCTION_ABORT_SAME_EL {
        "Instruction Abort (same EL)"
    } else if ec == EC_DATA_ABORT_LOWER_EL {
        "Data Abort (lower EL)"
    } else if ec == EC_DATA_ABORT_SAME_EL {
        "Data Abort (same EL)"
    } else {
        "Unknown"
    }
}

/// Name given to a fault status code (the low six bits of a syndrome).
pub open spec fn fault_status_text(code: u64) -> Seq<char> {
    match code {
        0x00 => "Address size fault, level 0"@,
        0x01 => "Address size fault, level 1"@,
        0x02 => "Address size fault, level 2"@,
        0x03 => "Address size fault, level 3"@,
        0x04 => "Translation fault, level 0"@,
        0x05 => "Translation fault, level 1"@,
        0x06 => "Translation fault, level 2"@,
        0x07 => "Translation fault, level 3"@,
        0x08 => "Access flag fault, level 0"@,
        0x09 => "Access flag fault, level 1"@,
        0x0a => "Access flag fault, level 2"@,
        0x0b => "Access flag fault, level 3"@,
        0x0c => "Permission fault, level 0"@,
        0x0d => "Permission fault, level 1"@,
        0x0e => "Permission fault, level 2"@,
        0x0f => "Permission fault, level 3"@,
        0x10 => "Synchronous external abort"@,
        0x11 => "Synchronous external abort, not TTW"@,
        0x18 => "Synchronous parity/ECC error"@,
        0x21 => "Alignment fault"@,
        0x22 => "Synchronous external abort"@,
        0x2c => "SError interupt"@,
        _ => "Unknown fault status"@,
    }
}

/// Human-readable name of the fault status code held in the low six bits
/// of `status`; the remaining bits are ignored.
pub fn fault_status_name(status: u64) -> (name: &'static str)
    ensures
        name@ == fault_status_text(status % 64),
{
    assert(status & 0x3f == status % 64) by (bit_vector);
    match status & 0x3f {
        0x00 => "Address size fault, level 0",
        0x01 => "Address size fault, level 1",
        0x02 => "Address size fault, level 2",
        0x03 => "Address size fault, level 3",
        0x04 => "Translation fault, level 0",
        0x05 => "Translation fault, level 1",
        0x06 => "Translation fault, level 2",
        0x07 => "Translation fault, level 3",
        0x08 => "Access flag fault, level 0",
        0x09 => "Access flag fault, level 1",
        0x0a => "Access flag fault, level 2",
        0x0b => "Access flag fault, level 3",
        0x0c => "Permission fault, level 0",
        0x0d => "Permission fault, level 1",
        0x0e => "Permission fault, level 2",
        0x0f => "Permission fault, level 3",
        0x10 => "Synchronous external abort",
        0x11 => "Synchronous external abort, not TTW",
        0x18 => "Synchronous parity/ECC error",
        0x21 => "Alignment fault",
        0x22 => "Synchronous external abort",
        0x2c => "SError interupt",
        _ => "Unknown fault status",
    }
}

/// The kind of fault that the status codes `4 * group .. 4 * group + 3`
/// report, one level each.
pub open spec fn fault_group_text(group: int) -> Seq<char> {
    if group == 0 {
        "Address size fault"@
    } else if group == 1 {
        "Translation fault"@
    } else if group == 2 {
        "Access flag fault"@
    } else {
        "Permission fault"@
    }
}

/// The decimal digit of a level 0..3.
pub open spec fn level_digit(level: int) -> char {
    if level == 0 {
        '0'
    } else if level == 1 {
        '1'
    } else if level == 2 {
        '2'
    } else {
        '3'
    }
}

/// The status codes 0x00..0x0f report, in groups of four, an address size,
/// translation, access flag or permission fault, and within a group the
/// translation level is the low two bits of the code.
pub proof fn lemma_fault_status_levels(code: u64)
    requires
        code < 16,
    ensures
        fault_status_text(code) == fault_group_text(code as int / 4) + ", level "@ + seq![
            level_digit(code as int % 4),
        ],
{
    reveal_strlit("Address size fault");
    reveal_strlit("Translation fault");
    reveal_strlit("Access flag fault");
    reveal_strlit("Permission fault");
    reveal_strlit(", level ");
    reveal_strlit("Address size fault, level 0");
    reveal_strlit("Address size fault, level 1");
    reveal_strlit("Address size fault, level 2");
    reveal_strlit("Address size fault, level 3");
    reveal_strlit("Translation fault, level 0");
    reveal_strlit("Translation fault, level 1");
    reveal_strlit("Translation fault, level 2");
    reveal_strlit("Translation fault, level 3");
    reveal_strlit("Access flag fault, level 0");
    reveal_strlit("Access flag fault, level 1");
    reveal_strlit("Access flag fault, level 2");
    reveal_strlit("Access flag fault, level 3");
    reveal_strlit("Permission fault, level 0");
    reveal_strlit("Permission fault, level 1");
    reveal_strlit("Permission fault, level 2");
    reveal_strlit("Permission fault, level 3");
    assert(fault_status_text(code) =~= fault_group_text(code as int / 4) + ", level "@ + seq![
        level_digit(code as int % 4),
    ]);
}

/// Status codes outside the four level-indexed groups: external aborts,
/// parity errors, alignment faults and SError have their own names, and
/// every code with no name is reported as unknown.
pub proof fn lemma_fault_status_others(code: u64)
    requires
        16 <= code < 64,
    ensures
        code == 0x10 || code == 0x22 ==> fault_status_text(code) == "Synchronous external abort"@,
        code == 0x11 ==> fault_status_text(code) == "Synchronous external abort, not TTW"@,
        code == 0x18 ==> fault_status_text(code) == "Synchronous parity/ECC error"@,
        code == 0x21 ==> fault_status_text(code) == "Alignment fault"@,
        code == 0x2c ==> fault_status_text(code) == "SError interupt"@,
        code != 0x10 && code != 0x11 && code != 0x18 && code != 0x21 && code != 0x22 && code
            != 0x2c ==> fault_status_text(code) == "Unknown fault status"@,
{
}

/// The exception class is bits 31:26 of the syndrome: the bits below
/// (the instruction-specific syndrome) and above do not change it.
pub proof fn lemma_exception_class_field(ec: u64, iss: u64, high: u64)
    requires
        ec < 64,
        iss < 0x400_0000,
        high < 0x1_0000_0000,
    ensures
        spec_exception_class((high * 0x1_0000_0000 + ec * 0x400_0000 + iss) as u64) == ec,
{
    let esr = high * 0x1_0000_0000 + ec * 0x400_0000 + iss;
    assert(esr / 0x400_0000 == high * 64 + ec) by (nonlinear_arith)
        requires
            esr == high * 0x1_0000_0000 + ec * 0x400_0000 + iss,
            0 <= iss < 0x400_0000,
    ;
    assert((high * 64 + ec) % 64 == ec) by (nonlinear_arith)
        requires
            0 <= ec < 64,
            0 <= high,
    ;
}

/// The previous exception level is bits 3:2 of the saved program status:
/// the bits below and above do not change it.
pub proof fn lemma_previous_level_field(el: u64, low: u64, high: u64)
    requires
        el < 4,
        low < 4,
        high < 0x1000_0000_0000_0000,
    ensures
        spec_previous_exception_level((high * 16 + el * 4 + low) as u64) == el,
{
    let spsr = high * 16 + el * 4 + low;
    assert(spsr / 4 == high * 4 + el) by (nonlinear_arith)
        requires
            spsr == high * 16 + el * 4 + low,
            0 <= low < 4,
    ;
    assert((high * 4 + el) % 4 == el) by (nonlinear_arith)
        requires
            0 <= el < 4,
            0 <= high,
    ;
}

/// The four abort classes are named from their encoding: bit 2 of the class
/// tells a data abort from an instruction abort, bit 0 an abort taken
/// without a change of level from one taken from a lower level; a class
/// with no name is unknown.
pub proof fn lemma_exception_names(ec: u8)
    ensures
        ec == 0x20 || ec == 0x21 || ec == 0x24 || ec == 0x25 ==> exception_text(ec) == (if ec % 8
            < 4 {
            "Instruction Abort"@
        } else {
            "Data Abort"@
        }) + " ("@ + (if ec % 2 == 0 {
            "lower EL"@
        } else {
            "same EL"@
        }) + ")"@,
        ec == 0x3C ==> exception_text(ec) == "Breakpoint (BRK)"@,
        ec != 0x20 && ec != 0x21 && ec != 0x24 && ec != 0x25 && ec != 0x3C ==> exception_text(ec)
            == "Unknown"@,
{
    reveal_strlit("Instruction Abort");
    reveal_strlit("Data Abort");
    reveal_strlit(" (");
    reveal_strlit("lower EL");
    reveal_strlit("same EL");
    reveal_strlit(")");
    reveal_strlit("Instruction Abort (lower EL)");
    reveal_strlit("Instruction Abort (same EL)");
    reveal_strlit("Data Abort (lower EL)");
    reveal_strlit("Data Abort (same EL)");
    if ec == 0x20 {
        assert(exception_text(ec) =~= "Instruction Abort"@ + " ("@ + "lower EL"@ + ")"@);
    } else if ec == 0x21 {
        assert(exception_text(ec) =~= "Instruction Abort"@ + " ("@ + "same EL"@ + ")"@);
    } else if ec == 0x24 {
        assert(exception_text(ec) =~= "Data Abort"@ + " ("@ + "lower EL"@ + ")"@);
    } else if ec == 0x25 {
        assert(exception_text(ec) =~= "Data Abort"@ + " ("@ + "same EL"@ + ")"@);
    }
}

/// Levels 0 to 3 are named "EL" followed by their digit; any other value is
/// unknown.
pub proof fn lemma_exception_level_names(el: u8)
    ensures
        el < 4 ==> exception_level_text(el) == "EL"@ + seq![level_digit(el as int)],
        el >= 4 ==> exception_level_text(el) == "Unknown"@,
{
    reveal_strlit("EL");
    reveal_strlit("EL0");
    reveal_strlit("EL1");
    reveal_strlit("EL2");
    reveal_strlit("EL3");
    if el < 4 {
        assert(exception_level_text(el) =~= "EL"@ + seq![level_digit(el as int)]);
    }
}

/// The registers saved on exception entry.
pub struct ExceptionFrame {
    /// Exception Syndrome Register
    pub esr: u64,
    /// Exception Link Register
    pub elr: u64,
    /// Saved Program Status Register
    pub spsr: u64,
}

/// The exception level a saved program status word came from: bits 3:2.
pub open spec fn spec_previous_exception_level(spsr: u64) -> int {
    (spsr as int / 4) % 4
}

/// Returns the previous exception level encoded in SPSR_EL1.
pub fn previous_exception_level(spsr: u64) -> (el: u8)
    ensures
        el == spec_previous_exception_level(spsr),
        el < 4,
{
    assert(((spsr >> 2u64) & 3) == (spsr / 4) % 4) by (bit_vector);
    ((spsr >> 2) & 0b11) as u8
}

/// Name given to an exception level.
pub open spec fn exception_level_text(el: u8) -> Seq<char> {
    match el {
        0 => "EL0"@,
        1 => "EL1"@,
        2 => "EL2"@,
        3 => "EL3"@,
        _ => "Unknown"@,
    }
}

/// Human-readable name of an exception level.
pub fn exception_level_name(el: u8) -> (name: &'static str)
    ensures
        name@ == exception_level_text(el),
{
    match el {
        0 => "EL0",
        1 => "EL1",
        2 => "EL2",
        3 => "EL3",
        _ => "Unknown",
    }
}


/// The kind of abort an exception class reports.
#[derive(Clone, Copy, PartialEq, Eq, Debug, Structural)]
pub enum AbortKind {
    Instruction,
    Data,
}

/// Instruction aborts and data aborts, from either level, carry a fault
/// status; every other class carries none.
pub open spec fn spec_abort_kind(ec: u8) -> Option<AbortKind> {
    if ec == EC_INSTRUCTION_ABORT_LOWER_EL || ec == EC_INSTRUCTION_ABORT_SAME_EL {
        Some(AbortKind::Instruction)
    } else if ec == EC_DATA_ABORT_LOWER_EL || ec == EC_DATA_ABORT_SAME_EL {
        Some(AbortKind::Data)
    } else {
        None
    }
}

/// The kind of abort the exception class reports, if any.
pub fn abort_kind(ec: u8) -> (kind: Option<AbortKind>)
    ensures
        kind == spec_abort_kind(ec),
{
    if ec == EC_INSTRUCTION_ABORT_LOWER_EL || ec == EC_INSTRUCTION_ABORT_SAME_EL {
        Some(AbortKind::Instruction)
    } else if ec == EC_DATA_ABORT_LOWER_EL || ec == EC_DATA_ABORT_SAME_EL {
        Some(AbortKind::Data)
    } else {
        None
    }
}

/// The fault details reported for an abort.
pub struct FaultReport {
    /// Instruction or data abort.
    pub kind: AbortKind,
    /// The fault status code: the low six bits of the syndrome.
    pub status: u64,
    /// The name of the fault status code.
    pub name: &'static str,
}

/// Everything the exception handler reports about one exception.
pub struct ExceptionReport {
    /// The exception class.
    pub class: u8,
    /// The name of the exception class.
    pub name: &'static str,
    /// The syndrome, link and saved status registers as taken.
    pub esr: u64,
    pub elr: u64,
    pub spsr: u64,
    /// The name of the exception level the exception came from.
    pub previous_level: &'static str,
    /// Fault details, for instruction and data aborts.
    pub fault: Option<FaultReport>,
}

/// Decodes the exception held in `frame` into its report and prepares the
/// return: after a `BRK` the link register moves past the 4-byte
/// instruction so that execution resumes after it; for every other class
/// the frame is left as it was.
pub fn handle_exception(frame: &mut ExceptionFrame) -> (report: ExceptionReport)
    requires
        spec_exception_class(old(frame).esr) == EC_BREAKPOINT ==> old(frame).elr + 4 <= u64::MAX,
    ensures
        report.class == spec_exception_class(old(frame).esr),
        report.name@ == exception_text(report.class),
        report.esr == old(frame).esr,
        report.elr == old(frame).elr,
        report.spsr == old(frame).spsr,
        report.previous_level@ == exception_level_text(
            spec_previous_exception_level(old(frame).spsr) as u8,
        ),
        match spec_abort_kind(report.class) {
            Some(kind) => report.fault matches Some(f) && f.kind == kind && f.status
                == old(frame).esr % 64 && f.name@ == fault_status_text(old(frame).esr % 64),
            None => report.fault is None,
        },
        final(frame).esr == old(frame).esr,
        final(frame).spsr == old(frame).spsr,
        final(frame).elr == if report.class == EC_BREAKPOINT {
            old(frame).elr + 4
        } else {
            old(frame).elr as int
        },
{
    let esr = frame.esr;
    let ec = exception_class(esr);
    let previous_el = previous_exception_level(frame.spsr);
    let fault = match abort_kind(ec) {
        Some(kind) => {
            assert(esr & 0x3f == esr % 64) by (bit_vector);
            Some(FaultReport { kind, status: esr & 0x3f, name: fault_status_name(esr) })
        },
        None => None,
    };
    let report = ExceptionReport {
        class: ec,
        name: exception_name(ec),
        esr: frame.esr,
        elr: frame.elr,
        spsr: frame.spsr,
        previous_level: exception_level_name(previous_el),
        fault,
    };
    if ec == EC_BREAKPOINT {
        frame.elr = frame.elr + 4;
    }
    report
}

} // verus!
