use lych::exception::{
    abort_kind, exception_class, exception_level_name, exception_name, fault_status_name,
    handle_exception, previous_exception_level, AbortKind, ExceptionFrame, EC_BREAKPOINT,
    EC_DATA_ABORT_SAME_EL,
};

#[test]
fn class_is_bits_31_to_26() {
    assert_eq!(exception_class((0x3C << 26) | 0x1_FFFF_FF), 0x3C);
    assert_eq!(exception_class(0x9600_0007), 0x25);
    assert_eq!(exception_class(0xFFFF_FFFF_0000_0000), 0);
    assert_eq!(exception_class(u64::MAX), 0x3F);
}

#[test]
fn class_names() {
    assert_eq!(exception_name(0x3C), "Breakpoint (BRK)");
    assert_eq!(exception_name(0x20), "Instruction Abort (lower EL)");
    assert_eq!(exception_name(0x21), "Instruction Abort (same EL)");
    assert_eq!(exception_name(0x24), "Data Abort (lower EL)");
    assert_eq!(exception_name(0x25), "Data Abort (same EL)");
    assert_eq!(exception_name(0x15), "Unknown");
}

#[test]
fn fault_status_uses_low_six_bits() {
    assert_eq!(fault_status_name(0x07), "Translation fault, level 3");
    assert_eq!(fault_status_name(0x9600_0047), "Translation fault, level 3");
    assert_eq!(fault_status_name(0x00), "Address size fault, level 0");
    assert_eq!(fault_status_name(0x0a), "Access flag fault, level 2");
    assert_eq!(fault_status_name(0x0f), "Permission fault, level 3");
    assert_eq!(fault_status_name(0x11), "Synchronous external abort, not TTW");
    assert_eq!(fault_status_name(0x18), "Synchronous parity/ECC error");
    assert_eq!(fault_status_name(0x21), "Alignment fault");
    assert_eq!(fault_status_name(0x22), "Synchronous external abort");
    assert_eq!(fault_status_name(0x2c), "SError interupt");
    assert_eq!(fault_status_name(0x3f), "Unknown fault status");
}

#[test]
fn previous_level_is_bits_3_to_2() {
    assert_eq!(previous_exception_level(0x3c5), 1);
    assert_eq!(previous_exception_level(0x0), 0);
    assert_eq!(previous_exception_level(0b1100), 3);
    assert_eq!(exception_level_name(0), "EL0");
    assert_eq!(exception_level_name(1), "EL1");
    assert_eq!(exception_level_name(2), "EL2");
    assert_eq!(exception_level_name(3), "EL3");
    assert_eq!(exception_level_name(4), "Unknown");
}

#[test]
fn abort_kinds() {
    assert_eq!(abort_kind(0x20), Some(AbortKind::Instruction));
    assert_eq!(abort_kind(0x21), Some(AbortKind::Instruction));
    assert_eq!(abort_kind(0x24), Some(AbortKind::Data));
    assert_eq!(abort_kind(EC_DATA_ABORT_SAME_EL), Some(AbortKind::Data));
    assert_eq!(abort_kind(EC_BREAKPOINT), None);
}

#[test]
fn breakpoint_resumes_after_brk() {
    let mut frame = ExceptionFrame { esr: 0xF200_0000, elr: 0x4008_0000, spsr: 0x3c5 };
    let report = handle_exception(&mut frame);
    assert_eq!(report.class, EC_BREAKPOINT);
    assert_eq!(report.name, "Breakpoint (BRK)");
    assert_eq!(report.elr, 0x4008_0000);
    assert_eq!(report.previous_level, "EL1");
    assert!(report.fault.is_none());
    assert_eq!(frame.elr, 0x4008_0004);
    assert_eq!(frame.esr, 0xF200_0000);
    assert_eq!(frame.spsr, 0x3c5);
}

#[test]
fn data_abort_reports_fault() {
    let mut frame = ExceptionFrame { esr: 0x9600_0047, elr: 0x4008_1234, spsr: 0x3c4 };
    let report = handle_exception(&mut frame);
    assert_eq!(report.class, 0x25);
    assert_eq!(report.name, "Data Abort (same EL)");
    let fault = report.fault.unwrap();
    assert_eq!(fault.kind, AbortKind::Data);
    assert_eq!(fault.status, 0x07);
    assert_eq!(fault.name, "Translation fault, level 3");
    assert_eq!(report.previous_level, "EL1");
    assert_eq!(frame.elr, 0x4008_1234);
}

#[test]
fn instruction_abort_reports_fault() {
    let mut frame = ExceptionFrame { esr: 0x8200_000D, elr: 0x1000, spsr: 0 };
    let report = handle_exception(&mut frame);
    let fault = report.fault.unwrap();
    assert_eq!(fault.kind, AbortKind::Instruction);
    assert_eq!(fault.name, "Permission fault, level 1");
    assert_eq!(report.previous_level, "EL0");
    assert_eq!(frame.elr, 0x1000);
}
