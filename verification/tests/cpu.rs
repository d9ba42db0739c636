use lych::cpu::{current_el, enable_fp_simd, MAIR_EL1_VALUE, TCR_EL1_VALUE};

#[test]
fn register_values() {
    assert_eq!(MAIR_EL1_VALUE, 0xFF00);
    assert_eq!(TCR_EL1_VALUE, 0x2_0000_3510);
}

#[test]
fn current_el_decoding() {
    assert_eq!(current_el(0b0100), 1);
    assert_eq!(current_el(0b1000), 2);
}

#[test]
fn fp_simd_enable_sets_fpen() {
    assert_eq!(enable_fp_simd(0), 0x30_0000);
    assert_eq!(enable_fp_simd(0x1), 0x30_0001);
    assert_eq!(enable_fp_simd(0x30_0000), 0x30_0000);
}
