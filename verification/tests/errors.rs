use mips_assembler::AsmErrorInfo;
use mips_assembler::AsmErrorKind;
use mips_assembler::Parser;

fn asm_err(text: &str) -> AsmErrorInfo {
    let mut p = Parser::new();
    match p.AsmStr(text) {
        Ok(words) => panic!("expected an error, got {:?}", words),
        Err(e) => e,
    }
}

#[test]
fn boundary_immediates_succeed() {
    let mut p = Parser::new();
    let res = p.AsmStr("addi $t0, $t0, 32767").unwrap();
    assert_eq!(res, vec![0x21087fff]);
    let res = p.AsmStr("addi $t0, $t0, -32768").unwrap();
    assert_eq!(res, vec![0x21088000]);
}

#[test]
fn out_of_range_immediate_fails() {
    let e = asm_err("addi $t0, $t0, 32768");
    assert_eq!(e.kind, AsmErrorKind::ImmOutOfRange);
    assert_eq!(e.line, 0);
    let e = asm_err("addi $t0, $t0, -32769");
    assert_eq!(e.kind, AsmErrorKind::ImmOutOfRange);
}

#[test]
fn error_position_points_past_the_literal() {
    let e = asm_err("addiu $sp, $sp, 99999");
    assert_eq!(e.kind, AsmErrorKind::ImmOutOfRange);
    assert_eq!(e.line, 0);
    assert_eq!(e.col, 21);
}

#[test]
fn non_numeric_immediate_fails() {
    let e = asm_err("addi $t0, $t0, 12ab");
    assert_eq!(e.kind, AsmErrorKind::InvalidImm);
    let e = asm_err("addi $t0, $t0, 99999999999999999999");
    assert_eq!(e.kind, AsmErrorKind::InvalidImm);
}

#[test]
fn missing_immediate_fails() {
    let e = asm_err("addi $t0, $t0,");
    assert_eq!(e.kind, AsmErrorKind::ImmExpected);
}

#[test]
fn unknown_register_name_fails() {
    let e = asm_err("add $zz, $t0, $t1");
    assert_eq!(e.kind, AsmErrorKind::RegisterNotFound);
    // the lower-case spelling of register 0 is not in the table
    let e = asm_err("add $zero, $t0, $t1");
    assert_eq!(e.kind, AsmErrorKind::RegisterNotFound);
}

#[test]
fn malformed_numeric_register_fails() {
    let e = asm_err("add $1x, $t0, $t1");
    assert_eq!(e.kind, AsmErrorKind::InvalidRegister);
}

#[test]
fn register_at_line_end_fails() {
    let e = asm_err("add $");
    assert_eq!(e.kind, AsmErrorKind::RegisterExpected);
}

#[test]
fn missing_punctuation_fails() {
    let e = asm_err("add $t0 $t1, $t2");
    assert_eq!(e.kind, AsmErrorKind::ExpectedChar(','));
    let e = asm_err("add t0, $t1, $t2");
    assert_eq!(e.kind, AsmErrorKind::ExpectedChar('$'));
    let e = asm_err("lw $t0, 8($sp");
    assert_eq!(e.kind, AsmErrorKind::ExpectedChar(')'));
}

#[test]
fn bad_load_store_offset_start_fails() {
    let e = asm_err("lw $t0, x($sp)");
    assert_eq!(e.kind, AsmErrorKind::InvalidCharacter);
    let e = asm_err("sw $t0,");
    assert_eq!(e.kind, AsmErrorKind::InvalidCharacter);
}

#[test]
fn trailing_text_after_jump_fails() {
    let e = asm_err("j somewhere else\nsomewhere:");
    assert_eq!(e.kind, AsmErrorKind::TrailingTokens);
}

#[test]
fn missing_branch_label_fails() {
    let e = asm_err("beq $t0, $t1,");
    assert_eq!(e.kind, AsmErrorKind::LabelExpected);
}

#[test]
fn unrecognized_word_fails() {
    let e = asm_err("frobnicate $t0");
    assert_eq!(e.kind, AsmErrorKind::UnknownInstruction);
}

#[test]
fn undefined_label_fails_with_no_output() {
    let e = asm_err("addiu $t0, $t0, 1\nj nowhere");
    assert_eq!(e.kind, AsmErrorKind::LabelNotFound);
    let e = asm_err("beq $t0, $t1, missing");
    assert_eq!(e.kind, AsmErrorKind::LabelNotFound);
}

#[test]
fn first_error_wins_and_reports_its_line() {
    let e = asm_err("addiu $t0, $t0, 1\nbogus $t0\naddi $t0, $t0, 99999");
    assert_eq!(e.kind, AsmErrorKind::UnknownInstruction);
    assert_eq!(e.line, 1);
}

#[test]
fn error_messages_render() {
    let e = asm_err("addi $t0, $t0, 32768");
    assert_eq!(e.message(), "Too large imm");
    let e = asm_err("j void");
    assert_eq!(e.message(), "Label name isn't found");
}

#[test]
fn error_info_constructor_keeps_fields() {
    let e = AsmErrorInfo::new(AsmErrorKind::InvalidImm, 3, 7);
    assert_eq!(e.kind, AsmErrorKind::InvalidImm);
    assert_eq!(e.line, 3);
    assert_eq!(e.col, 7);
}
