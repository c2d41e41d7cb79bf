use mips_assembler::Parser;

fn to_lines(s: &str) -> Vec<String> {
    s.lines().map(|l| l.to_string()).collect()
}

#[test]
fn without_jump_with_normal_offset() {
    let statements = "addiu $sp, $sp, -12
        sw $a0, 8($sp)";
    let mut parser = Parser::new();
    let res = parser.AsmLines(&to_lines(statements));
    assert!(res.is_ok());
    let res = res.unwrap();
    assert!(res.len() == 2);
    assert_eq!(res[0], 0x27bdfff4);
    assert_eq!(res[1], 0xafa40008);
}

#[test]
fn without_jump_without_normal_offset() {
    let statements = "addiu $sp, $sp, -12
        sw $a0, ($sp)";
    let mut parser = Parser::new();
    let res = parser.AsmLines(&to_lines(statements));
    assert!(res.is_ok());
    let res = res.unwrap();
    assert!(res.len() == 2);
    assert_eq!(res[0], 0x27bdfff4);
    assert_eq!(res[1], 0xafa40000);
}

#[test]
fn with_jump() {
    let statements = "  .text
    .globl  main
main:                                    # @sum
# BB#0:                                 # %entry
    addiu $sp, $sp, -12
    sw $a0, 8($sp)
    addiu $v0, $0, 0
    sw $v0, 4($sp)
    addiu $v0, $0, 1
    sw $v0, ($sp)
.LBB0_1:                                # %for.cond
                                        # =>This Inner Loop Header: Depth=1
    lw $v0, ($sp)
    lw $v1, 8($sp)
    slt	$v0, $v0, $v1
    beq $v0, $0, .LBB0_4
    j .LBB0_2
.LBB0_2:                                # %for.body
                                        #   in Loop: Header=BB0_1 Depth=1
    lw $v0, ($sp)
    lw $v1, 4($sp)
    addu $v0, $v1, $v0
    sw $v0, 4($sp)
# BB#3:                                 # %for.inc
                                        #   in Loop: Header=BB0_1 Depth=1
    lw $v0, ($sp)
    addiu $v0, $v0, 1
    sw $v0, ($sp)
    j .LBB0_1
.LBB0_4:                                # %for.end
    lw $v0, 4($sp)
    addiu $sp, $sp, 12";
    let mut parser = Parser::new();
    let res = parser.AsmLines(&to_lines(statements));
    println!("{:?}", res);
    assert!(res.is_ok());
    let res = res.unwrap();
    assert_eq!(res[0], 0x27bdfff4);
    assert_eq!(res[1], 0xafa40008);
    assert_eq!(res[2], 0x24020000);
    assert_eq!(res[3], 0xafa20004);
    assert_eq!(res[9], 0x1040000a);
    assert_eq!(res[res.len() - 3], 0x08000006);
}

#[test]
fn asm_str_agrees_with_asm_lines() {
    let text = "addiu $sp, $sp, -12\nsw $a0, 8($sp)\n";
    let mut p1 = Parser::new();
    let r1 = p1.AsmStr(text).unwrap();
    let mut p2 = Parser::new();
    let r2 = p2.AsmLines(&to_lines(text)).unwrap();
    assert_eq!(r1, r2);
}

#[test]
fn asm_str_handles_crlf_lines() {
    let text = "addiu $sp, $sp, -12\r\nsw $a0, 8($sp)\r\n";
    let mut p = Parser::new();
    let res = p.AsmStr(text).unwrap();
    assert_eq!(res, vec![0x27bdfff4, 0xafa40008]);
}

#[test]
fn r_type_alu_encodings() {
    let mut p = Parser::new();
    let res = p.AsmStr("add $t0, $t1, $t2").unwrap();
    assert_eq!(res, vec![0x012a4020]);
    let res = p.AsmStr("sub $s0, $s1, $s2").unwrap();
    assert_eq!(res, vec![0x02328022]);
    let res = p.AsmStr("sltu $v0, $a0, $a1").unwrap();
    assert_eq!(res, vec![0x0085102b]);
}

#[test]
fn i_type_alu_encodings() {
    let mut p = Parser::new();
    let res = p.AsmStr("ori $t0, $ZERO, 255").unwrap();
    assert_eq!(res, vec![0x340800ff]);
    let res = p.AsmStr("addiu $t0, $t0, +5").unwrap();
    assert_eq!(res, vec![0x25080005]);
}

#[test]
fn load_store_offset_may_be_spaced_from_paren() {
    let mut p = Parser::new();
    let res = p.AsmStr("sw $a0, 8 ( $sp )").unwrap();
    assert_eq!(res, vec![0xafa40008]);
}

#[test]
fn lui_follows_the_common_i_type_grammar() {
    // lui sits in the I-ALU table, so it takes the full `rd, rs, imm` form.
    let mut p = Parser::new();
    let res = p.AsmStr("lui $at, $0, 4096").unwrap();
    assert_eq!(res, vec![0x3c011000]);
}

#[test]
fn jump_register_encodings() {
    let mut p = Parser::new();
    let res = p.AsmStr("jr $ra").unwrap();
    assert_eq!(res, vec![0x03e00008]);
    let res = p.AsmStr("jalr $t9").unwrap();
    assert_eq!(res, vec![0x03200009]);
}

#[test]
fn numeric_and_symbolic_register_agree() {
    // $5 and $a1 both name register 5, so the encodings are identical.
    let mut p = Parser::new();
    let by_name = p.AsmStr("add $t0, $a1, $t1").unwrap();
    let by_number = p.AsmStr("add $t0, $5, $t1").unwrap();
    assert_eq!(by_name, by_number);
}

#[test]
fn numeric_register_range_is_not_checked() {
    // A `$`-digit register keeps its raw value; 40 spills past the field.
    let mut p = Parser::new();
    let res = p.AsmStr("add $40, $0, $0").unwrap();
    assert_eq!(res, vec![0x00014020]);
}

#[test]
fn forward_branch_offset_is_index_difference() {
    // The target label stands 10 instructions past the branch, so the low
    // 16 bits of the patched word are 0x000a.
    let text = "beq $v0, $0, done
        addiu $t0, $t0, 1
        addiu $t0, $t0, 1
        addiu $t0, $t0, 1
        addiu $t0, $t0, 1
        addiu $t0, $t0, 1
        addiu $t0, $t0, 1
        addiu $t0, $t0, 1
        addiu $t0, $t0, 1
        addiu $t0, $t0, 1
done:";
    let mut p = Parser::new();
    let res = p.AsmStr(text).unwrap();
    assert_eq!(res.len(), 10);
    assert_eq!(res[0] & 0xffff, 0x000a);
    assert_eq!(res[0], 0x1040000a);
}

#[test]
fn backward_branch_offset_is_negative() {
    let text = "top:
        addiu $t0, $t0, 1
        bne $t0, $t1, top";
    let mut p = Parser::new();
    let res = p.AsmStr(text).unwrap();
    assert_eq!(res.len(), 2);
    // target 0, source 1: offset -1 stored two's-complement.
    assert_eq!(res[1] & 0xffff, 0xffff);
}

#[test]
fn jump_encodes_target_index_in_low_26_bits() {
    let text = "j there
        addiu $t0, $t0, 1
        addiu $t0, $t0, 1
there:
        jal there";
    let mut p = Parser::new();
    let res = p.AsmStr(text).unwrap();
    assert_eq!(res.len(), 4);
    assert_eq!(res[0], 0x08000003);
    assert_eq!(res[3], 0x0c000003);
}

#[test]
fn label_redefinition_last_wins() {
    let text = "L:
addiu $t0, $t0, 1
L:
j L";
    let mut p = Parser::new();
    let res = p.AsmStr(text).unwrap();
    assert_eq!(res, vec![0x25080001, 0x08000001]);
}

#[test]
fn directives_are_ignored() {
    let mut p = Parser::new();
    let res = p.AsmStr(".data\n.text\n.code\n.globl").unwrap();
    assert_eq!(res.len(), 0);
}

#[test]
fn comments_and_blanks_contribute_nothing() {
    // Comment-only and blank lines add no words and shift no label index.
    let plain = "j L\nL:";
    let noisy = "# leading comment\n\nj L\n   \n# another\n\nL:   # trailing\n";
    let mut p = Parser::new();
    let a = p.AsmStr(plain).unwrap();
    let b = p.AsmStr(noisy).unwrap();
    assert_eq!(a, vec![0x08000001]);
    assert_eq!(a, b);
}

#[test]
fn same_input_assembles_identically_twice() {
    let text = "addiu $sp, $sp, -12
        sw $a0, 8($sp)
        beq $v0, $0, out
out:    ";
    let mut p = Parser::new();
    let first = p.AsmStr(text);
    let second = p.AsmStr(text);
    assert_eq!(first, second);
    let mut q = Parser::new();
    q.Reset();
    let third = q.AsmStr(text);
    assert_eq!(first, third);
}
