use lib::ir::{IRInfo, IROpArg, IROpcode, IRValue, IRBinop, IRSections};
use lib::loader::{
    load_bytecode, load_data, load_externs, load_functions, load_globals, load_string_table,
    LoadError,
};

fn word(v: u64) -> Vec<u8> {
    v.to_le_bytes().to_vec()
}

/// One instruction: line number and line offset words, opcode, operands.
fn instr(opcode: u8, operands: &[u8]) -> Vec<u8> {
    let mut v = word(1);
    v.extend(word(0));
    v.push(opcode);
    v.extend_from_slice(operands);
    v
}

fn arg(tag: u8, w: u64) -> Vec<u8> {
    let mut v = vec![tag];
    v.extend(word(w));
    v
}

/// A file from its five sections.
fn file(strings: &[u8], externs: &[u8], data: &[u8], globals: &[u8], functs: &[u8]) -> Vec<u8> {
    let mut f = vec![0xDE, 0xBC, 0x01];
    let st = f.len() as u64;
    f.extend_from_slice(strings);
    let ex = f.len() as u64;
    f.extend_from_slice(externs);
    let da = f.len() as u64;
    f.extend_from_slice(data);
    let gl = f.len() as u64;
    f.extend_from_slice(globals);
    let fu = f.len() as u64;
    f.extend_from_slice(functs);
    f.extend(word(ex));
    f.extend(word(da));
    f.extend(word(gl));
    f.extend(word(fu));
    f.extend(word(st));
    f
}

fn string_table(names: &[&[u8]]) -> Vec<u8> {
    let mut v = word(names.len() as u64);
    for n in names {
        v.extend(word(n.len() as u64));
        v.extend_from_slice(n);
    }
    v
}

fn function(name: u64, params: u64, autovars: u64, body: &[Vec<u8>]) -> Vec<u8> {
    let mut v = word(name);
    v.extend(word(0));
    v.extend(word(params));
    v.extend(word(autovars));
    v.extend(word(body.len() as u64));
    for i in body {
        v.extend_from_slice(i);
    }
    v
}

fn sample() -> Vec<u8> {
    let strings = string_table(&[b"main", b"putchar"]);
    let mut externs = word(1);
    externs.extend(word(1));
    let mut data = word(3);
    data.extend_from_slice(&[7, 8, 9]);
    let mut globals = word(1);
    globals.extend(word(0)); // name
    globals.extend(word(3)); // three values
    globals.extend(arg(0, 11));
    globals.extend(arg(1, 22));
    globals.extend(arg(2, 33));
    globals.push(1); // is_vec
    globals.extend(word(4)); // min size
    let mut binop = word(0);
    binop.push(0x00);
    binop.extend(arg(5, 2));
    binop.extend(arg(5, 3));
    let mut call = word(1);
    call.extend(arg(0, 1));
    call.extend(word(1));
    call.extend(arg(5, 65));
    let body = vec![
        instr(0x09, &word(0)),
        instr(0x07, &binop),
        instr(0x0C, &call),
        instr(0x09, &word(1)),
        instr(0x01, &arg(1, 0)),
    ];
    let mut functs = word(1);
    functs.extend(function(0, 0, 2, &body));
    file(&strings, &externs, &data, &globals, &functs)
}

#[test]
fn load_bytecode_reads_every_section() {
    let mut ir = IRInfo::default();
    let bytes = sample();
    assert_eq!(load_bytecode(&mut ir, bytes.clone()), Ok(()));
    assert_eq!(ir.source, bytes);
    assert_eq!(ir.string_table.len(), 2);
    assert_eq!(ir.string_table[0].length, 4);
    assert_eq!(ir.string_table[0].content, b"main\0".to_vec());
    assert_eq!(ir.string_table[1].content, b"putchar\0".to_vec());
    assert_eq!(ir.externs.count, 1);
    assert_eq!(ir.externs.externs, vec![1]);
    assert_eq!(ir.data.data, vec![7, 8, 9]);
    assert_eq!(ir.globals.len(), 1);
    let g = &ir.globals[0];
    assert_eq!(g.name, 0);
    // kind 2 is read as a literal, as the loader always did
    assert_eq!(g.values, vec![IRValue::Name(11), IRValue::Literal(22), IRValue::Literal(33)]);
    assert!(g.is_vec);
    assert_eq!(g.min_size, 4);
    assert_eq!(ir.functions.len(), 1);
    let f = &ir.functions[0];
    assert_eq!((f.name, f.params, f.autovars, f.bodysize), (0, 0, 2, 5));
    assert_eq!(f.bytecode.len(), 5);
    assert_eq!(f.labels, vec![0, 3]);
    assert!(matches!(f.bytecode[0], IROpcode::Label(0)));
    assert!(matches!(
        f.bytecode[1],
        IROpcode::Binop(0, IRBinop::Plus, IROpArg::Literal(2), IROpArg::Literal(3))
    ));
    match &f.bytecode[2] {
        IROpcode::Funcall(to, func, args) => {
            assert_eq!(*to, IROpArg::AutoVar(1));
            assert_eq!(*func, IROpArg::External(1));
            assert_eq!(*args, vec![IROpArg::Literal(65)]);
        }
        _ => panic!("expected a call"),
    }
    assert!(matches!(f.bytecode[4], IROpcode::Ret(IROpArg::AutoVar(0))));
}

#[test]
fn load_bytecode_leaves_data_length_at_the_function_count() {
    let mut ir = IRInfo::default();
    load_bytecode(&mut ir, sample()).unwrap();
    assert_eq!(ir.data.length, 1);
    assert_eq!(ir.data.length as usize, ir.functions.len());
}

#[test]
fn load_bytecode_reads_section_offsets_from_the_end() {
    let mut ir = IRInfo::default();
    let bytes = sample();
    load_bytecode(&mut ir, bytes.clone()).unwrap();
    let n = bytes.len();
    let w = |o: usize| u64::from_le_bytes(bytes[o..o + 8].try_into().unwrap());
    assert_eq!(
        ir.sections,
        IRSections {
            extern_section: w(n - 40),
            data_section: w(n - 32),
            globals_section: w(n - 24),
            functs_section: w(n - 16),
            string_table: w(n - 8),
        }
    );
    assert_eq!(ir.sections.string_table, 3);
}

#[test]
fn load_bytecode_refuses_a_bad_header() {
    let mut ir = IRInfo::default();
    let mut bytes = sample();
    bytes[0] = 0xDF;
    assert_eq!(load_bytecode(&mut ir, bytes), Err(LoadError::BadHeader));
    assert!(ir.source.is_empty());
    let mut bytes = sample();
    bytes[2] = 0x02;
    assert_eq!(load_bytecode(&mut ir, bytes), Err(LoadError::BadHeader));
    assert!(ir.functions.is_empty());
}

#[test]
fn load_bytecode_refuses_short_files() {
    let mut ir = IRInfo::default();
    assert_eq!(load_bytecode(&mut ir, vec![0xDE, 0xBC]), Err(LoadError::Malformed));
    assert_eq!(load_bytecode(&mut ir, vec![0xDE, 0xBC, 0x01, 0, 0]), Err(LoadError::Malformed));
    assert_eq!(load_bytecode(&mut ir, vec![0, 0, 0]), Err(LoadError::BadHeader));
}

#[test]
fn load_bytecode_refuses_malformed_sections_and_keeps_ir() {
    let strings = string_table(&[b"main"]);
    let bad_body = vec![instr(0x08, &[])];
    let mut functs = word(1);
    functs.extend(function(0, 0, 0, &bad_body));
    let bytes = file(&strings, &word(0), &word(0), &word(0), &functs);
    let mut ir = IRInfo::default();
    assert_eq!(load_bytecode(&mut ir, bytes), Err(LoadError::Malformed));
    assert!(ir.string_table.is_empty());
    assert!(ir.source.is_empty());

    let mut truncated = sample();
    let n = truncated.len();
    truncated[n - 8..].copy_from_slice(&word(1_000_000));
    assert_eq!(load_bytecode(&mut ir, truncated), Err(LoadError::Malformed));
}

fn ir_over(bytes: Vec<u8>, sections: IRSections) -> IRInfo {
    IRInfo { source: bytes, sections, ..IRInfo::default() }
}

#[test]
fn load_externs_appends_and_sets_count() {
    let mut bytes = vec![0u8];
    bytes.extend(word(2));
    bytes.extend(word(5));
    bytes.extend(word(6));
    let mut ir = ir_over(bytes, IRSections { extern_section: 1, ..IRSections::default() });
    ir.externs.externs.push(99);
    load_externs(&mut ir);
    assert_eq!(ir.externs.externs, vec![99, 5, 6]);
    assert_eq!(ir.externs.count, 2);
}

#[test]
fn load_data_copies_bytes() {
    let mut bytes = word(2);
    bytes.extend_from_slice(&[0xAB, 0xCD, 0xEF]);
    let mut ir = ir_over(bytes, IRSections::default());
    load_data(&mut ir);
    assert_eq!(ir.data.data, vec![0xAB, 0xCD]);
    assert_eq!(ir.data.length, 2);
}

#[test]
fn load_globals_sets_data_length_to_global_count() {
    let mut bytes = word(2);
    for name in [3u64, 4] {
        bytes.extend(word(name));
        bytes.extend(word(1));
        bytes.extend(arg(1, name * 10));
        bytes.push(0);
        bytes.extend(word(0));
    }
    let mut ir = ir_over(bytes, IRSections::default());
    ir.data.length = 77;
    load_globals(&mut ir);
    assert_eq!(ir.globals.len(), 2);
    assert_eq!(ir.globals[1].values, vec![IRValue::Literal(40)]);
    assert!(!ir.globals[0].is_vec);
    assert_eq!(ir.data.length, 2);
}

/// A file whose function section is `functs` and whose other sections are
/// empty.
fn with_functions(functs: &[u8]) -> Vec<u8> {
    file(&string_table(&[b"main"]), &word(0), &word(0), &word(0), functs)
}

#[test]
fn load_bytecode_refuses_unknown_value_kind() {
    let mut globals = word(1);
    globals.extend(word(0));
    globals.extend(word(1));
    globals.extend(arg(3, 0));
    globals.push(0);
    globals.extend(word(0));
    let bytes = file(&string_table(&[]), &word(0), &word(0), &globals, &word(0));
    let mut ir = IRInfo::default();
    assert_eq!(load_bytecode(&mut ir, bytes), Err(LoadError::Malformed));
    assert!(ir.globals.is_empty());
}

#[test]
fn load_bytecode_refuses_bad_binop_and_truncated_body() {
    let mut binop = word(0);
    binop.push(0x0F);
    binop.extend(arg(5, 1));
    binop.extend(arg(5, 1));
    let mut functs = word(1);
    functs.extend(function(0, 0, 1, &[instr(0x07, &binop)]));
    let mut ir = IRInfo::default();
    assert_eq!(load_bytecode(&mut ir, with_functions(&functs)), Err(LoadError::Malformed));

    let mut functs = word(2);
    functs.extend(function(0, 0, 1, &[instr(0x01, &arg(5, 1))]));
    assert_eq!(load_bytecode(&mut ir, with_functions(&functs)), Err(LoadError::Malformed));
    assert!(ir.functions.is_empty());

    let mut functs = word(1);
    functs.extend(function(0, 0, 1, &[instr(0x01, &arg(5, 1))]));
    assert_eq!(load_bytecode(&mut ir, with_functions(&functs)), Ok(()));
    assert_eq!(ir.functions.len(), 1);
}

#[test]
fn load_bytecode_refuses_extern_section_past_the_end() {
    let bytes = file(&string_table(&[]), &word(1_000), &word(0), &word(0), &word(0));
    let mut ir = IRInfo::default();
    assert_eq!(load_bytecode(&mut ir, bytes), Err(LoadError::Malformed));
    let bytes = file(&string_table(&[]), &word(0), &word(1_000), &word(0), &word(0));
    assert_eq!(load_bytecode(&mut ir, bytes), Err(LoadError::Malformed));
}

#[test]
fn load_functions_reads_every_opcode() {
    let mut word_arg = word(4);
    word_arg.extend(arg(5, 9));
    let body = vec![
        instr(0x01, &[0]),
        instr(0x02, &word_arg),
        instr(0x03, &word_arg),
        instr(0x04, &word_arg),
        instr(0x05, &word_arg),
        instr(0x06, &word_arg),
        instr(0x09, &word(2)),
        instr(0x0A, &word(2)),
        instr(0x0B, &word_arg),
    ];
    let mut bytes = word(1);
    bytes.extend(function(0, 0, 1, &body));
    let mut ir = ir_over(bytes, IRSections::default());
    ir.data.length = 5;
    load_functions(&mut ir);
    assert_eq!(ir.data.length, 1);
    let b = &ir.functions[0].bytecode;
    assert!(matches!(b[0], IROpcode::Ret(IROpArg::Bogus)));
    assert!(matches!(b[1], IROpcode::Store(4, IROpArg::Literal(9))));
    assert!(matches!(b[2], IROpcode::ExtrnSet(IROpArg::External(4), IROpArg::Literal(9))));
    assert!(matches!(b[3], IROpcode::AutoSet(4, IROpArg::Literal(9))));
    assert!(matches!(b[4], IROpcode::Negate(4, IROpArg::Literal(9))));
    assert!(matches!(b[5], IROpcode::UnaryNot(4, IROpArg::Literal(9))));
    assert!(matches!(b[6], IROpcode::Label(2)));
    assert!(matches!(b[7], IROpcode::Jump(2)));
    assert!(matches!(b[8], IROpcode::JumpNot(4, IROpArg::Literal(9))));
    assert_eq!(ir.functions[0].labels, vec![6]);
}

#[test]
fn load_string_table_appends_entries() {
    let bytes = string_table(&[b"", b"xy"]);
    let mut ir = ir_over(bytes, IRSections::default());
    load_string_table(&mut ir);
    assert_eq!(ir.string_table.len(), 2);
    assert_eq!(ir.string_table[0].content, vec![0]);
    assert_eq!(ir.string_table[1].length, 2);
    assert_eq!(ir.string_table[1].content, b"xy\0".to_vec());

    let mut bad = word(1);
    bad.extend(word(1_000_000));
    bad.extend_from_slice(b"abc");
    let bytes = file(&bad, &word(0), &word(0), &word(0), &word(0));
    let mut ir = IRInfo::default();
    assert_eq!(load_bytecode(&mut ir, bytes), Err(LoadError::Malformed));
    assert!(ir.string_table.is_empty());
}

#[test]
fn labels_point_at_label_instructions() {
    let mut ir = IRInfo::default();
    load_bytecode(&mut ir, sample()).unwrap();
    for f in &ir.functions {
        for &l in &f.labels {
            assert!(matches!(f.bytecode[l], IROpcode::Label(_)));
        }
    }
}
