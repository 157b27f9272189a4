use lib::ir::{IRBinop, IRFunction, IRInfo, IROpArg, IROpcode, IRString};
use lib::interp::{
    argument_to_value, call_function, cstr_eq, eval_binop, execute, get_string, ExecError,
};

fn name(s: &[u8]) -> IRString {
    let mut content = s.to_vec();
    content.push(0);
    IRString { length: s.len() as u64, content }
}

fn func(name_idx: u64, params: u64, autovars: u64, bytecode: Vec<IROpcode>) -> IRFunction {
    let labels = bytecode
        .iter()
        .enumerate()
        .filter(|(_, o)| matches!(o, IROpcode::Label(_)))
        .map(|(i, _)| i)
        .collect();
    IRFunction { name: name_idx, file: 0, params, autovars, bodysize: bytecode.len() as u64, bytecode, labels }
}

fn program(functions: Vec<IRFunction>) -> IRInfo {
    IRInfo {
        string_table: vec![name(b"main"), name(b"other"), name(b"count")],
        functions,
        ..IRInfo::default()
    }
}

const MINUS_ONE: u64 = u64::MAX;

#[test]
fn eval_binop_unsigned_arithmetic() {
    assert_eq!(eval_binop(IRBinop::Plus, 2, 3), Ok(5));
    assert_eq!(eval_binop(IRBinop::Plus, u64::MAX, 1), Err(ExecError::Overflow));
    assert_eq!(eval_binop(IRBinop::Minus, 5, 3), Ok(2));
    assert_eq!(eval_binop(IRBinop::Minus, 3, 5), Err(ExecError::Overflow));
    assert_eq!(eval_binop(IRBinop::BitOr, 0b1100, 0b1010), Ok(0b1110));
    assert_eq!(eval_binop(IRBinop::BitAnd, 0b1100, 0b1010), Ok(0b1000));
    assert_eq!(eval_binop(IRBinop::BitShl, 1, 63), Ok(1 << 63));
    assert_eq!(eval_binop(IRBinop::BitShl, 3, 63), Ok(1 << 63));
    assert_eq!(eval_binop(IRBinop::BitShl, 1, 64), Err(ExecError::Overflow));
    assert_eq!(eval_binop(IRBinop::BitShr, 256, 4), Ok(16));
    assert_eq!(eval_binop(IRBinop::BitShr, 1, 64), Err(ExecError::Overflow));
    assert_eq!(eval_binop(IRBinop::Equal, 4, 4), Ok(1));
    assert_eq!(eval_binop(IRBinop::NotEqual, 4, 4), Ok(0));
}

#[test]
fn eval_binop_signed_arithmetic() {
    assert_eq!(eval_binop(IRBinop::Mult, MINUS_ONE - 1, 3), Ok((-6i64) as u64));
    assert_eq!(eval_binop(IRBinop::Mult, 1 << 62, 2), Err(ExecError::Overflow));
    assert_eq!(eval_binop(IRBinop::Div, (-7i64) as u64, 2), Ok((-3i64) as u64));
    assert_eq!(eval_binop(IRBinop::Div, 7, (-2i64) as u64), Ok((-3i64) as u64));
    assert_eq!(eval_binop(IRBinop::Mod, (-7i64) as u64, 2), Ok((-1i64) as u64));
    assert_eq!(eval_binop(IRBinop::Mod, 7, (-2i64) as u64), Ok(1));
    assert_eq!(eval_binop(IRBinop::Div, 1, 0), Err(ExecError::DivisionByZero));
    assert_eq!(eval_binop(IRBinop::Mod, 1, 0), Err(ExecError::DivisionByZero));
    assert_eq!(eval_binop(IRBinop::Div, i64::MIN as u64, MINUS_ONE), Err(ExecError::Overflow));
    assert_eq!(eval_binop(IRBinop::Mod, i64::MIN as u64, MINUS_ONE), Err(ExecError::Overflow));
    assert_eq!(eval_binop(IRBinop::Less, MINUS_ONE, 0), Ok(1));
    assert_eq!(eval_binop(IRBinop::Greater, MINUS_ONE, 0), Ok(0));
    assert_eq!(eval_binop(IRBinop::LessEqual, 3, 3), Ok(1));
    assert_eq!(eval_binop(IRBinop::GreaterEqual, 2, 3), Ok(0));
}

#[test]
fn argument_to_value_of_each_kind() {
    let ir = IRInfo::default();
    let zone = vec![10u64, 20];
    assert_eq!(argument_to_value(&ir, &zone, IROpArg::Bogus), Some(0));
    assert_eq!(argument_to_value(&ir, &zone, IROpArg::AutoVar(1)), Some(20));
    assert_eq!(argument_to_value(&ir, &zone, IROpArg::Literal(5)), Some(5));
    assert_eq!(argument_to_value(&ir, &zone, IROpArg::Deref(0)), None);
    assert_eq!(argument_to_value(&ir, &zone, IROpArg::External(0)), None);
}

#[test]
fn get_string_returns_the_entry() {
    let ir = program(vec![]);
    assert_eq!(get_string(&ir, 1).content, b"other\0".to_vec());
}

#[test]
fn cstr_eq_compares_up_to_zero() {
    assert!(cstr_eq(b"main\0", b"main"));
    assert!(cstr_eq(b"main\0junk", b"main\0"));
    assert!(!cstr_eq(b"main\0", b"mai"));
    assert!(!cstr_eq(b"mai\0", b"main"));
    assert!(cstr_eq(b"", b"\0"));
    assert!(!cstr_eq(b"a", b"b"));
}

#[test]
fn call_function_returns_a_literal() {
    let ir = program(vec![func(0, 0, 0, vec![IROpcode::Ret(IROpArg::Literal(42))])]);
    assert_eq!(call_function(&ir, b"main", &[0, 0]), Ok(42));
}

#[test]
fn call_function_finds_by_name_and_passes_arguments() {
    let add = func(
        1,
        2,
        3,
        vec![
            IROpcode::Binop(2, IRBinop::Plus, IROpArg::AutoVar(0), IROpArg::AutoVar(1)),
            IROpcode::Ret(IROpArg::AutoVar(2)),
        ],
    );
    let ir = program(vec![func(0, 0, 0, vec![]), add]);
    assert_eq!(call_function(&ir, b"other", &[40, 2]), Ok(42));
    // running past the last instruction returns 0
    assert_eq!(call_function(&ir, b"main", &[]), Ok(0));
}

#[test]
fn call_function_runs_a_loop() {
    // count = 10; sum = 0; loop: if !count goto end; sum += count; count -= 1; goto loop; end: ret sum
    let body = vec![
        IROpcode::AutoSet(0, IROpArg::Literal(10)),
        IROpcode::AutoSet(1, IROpArg::Literal(0)),
        IROpcode::Label(0),
        IROpcode::JumpNot(1, IROpArg::AutoVar(0)),
        IROpcode::Binop(1, IRBinop::Plus, IROpArg::AutoVar(1), IROpArg::AutoVar(0)),
        IROpcode::Binop(0, IRBinop::Minus, IROpArg::AutoVar(0), IROpArg::Literal(1)),
        IROpcode::Jump(0),
        IROpcode::Label(1),
        IROpcode::Ret(IROpArg::AutoVar(1)),
    ];
    let ir = program(vec![func(2, 0, 2, body)]);
    assert_eq!(call_function(&ir, b"count", &[]), Ok(55));
}

#[test]
fn negate_and_not() {
    let body = vec![
        IROpcode::Negate(0, IROpArg::Literal(5)),
        IROpcode::UnaryNot(1, IROpArg::Literal(0)),
        IROpcode::UnaryNot(2, IROpArg::Literal(7)),
        IROpcode::Binop(0, IRBinop::Plus, IROpArg::AutoVar(0), IROpArg::Literal(10)),
        IROpcode::Binop(0, IRBinop::Plus, IROpArg::AutoVar(0), IROpArg::AutoVar(1)),
        IROpcode::Binop(0, IRBinop::Plus, IROpArg::AutoVar(0), IROpArg::AutoVar(2)),
        IROpcode::Ret(IROpArg::AutoVar(0)),
    ];
    // -5 is a large unsigned word, so the unsigned `+` overflows
    let ir = program(vec![func(0, 0, 3, body)]);
    assert_eq!(call_function(&ir, b"main", &[]), Err(ExecError::Overflow));
    let nots = program(vec![func(0, 0, 2, vec![
        IROpcode::UnaryNot(0, IROpArg::Literal(0)),
        IROpcode::UnaryNot(1, IROpArg::Literal(7)),
        IROpcode::Binop(0, IRBinop::Plus, IROpArg::AutoVar(0), IROpArg::AutoVar(1)),
        IROpcode::Ret(IROpArg::AutoVar(0)),
    ])]);
    assert_eq!(call_function(&nots, b"main", &[]), Ok(1));
    let neg = program(vec![func(0, 0, 1, vec![
        IROpcode::Negate(0, IROpArg::Literal(5)),
        IROpcode::Ret(IROpArg::AutoVar(0)),
    ])]);
    assert_eq!(call_function(&neg, b"main", &[]), Ok((-5i64) as u64));
    let min = program(vec![func(0, 0, 1, vec![IROpcode::Negate(0, IROpArg::Literal(1 << 63))])]);
    assert_eq!(call_function(&min, b"main", &[]), Err(ExecError::Overflow));
}

#[test]
fn call_function_errors() {
    let ir = program(vec![func(0, 0, 0, vec![])]);
    assert_eq!(call_function(&ir, b"nope", &[]), Err(ExecError::FunctionNotFound));

    let bad_name = program(vec![func(9, 0, 0, vec![])]);
    assert_eq!(call_function(&bad_name, b"main", &[]), Err(ExecError::BadStringIndex));

    let needs_two = program(vec![func(0, 2, 2, vec![])]);
    assert_eq!(call_function(&needs_two, b"main", &[1]), Err(ExecError::MissingArgument));
    // only the parameters that fit in the autozone are read
    let small_zone = program(vec![func(0, 2, 1, vec![IROpcode::Ret(IROpArg::AutoVar(0))])]);
    assert_eq!(call_function(&small_zone, b"main", &[7]), Ok(7));

    let bad_var = program(vec![func(0, 0, 1, vec![IROpcode::Ret(IROpArg::AutoVar(1))])]);
    assert_eq!(call_function(&bad_var, b"main", &[]), Err(ExecError::BadAutoVar));

    let bad_store = program(vec![func(0, 0, 1, vec![IROpcode::AutoSet(3, IROpArg::Literal(1))])]);
    assert_eq!(call_function(&bad_store, b"main", &[]), Err(ExecError::BadAutoVar));

    let bad_label = program(vec![func(0, 0, 0, vec![IROpcode::Jump(0)])]);
    assert_eq!(call_function(&bad_label, b"main", &[]), Err(ExecError::BadLabel));

    let deref = program(vec![func(0, 0, 1, vec![IROpcode::Ret(IROpArg::Deref(0))])]);
    assert_eq!(call_function(&deref, b"main", &[]), Err(ExecError::UnsupportedArgument));

    let store = program(vec![func(0, 0, 1, vec![IROpcode::Store(0, IROpArg::Literal(1))])]);
    assert_eq!(call_function(&store, b"main", &[]), Err(ExecError::UnsupportedOpcode));

    let div = program(vec![func(0, 0, 1, vec![
        IROpcode::Binop(0, IRBinop::Div, IROpArg::Literal(1), IROpArg::Bogus),
    ])]);
    assert_eq!(call_function(&div, b"main", &[]), Err(ExecError::DivisionByZero));
}

#[test]
fn execute_stops_at_the_step_limit() {
    let spin = func(0, 0, 0, vec![IROpcode::Label(0), IROpcode::Jump(0)]);
    let ir = program(vec![]);
    assert_eq!(execute(&ir, &spin, vec![], 1000), Err(ExecError::StepLimit));
}

#[test]
fn execute_result_does_not_depend_on_larger_budget() {
    let f = func(0, 0, 1, vec![
        IROpcode::AutoSet(0, IROpArg::Literal(3)),
        IROpcode::Binop(0, IRBinop::Mult, IROpArg::AutoVar(0), IROpArg::Literal(4)),
        IROpcode::Ret(IROpArg::AutoVar(0)),
    ]);
    let ir = program(vec![]);
    assert_eq!(execute(&ir, &f, vec![0], 3), Ok(12));
    assert_eq!(execute(&ir, &f, vec![0], 1000), Ok(12));
    assert_eq!(execute(&ir, &f, vec![0], 2), Err(ExecError::StepLimit));
}

#[test]
fn jump_continues_after_the_label() {
    let f = func(0, 0, 1, vec![
        IROpcode::Jump(0),
        IROpcode::Ret(IROpArg::Literal(1)),
        IROpcode::Label(5),
        IROpcode::Ret(IROpArg::Literal(2)),
    ]);
    let ir = program(vec![]);
    assert_eq!(execute(&ir, &f, vec![0], 10), Ok(2));
    let not_taken = func(0, 0, 0, vec![
        IROpcode::JumpNot(0, IROpArg::Literal(1)),
        IROpcode::Ret(IROpArg::Literal(1)),
        IROpcode::Label(0),
        IROpcode::Ret(IROpArg::Literal(2)),
    ]);
    assert_eq!(execute(&ir, &not_taken, vec![], 10), Ok(1));
}

#[test]
fn label_is_a_no_op() {
    let f = func(0, 0, 1, vec![
        IROpcode::AutoSet(0, IROpArg::Literal(9)),
        IROpcode::Label(0),
        IROpcode::Ret(IROpArg::AutoVar(0)),
    ]);
    let ir = program(vec![]);
    assert_eq!(execute(&ir, &f, vec![0], 10), Ok(9));
}
