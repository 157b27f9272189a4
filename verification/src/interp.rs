//! Running the functions of a loaded file.
use vstd::prelude::*;
use crate::ir::{
    IRBinop, IROpArg, IROpcode, IRFunction, IRInfo, IRString, OpcodeModel, FunctionModel,
    InfoModel, strings_view,
};

verus! {

/// Why running a function stopped without a result.
#[derive(Clone, Copy, PartialEq, Eq, Structural, Debug)]
pub enum ExecError {
    /// No function of that name.
    FunctionNotFound,
    /// A function's name is not an index of the string table.
    BadStringIndex,
    /// Fewer arguments than the function's parameters.
    MissingArgument,
    /// An automatic-variable index outside the autozone.
    BadAutoVar,
    /// A jump to a label number that the function does not have.
    BadLabel,
    /// An operand kind that the runner does not evaluate.
    UnsupportedArgument,
    /// An instruction that the runner does not execute.
    UnsupportedOpcode,
    /// An arithmetic result or shift amount out of range.
    Overflow,
    /// Division or remainder by zero.
    DivisionByZero,
    /// The step budget ran out before the function returned.
    StepLimit,
}

/// The outcome of one instruction.
#[derive(Clone, Copy, PartialEq, Eq, Structural, Debug)]
pub enum StepOutcome {
    /// Go on at this instruction index.
    Next(usize),
    Return(u64),
    Fault(ExecError),
}

/// The outcome of one instruction, over models.
pub enum Step {
    Continue(Seq<u64>, int),
    Return(u64),
    Fault(ExecError),
}

/// A word read as a two's-complement signed integer.
pub open spec fn signed(a: u64) -> int {
    if a < 0x8000_0000_0000_0000 {
        a as int
    } else {
        a as int - 0x1_0000_0000_0000_0000
    }
}

/// The word whose two's-complement reading is `x` (for `x` in `i64` range).
pub open spec fn unsigned(x: int) -> u64 {
    if x >= 0 {
        x as u64
    } else {
        (x + 0x1_0000_0000_0000_0000) as u64
    }
}

/// Division rounding toward zero.
pub open spec fn trunc_div(x: int, y: int) -> int {
    if x >= 0 {
        x / y
    } else {
        -((-x) / y)
    }
}

/// The remainder of `trunc_div`, with the sign of `x`.
pub open spec fn trunc_rem(x: int, y: int) -> int {
    if x >= 0 {
        x % y
    } else {
        -((-x) % y)
    }
}

pub open spec fn bool_word(b: bool) -> u64 {
    if b {
        1
    } else {
        0
    }
}

pub open spec fn in_i64(x: int) -> bool {
    i64::MIN <= x <= i64::MAX
}

/// The result of `a op b`: `+`, `-` and shifts on unsigned words, `*`, `/`,
/// `%` and the orderings on their signed readings.
pub open spec fn binop_result(op: IRBinop, a: u64, b: u64) -> Result<u64, ExecError> {
    match op {
        IRBinop::Plus => if a + b <= u64::MAX {
            Ok((a + b) as u64)
        } else {
            Err(ExecError::Overflow)
        },
        IRBinop::Minus => if a >= b {
            Ok((a - b) as u64)
        } else {
            Err(ExecError::Overflow)
        },
        IRBinop::BitOr => Ok(a | b),
        IRBinop::BitAnd => Ok(a & b),
        IRBinop::BitShl => if b < 64 {
            Ok(a << b)
        } else {
            Err(ExecError::Overflow)
        },
        IRBinop::BitShr => if b < 64 {
            Ok(a >> b)
        } else {
            Err(ExecError::Overflow)
        },
        IRBinop::Equal => Ok(bool_word(a == b)),
        IRBinop::NotEqual => Ok(bool_word(a != b)),
        IRBinop::Mult => if in_i64(signed(a) * signed(b)) {
            Ok(unsigned(signed(a) * signed(b)))
        } else {
            Err(ExecError::Overflow)
        },
        IRBinop::Div => if signed(b) == 0 {
            Err(ExecError::DivisionByZero)
        } else if signed(a) == i64::MIN && signed(b) == -1 {
            Err(ExecError::Overflow)
        } else {
            Ok(unsigned(trunc_div(signed(a), signed(b))))
        },
        IRBinop::Mod => if signed(b) == 0 {
            Err(ExecError::DivisionByZero)
        } else if signed(a) == i64::MIN && signed(b) == -1 {
            Err(ExecError::Overflow)
        } else {
            Ok(unsigned(trunc_rem(signed(a), signed(b))))
        },
        IRBinop::Less => Ok(bool_word(signed(a) < signed(b))),
        IRBinop::Greater => Ok(bool_word(signed(a) > signed(b))),
        IRBinop::LessEqual => Ok(bool_word(signed(a) <= signed(b))),
        IRBinop::GreaterEqual => Ok(bool_word(signed(a) >= signed(b))),
    }
}

/// The value of an operand: `Bogus` is 0, an automatic variable its
/// current value, a literal itself.
pub open spec fn arg_value(zone: Seq<u64>, arg: IROpArg) -> Result<u64, ExecError> {
    match arg {
        IROpArg::Bogus => Ok(0),
        IROpArg::AutoVar(v) => if v < zone.len() {
            Ok(zone[v as int])
        } else {
            Err(ExecError::BadAutoVar)
        },
        IROpArg::Literal(v) => Ok(v),
        _ => Err(ExecError::UnsupportedArgument),
    }
}

/// Writes `v` to automatic variable `d` and goes on after `pc`.
pub open spec fn store_step(zone: Seq<u64>, d: u64, v: u64, pc: int) -> Step {
    if d < zone.len() {
        Step::Continue(zone.update(d as int, v), pc + 1)
    } else {
        Step::Fault(ExecError::BadAutoVar)
    }
}

/// Goes on just after the `idx`-th label of `f`.
pub open spec fn jump_step(f: FunctionModel, zone: Seq<u64>, idx: u64) -> Step {
    if idx < f.labels.len() {
        if f.labels[idx as int] == usize::MAX {
            Step::Fault(ExecError::Overflow)
        } else {
            Step::Continue(zone, f.labels[idx as int] + 1)
        }
    } else {
        Step::Fault(ExecError::BadLabel)
    }
}

pub open spec fn unary_step(zone: Seq<u64>, d: u64, r: Result<u64, ExecError>, pc: int) -> Step {
    match r {
        Ok(v) => store_step(zone, d, v, pc),
        Err(e) => Step::Fault(e),
    }
}

/// The negation of the signed reading of `a`.
pub open spec fn negate_result(a: u64) -> Result<u64, ExecError> {
    if signed(a) == i64::MIN {
        Err(ExecError::Overflow)
    } else {
        Ok(unsigned(-signed(a)))
    }
}

/// What instruction `pc` of `f` does in the autozone `zone`.
pub open spec fn step(f: FunctionModel, zone: Seq<u64>, pc: int) -> Step {
    match f.bytecode[pc] {
        OpcodeModel::Ret(a) => match arg_value(zone, a) {
            Ok(v) => Step::Return(v),
            Err(e) => Step::Fault(e),
        },
        OpcodeModel::AutoSet(d, a) => unary_step(zone, d, arg_value(zone, a), pc),
        OpcodeModel::Binop(d, op, a1, a2) => match arg_value(zone, a1) {
            Ok(v1) => match arg_value(zone, a2) {
                Ok(v2) => unary_step(zone, d, binop_result(op, v1, v2), pc),
                Err(e) => Step::Fault(e),
            },
            Err(e) => Step::Fault(e),
        },
        OpcodeModel::Label(_) => Step::Continue(zone, pc + 1),
        OpcodeModel::Jump(idx) => jump_step(f, zone, idx),
        OpcodeModel::JumpNot(idx, a) => match arg_value(zone, a) {
            Ok(v) => if v == 0 {
                jump_step(f, zone, idx)
            } else {
                Step::Continue(zone, pc + 1)
            },
            Err(e) => Step::Fault(e),
        },
        OpcodeModel::Negate(d, a) => match arg_value(zone, a) {
            Ok(v) => unary_step(zone, d, negate_result(v), pc),
            Err(e) => Step::Fault(e),
        },
        OpcodeModel::UnaryNot(d, a) => match arg_value(zone, a) {
            Ok(v) => store_step(zone, d, bool_word(v == 0), pc),
            Err(e) => Step::Fault(e),
        },
        _ => Step::Fault(ExecError::UnsupportedOpcode),
    }
}

/// Running `f` from instruction `pc` for at most `fuel` instructions:
/// running past the last instruction returns 0.
pub open spec fn run(f: FunctionModel, zone: Seq<u64>, pc: int, fuel: nat) -> Result<u64, ExecError>
    decreases fuel,
{
    if pc < 0 || pc >= f.bytecode.len() {
        Ok(0)
    } else if fuel == 0 {
        Err(ExecError::StepLimit)
    } else {
        match step(f, zone, pc) {
            Step::Continue(z, p) => run(f, z, p, (fuel - 1) as nat),
            Step::Return(v) => Ok(v),
            Step::Fault(e) => Err(e),
        }
    }
}

/// The bytes of `s` up to its first zero byte (a C string).
pub open spec fn cstr(s: Seq<u8>) -> Seq<u8>
    decreases s.len(),
{
    if s.len() == 0 || s[0] == 0 {
        Seq::empty()
    } else {
        seq![s[0]] + cstr(s.drop_first())
    }
}

/// The index of the first function of `m`, from `i` on, whose name is
/// `name` as C strings.
pub open spec fn find_function(m: InfoModel, name: Seq<u8>, i: int) -> Result<int, ExecError>
    decreases m.functions.len() - i,
{
    if i < 0 || i >= m.functions.len() {
        Err(ExecError::FunctionNotFound)
    } else if m.functions[i].name >= m.string_table.len() {
        Err(ExecError::BadStringIndex)
    } else if cstr(m.string_table[m.functions[i].name as int].content) == cstr(name) {
        Ok(i)
    } else {
        find_function(m, name, i + 1)
    }
}

/// The autozone of a call of `f`: the first `params` variables hold the
/// arguments, the rest are 0.
pub open spec fn initial_zone(f: FunctionModel, args: Seq<u64>) -> Result<Seq<u64>, ExecError> {
    if f.params > args.len() && f.autovars > args.len() {
        Err(ExecError::MissingArgument)
    } else {
        Ok(Seq::new(f.autovars as nat, |j: int| if j < f.params { args[j] } else { 0 }))
    }
}

/// The result of calling function `name` of `m` with `args`.
pub open spec fn call_result(m: InfoModel, name: Seq<u8>, args: Seq<u64>) -> Result<u64, ExecError> {
    match find_function(m, name, 0) {
        Ok(i) => match initial_zone(m.functions[i], args) {
            Ok(z) => run(m.functions[i], z, 0, u64::MAX as nat),
            Err(e) => Err(e),
        },
        Err(e) => Err(e),
    }
}


proof fn lemma_div_bounds(x: int, y: int)
    requires
        x >= 0,
        y != 0,
    ensures
        -x <= x / y <= x,
{
    assert(-x <= x / y <= x) by (nonlinear_arith)
        requires
            x >= 0,
            y != 0,
    ;
}

proof fn lemma_neg_div_in_range(n: int, y: int)
    requires
        0 <= n <= 0x8000_0000_0000_0000,
        y != 0,
        y == -1 ==> n < 0x8000_0000_0000_0000,
    ensures
        i64::MIN <= -(n / y) <= i64::MAX,
{
    if y > 0 {
        assert(0 <= n / y <= n) by (nonlinear_arith)
            requires
                n >= 0,
                y > 0,
        ;
    } else if y == -1 {
        assert(n / y == -n) by (nonlinear_arith)
            requires
                y == -1,
        ;
    } else {
        assert(-n <= 2 * (n / y) <= 0) by (nonlinear_arith)
            requires
                n >= 0,
                y <= -2,
        ;
    }
}

fn to_signed(a: u64) -> (r: i64)
    ensures
        r as int == signed(a),
{
    let x = #[verifier::truncate] (a as i64);
    assert(a >= 0x8000_0000_0000_0000u64 ==> x as int == a as int - 0x1_0000_0000_0000_0000int)
        by (bit_vector)
        requires
            x == a as i64,
    ;
    assert(a < 0x8000_0000_0000_0000u64 ==> x as int == a as int) by (bit_vector)
        requires
            x == a as i64,
    ;
    x
}

fn to_unsigned(x: i64) -> (r: u64)
    ensures
        r == unsigned(x as int),
{
    let a = #[verifier::truncate] (x as u64);
    assert(x < 0 ==> a as int == x as int + 0x1_0000_0000_0000_0000int) by (bit_vector)
        requires
            a == x as u64,
    ;
    assert(x >= 0 ==> a as int == x as int) by (bit_vector)
        requires
            a == x as u64,
    ;
    a
}

fn bool_to_word(b: bool) -> (r: u64)
    ensures
        r == bool_word(b),
{
    if b {
        1
    } else {
        0
    }
}

/// Computes `a op b` as `binop_result` states.
pub fn eval_binop(op: IRBinop, a1: u64, a2: u64) -> (r: Result<u64, ExecError>)
    ensures
        r == binop_result(op, a1, a2),
{
    match op {
        IRBinop::Plus => match a1.checked_add(a2) {
            Some(v) => Ok(v),
            None => Err(ExecError::Overflow),
        },
        IRBinop::Minus => match a1.checked_sub(a2) {
            Some(v) => Ok(v),
            None => Err(ExecError::Overflow),
        },
        IRBinop::BitOr => Ok(a1 | a2),
        IRBinop::BitAnd => Ok(a1 & a2),
        IRBinop::BitShl => if a2 < 64 {
            Ok(a1 << a2)
        } else {
            Err(ExecError::Overflow)
        },
        IRBinop::BitShr => if a2 < 64 {
            Ok(a1 >> a2)
        } else {
            Err(ExecError::Overflow)
        },
        IRBinop::Equal => Ok(bool_to_word(a1 == a2)),
        IRBinop::NotEqual => Ok(bool_to_word(a1 != a2)),
        IRBinop::Mult => {
            let x = to_signed(a1);
            let y = to_signed(a2);
            match x.checked_mul(y) {
                Some(p) => Ok(to_unsigned(p)),
                None => Err(ExecError::Overflow),
            }
        },
        IRBinop::Div | IRBinop::Mod => {
            let x = to_signed(a1);
            let y = to_signed(a2);
            if y == 0 {
                Err(ExecError::DivisionByZero)
            } else if x == i64::MIN && y == -1 {
                Err(ExecError::Overflow)
            } else if op == IRBinop::Div {
                proof {
                    if x >= 0 {
                        lemma_div_bounds(x as int, y as int);
                    } else {
                        lemma_div_bounds(-(x as int), y as int);
                        lemma_neg_div_in_range(-(x as int), y as int);
                    }
                }
                Ok(to_unsigned(x / y))
            } else {
                Ok(to_unsigned(x % y))
            }
        },
        IRBinop::Less => Ok(bool_to_word(to_signed(a1) < to_signed(a2))),
        IRBinop::Greater => Ok(bool_to_word(to_signed(a1) > to_signed(a2))),
        IRBinop::LessEqual => Ok(bool_to_word(to_signed(a1) <= to_signed(a2))),
        IRBinop::GreaterEqual => Ok(bool_to_word(to_signed(a1) >= to_signed(a2))),
    }
}


/// The value of an operand in the autozone: `Bogus` is 0, an automatic
/// variable its current value, a literal itself; other operands have none.
pub fn argument_to_value(_ir: &IRInfo, autozone: &Vec<u64>, arg: IROpArg) -> (r: Option<u64>)
    requires
        arg is AutoVar ==> arg->AutoVar_0 < autozone@.len(),
    ensures
        r == (match arg_value(autozone@, arg) {
            Ok(v) => Some(v),
            Err(_) => None::<u64>,
        }),
{
    match arg {
        IROpArg::Bogus => Some(0),
        IROpArg::AutoVar(v) => {
            let n = autozone.len();
            let idx = v as usize;
            assert(idx == v);
            Some(autozone[idx])
        },
        IROpArg::Literal(v) => Some(v),
        _ => None,
    }
}

/// The value of an operand, or why it has none.
fn operand(ir: &IRInfo, autozone: &Vec<u64>, arg: IROpArg) -> (r: Result<u64, ExecError>)
    ensures
        r == arg_value(autozone@, arg),
{
    if let IROpArg::AutoVar(v) = arg {
        if v >= autozone.len() as u64 {
            return Err(ExecError::BadAutoVar);
        }
    }
    match argument_to_value(ir, autozone, arg) {
        Some(v) => Ok(v),
        None => Err(ExecError::UnsupportedArgument),
    }
}

/// The string-table entry with index `index`.
pub fn get_string(ir: &IRInfo, index: u64) -> (r: &IRString)
    requires
        index < ir@.string_table.len(),
    ensures
        r@ == ir@.string_table[index as int],
{
    let n = ir.string_table.len();
    let idx = index as usize;
    assert(idx == index);
    let r = &ir.string_table[idx];
    assert(strings_view(ir.string_table@)[index as int] == ir.string_table@[index as int]@);
    r
}

/// Whether `a` and `b` are equal as C strings (each up to its first zero
/// byte, or its end).
pub fn cstr_eq(a: &[u8], b: &[u8]) -> (r: bool)
    ensures
        r == (cstr(a@) == cstr(b@)),
{
    let mut i: usize = 0;
    let ghost target = cstr(a@) == cstr(b@);
    assert(a@.skip(0) =~= a@);
    assert(b@.skip(0) =~= b@);
    loop
        invariant
            i <= a@.len(),
            i <= b@.len(),
            target == (cstr(a@) == cstr(b@)),
            target == (cstr(a@.skip(i as int)) == cstr(b@.skip(i as int))),
        decreases a@.len() - i,
    {
        let ca: u8 = if i < a.len() { a[i] } else { 0 };
        let cb: u8 = if i < b.len() { b[i] } else { 0 };
        let ghost sa = a@.skip(i as int);
        let ghost sb = b@.skip(i as int);
        proof {
            if i < a@.len() {
                assert(sa[0] == a@[i as int]);
            }
            if i < b@.len() {
                assert(sb[0] == b@[i as int]);
            }
            assert(sa.len() == 0 || sa[0] == ca);
            assert(sb.len() == 0 || sb[0] == cb);
            assert(ca == 0 ==> cstr(sa) == Seq::<u8>::empty());
            assert(cb == 0 ==> cstr(sb) == Seq::<u8>::empty());
            if ca != 0 {
                assert(cstr(sa) == seq![ca] + cstr(sa.drop_first()));
                assert(cstr(sa)[0] == ca);
            }
            if cb != 0 {
                assert(cstr(sb) == seq![cb] + cstr(sb.drop_first()));
                assert(cstr(sb)[0] == cb);
            }
        }
        if ca != cb {
            return false;
        }
        if ca == 0 {
            return true;
        }
        proof {
            assert(sa.drop_first() =~= a@.skip(i + 1));
            assert(sb.drop_first() =~= b@.skip(i + 1));
            let p = cstr(sa.drop_first());
            let q = cstr(sb.drop_first());
            assert((seq![ca] + p).drop_first() =~= p);
            assert((seq![ca] + q).drop_first() =~= q);
            if p == q {
                assert(seq![ca] + p =~= seq![cb] + q);
            }
        }
        i = i + 1;
    }
}


/// Writes `v` to automatic variable `d`; the next instruction is `pc + 1`.
fn store(zone: &mut Vec<u64>, d: u64, v: u64, pc: usize) -> (r: StepOutcome)
    requires
        pc < usize::MAX,
    ensures
        match store_step(old(zone)@, d, v, pc as int) {
            Step::Continue(z, p) => r == StepOutcome::Next(p as usize) && p == pc + 1
                && final(zone)@ == z,
            Step::Return(x) => r == StepOutcome::Return(x),
            Step::Fault(e) => r == StepOutcome::Fault(e) && final(zone)@ == old(zone)@,
        },
{
    if d < zone.len() as u64 {
        zone.set(d as usize, v);
        StepOutcome::Next(pc + 1)
    } else {
        StepOutcome::Fault(ExecError::BadAutoVar)
    }
}

/// Goes to the instruction after the `idx`-th label of `func`.
fn jump(func: &IRFunction, idx: u64) -> (r: StepOutcome)
    ensures
        forall|zone: Seq<u64>|
            match #[trigger] jump_step(func@, zone, idx) {
                Step::Continue(_, p) => r == StepOutcome::Next(p as usize) && p <= usize::MAX,
                Step::Return(x) => r == StepOutcome::Return(x),
                Step::Fault(e) => r == StepOutcome::Fault(e),
            },
{
    if idx < func.labels.len() as u64 {
        let target = func.labels[idx as usize];
        if target == usize::MAX {
            StepOutcome::Fault(ExecError::Overflow)
        } else {
            StepOutcome::Next(target + 1)
        }
    } else {
        StepOutcome::Fault(ExecError::BadLabel)
    }
}

/// Executes instruction `pc` of `func` on the autozone `zone`.
fn step_instruction(ir: &IRInfo, func: &IRFunction, zone: &mut Vec<u64>, pc: usize) -> (r: StepOutcome)
    requires
        pc < func.bytecode@.len(),
    ensures
        match step(func@, old(zone)@, pc as int) {
            Step::Continue(z, p) => r == StepOutcome::Next(p as usize) && p <= usize::MAX
                && final(zone)@ == z,
            Step::Return(x) => r == StepOutcome::Return(x),
            Step::Fault(e) => r == StepOutcome::Fault(e),
        },
{
    let n = func.bytecode.len();
    let opcode = &func.bytecode[pc];
    assert(func@.bytecode[pc as int] == opcode@);
    match opcode {
        IROpcode::Ret(arg) => match operand(ir, zone, *arg) {
            Ok(v) => StepOutcome::Return(v),
            Err(e) => StepOutcome::Fault(e),
        },
        IROpcode::AutoSet(autovar, val) => match operand(ir, zone, *val) {
            Ok(v) => store(zone, *autovar, v, pc),
            Err(e) => StepOutcome::Fault(e),
        },
        IROpcode::Binop(autovar, op, arg1, arg2) => {
            let a1 = match operand(ir, zone, *arg1) {
                Ok(v) => v,
                Err(e) => {
                    return StepOutcome::Fault(e);
                },
            };
            let a2 = match operand(ir, zone, *arg2) {
                Ok(v) => v,
                Err(e) => {
                    return StepOutcome::Fault(e);
                },
            };
            match eval_binop(*op, a1, a2) {
                Ok(result) => store(zone, *autovar, result, pc),
                Err(e) => StepOutcome::Fault(e),
            }
        },
        // Labels are as of themselves a no-op
        IROpcode::Label(_idx) => StepOutcome::Next(pc + 1),
        IROpcode::Jump(idx) => jump(func, *idx),
        IROpcode::JumpNot(idx, arg1) => match operand(ir, zone, *arg1) {
            Ok(v) => if v == 0 {
                jump(func, *idx)
            } else {
                StepOutcome::Next(pc + 1)
            },
            Err(e) => StepOutcome::Fault(e),
        },
        IROpcode::Negate(idx, arg1) => match operand(ir, zone, *arg1) {
            Ok(a1) => {
                let x = to_signed(a1);
                if x == i64::MIN {
                    StepOutcome::Fault(ExecError::Overflow)
                } else {
                    store(zone, *idx, to_unsigned(-x), pc)
                }
            },
            Err(e) => StepOutcome::Fault(e),
        },
        IROpcode::UnaryNot(idx, arg1) => match operand(ir, zone, *arg1) {
            Ok(a1) => store(zone, *idx, bool_to_word(a1 == 0), pc),
            Err(e) => StepOutcome::Fault(e),
        },
        _ => StepOutcome::Fault(ExecError::UnsupportedOpcode),
    }
}

/// Runs `func` from its first instruction on `autozone`, for at most `fuel`
/// instructions.
pub fn execute(ir: &IRInfo, func: &IRFunction, autozone: Vec<u64>, fuel: u64) -> (r: Result<u64, ExecError>)
    ensures
        r == run(func@, autozone@, 0, fuel as nat),
{
    let ghost start = autozone@;
    let mut zone = autozone;
    let mut pc: usize = 0;
    let mut left: u64 = fuel;
    loop
        invariant
            start == autozone@,
            run(func@, start, 0, fuel as nat) == run(func@, zone@, pc as int, left as nat),
        decreases left,
    {
        if pc >= func.bytecode.len() {
            return Ok(0);
        }
        if left == 0 {
            return Err(ExecError::StepLimit);
        }
        match step_instruction(ir, func, &mut zone, pc) {
            StepOutcome::Next(p) => {
                pc = p;
                left = left - 1;
            },
            StepOutcome::Return(v) => {
                return Ok(v);
            },
            StepOutcome::Fault(e) => {
                return Err(e);
            },
        }
    }
}

/// The autozone of a call of `func` with `args`.
fn make_autozone(func: &IRFunction, args: &[u64]) -> (r: Result<Vec<u64>, ExecError>)
    ensures
        match initial_zone(func@, args@) {
            Ok(z) => r is Ok && r.unwrap()@ == z,
            Err(e) => r == Err::<Vec<u64>, ExecError>(e),
        },
{
    let mut autozone: Vec<u64> = Vec::new();
    let mut j: u64 = 0;
    while j < func.autovars
        invariant
            j <= func.autovars,
            func.params > args@.len() ==> j <= args@.len(),
            autozone@ == Seq::new(
                j as nat,
                |k: int| if k < func.params { args@[k] } else { 0 },
            ),
        decreases func.autovars - j,
    {
        let val: u64 = if j < func.params {
            if j >= args.len() as u64 {
                return Err(ExecError::MissingArgument);
            }
            args[j as usize]
        } else {
            0
        };
        autozone.push(val);
        j = j + 1;
        assert(autozone@ =~= Seq::new(
            j as nat,
            |k: int| if k < func.params { args@[k] } else { 0 },
        ));
    }
    Ok(autozone)
}

/// Calls the function named `name` with `args`: the first function whose
/// string-table name equals `name` as a C string is run, its first `params`
/// automatic variables holding the arguments and the others 0, until it
/// returns, runs past its last instruction (which returns 0), or faults.
pub fn call_function(ir: &IRInfo, name: &[u8], args: &[u64]) -> (r: Result<u64, ExecError>)
    ensures
        r == call_result(ir@, name@, args@),
{
    let n = ir.functions.len();
    let mut i: usize = 0;
    while i < n
        invariant
            n == ir.functions@.len(),
            i <= n,
            find_function(ir@, name@, 0) == find_function(ir@, name@, i as int),
        decreases n - i,
    {
        let func = &ir.functions[i];
        assert(ir@.functions[i as int] == func@);
        if func.name >= ir.string_table.len() as u64 {
            return Err(ExecError::BadStringIndex);
        }
        let s = get_string(ir, func.name);
        if cstr_eq(s.content.as_slice(), name) {
            // Initialise the autozone, then execute the bytecode
            let autozone = match make_autozone(func, args) {
                Ok(z) => z,
                Err(e) => {
                    return Err(e);
                },
            };
            return execute(ir, func, autozone, u64::MAX);
        }
        i = i + 1;
    }
    Err(ExecError::FunctionNotFound)
}

} // verus!
