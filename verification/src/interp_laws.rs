//! What each operator and instruction computes, stated in terms of the
//! words it reads and writes, and how a call sets up its automatic
//! variables.
use vstd::prelude::*;
use vstd::arithmetic::div_mod::lemma_fundamental_div_mod;
use vstd::arithmetic::power2::pow2;
use vstd::bits::{lemma_u64_shr_is_div, lemma_u64_shl_is_mul};
use crate::ir::{IRBinop, IROpArg, OpcodeModel, FunctionModel, InfoModel};
use crate::interp::{
    ExecError, Step, step, run, signed, unsigned, binop_result, negate_result, arg_value,
    initial_zone, find_function, call_result, cstr, trunc_div, trunc_rem,
};

verus! {

/// Words with the top bit set are the negative ones.
pub open spec fn is_negative(a: u64) -> bool {
    a >= 0x8000_0000_0000_0000
}

/// The two's-complement reading is a bijection between words and the `i64`
/// range: reading back a written value gives it, and the reading of a word
/// is its value less 2^64 exactly when its top bit is set.
pub proof fn lemma_signed_unsigned(x: int, a: u64)
    requires
        i64::MIN <= x <= i64::MAX,
    ensures
        signed(unsigned(x)) == x,
        unsigned(signed(a)) == a,
        i64::MIN <= signed(a) <= i64::MAX,
        is_negative(a) <==> signed(a) < 0,
        is_negative(a) ==> signed(a) == a - 0x1_0000_0000_0000_0000,
        !is_negative(a) ==> signed(a) == a,
{
}

/// `Plus` and `Minus` are unsigned: they give the exact sum or difference,
/// and `Overflow` exactly when it does not fit in a word.
pub proof fn lemma_plus_minus(a: u64, b: u64)
    ensures
        binop_result(IRBinop::Plus, a, b) matches Ok(r) ==> r == a + b,
        binop_result(IRBinop::Plus, a, b) is Err <==> a + b > u64::MAX,
        binop_result(IRBinop::Plus, a, b) is Err ==> binop_result(IRBinop::Plus, a, b)
            == Err::<u64, ExecError>(ExecError::Overflow),
        binop_result(IRBinop::Minus, a, b) matches Ok(r) ==> r + b == a,
        binop_result(IRBinop::Minus, a, b) is Err <==> a < b,
        binop_result(IRBinop::Minus, a, b) is Err ==> binop_result(IRBinop::Minus, a, b)
            == Err::<u64, ExecError>(ExecError::Overflow),
{
}

/// `Mult` is signed: the signed reading of the product is the product of
/// the signed readings, and `Overflow` comes exactly when that leaves the
/// `i64` range.
pub proof fn lemma_mult(a: u64, b: u64)
    ensures
        binop_result(IRBinop::Mult, a, b) matches Ok(r) ==> signed(r) == signed(a) * signed(b),
        binop_result(IRBinop::Mult, a, b) is Err <==> !(i64::MIN <= signed(a) * signed(b)
            <= i64::MAX),
{
    if i64::MIN <= signed(a) * signed(b) <= i64::MAX {
        lemma_signed_unsigned(signed(a) * signed(b), a);
    }
}

/// `Div` and `Mod` are signed and round toward zero: quotient times divisor
/// plus remainder is the dividend, the remainder is smaller than the divisor
/// and has the sign of the dividend. Division by zero and `i64::MIN / -1`
/// are refused.
pub proof fn lemma_div_mod(a: u64, b: u64)
    ensures
        signed(b) == 0 ==> binop_result(IRBinop::Div, a, b) == Err::<u64, ExecError>(
            ExecError::DivisionByZero,
        ) && binop_result(IRBinop::Mod, a, b) == Err::<u64, ExecError>(
            ExecError::DivisionByZero,
        ),
        signed(b) != 0 && signed(a) == i64::MIN && signed(b) == -1 ==> binop_result(
            IRBinop::Div,
            a,
            b,
        ) == Err::<u64, ExecError>(ExecError::Overflow) && binop_result(IRBinop::Mod, a, b)
            == Err::<u64, ExecError>(ExecError::Overflow),
        signed(b) != 0 && !(signed(a) == i64::MIN && signed(b) == -1) ==> {
            &&& binop_result(IRBinop::Div, a, b) is Ok
            &&& binop_result(IRBinop::Mod, a, b) is Ok
            &&& signed(binop_result(IRBinop::Div, a, b).unwrap()) * signed(b) + signed(
                binop_result(IRBinop::Mod, a, b).unwrap(),
            ) == signed(a)
            &&& abs(signed(binop_result(IRBinop::Mod, a, b).unwrap())) < abs(signed(b))
            &&& signed(binop_result(IRBinop::Mod, a, b).unwrap()) != 0 ==> (signed(
                binop_result(IRBinop::Mod, a, b).unwrap(),
            ) < 0) == (signed(a) < 0)
        },
{
    let x = signed(a);
    let y = signed(b);
    if y != 0 && !(x == i64::MIN && y == -1) {
        let n = if x >= 0 { x } else { -x };
        lemma_fundamental_div_mod(n, y);
        let q = n / y;
        let m = n % y;
        assert(0 <= m < abs(y));
        assert(-n <= q <= n) by (nonlinear_arith)
            requires
                n >= 0,
                y != 0,
                n == y * q + m,
                0 <= m < abs(y),
        ;
        assert(trunc_div(x, y) == if x >= 0 { q } else { -q });
        assert(trunc_rem(x, y) == if x >= 0 { m } else { -m });
        // the quotient fits: only -2^63 / -1 would not
        assert(i64::MIN <= trunc_div(x, y) <= i64::MAX) by (nonlinear_arith)
            requires
                n >= 0,
                n <= 0x8000_0000_0000_0000,
                y != 0,
                i64::MIN <= y <= i64::MAX,
                n == y * q + m,
                0 <= m < abs(y),
                -n <= q <= n,
                trunc_div(x, y) == if x >= 0 { q } else { -q },
                x >= 0 ==> n <= 0x7fff_ffff_ffff_ffff,
                x < 0 && y == -1 ==> n < 0x8000_0000_0000_0000,
        ;
        lemma_signed_unsigned(trunc_div(x, y), a);
        lemma_signed_unsigned(trunc_rem(x, y), a);
        assert(trunc_div(x, y) * y + trunc_rem(x, y) == x) by (nonlinear_arith)
            requires
                n == y * q + m,
                x >= 0 ==> n == x,
                x < 0 ==> n == -x,
                trunc_div(x, y) == if x >= 0 { q } else { -q },
                trunc_rem(x, y) == if x >= 0 { m } else { -m },
        ;
    }
}

pub open spec fn abs(x: int) -> int {
    if x < 0 {
        -x
    } else {
        x
    }
}

/// `BitShr` is division by a power of two; `BitShl` is multiplication by
/// one where the product fits; both refuse shift amounts of 64 or more.
pub proof fn lemma_shifts(a: u64, b: u64)
    ensures
        b >= 64 ==> binop_result(IRBinop::BitShl, a, b) == Err::<u64, ExecError>(
            ExecError::Overflow,
        ) && binop_result(IRBinop::BitShr, a, b) == Err::<u64, ExecError>(ExecError::Overflow),
        b < 64 ==> binop_result(IRBinop::BitShr, a, b) == Ok::<u64, ExecError>(
            (a as nat / pow2(b as nat)) as u64,
        ),
        b < 64 && a * pow2(b as nat) <= u64::MAX ==> binop_result(IRBinop::BitShl, a, b)
            == Ok::<u64, ExecError>((a * pow2(b as nat)) as u64),
{
    if b < 64 {
        lemma_u64_shr_is_div(a, b);
        if a * pow2(b as nat) <= u64::MAX {
            lemma_u64_shl_is_mul(a, b);
        }
    }
}

/// The orderings compare the signed readings: between two words of the same
/// sign they agree with the unsigned order, and every negative word is below
/// every non-negative one. `LessEqual` is the complement of `Greater`,
/// `GreaterEqual` of `Less`, and `Greater(a, b)` is `Less(b, a)`.
pub proof fn lemma_orderings(a: u64, b: u64)
    ensures
        is_negative(a) == is_negative(b) ==> {
            &&& binop_result(IRBinop::Less, a, b) == Ok::<u64, ExecError>(if a < b { 1 } else { 0 })
            &&& binop_result(IRBinop::LessEqual, a, b) == Ok::<u64, ExecError>(
                if a <= b { 1 } else { 0 },
            )
            &&& binop_result(IRBinop::Greater, a, b) == Ok::<u64, ExecError>(
                if a > b { 1 } else { 0 },
            )
            &&& binop_result(IRBinop::GreaterEqual, a, b) == Ok::<u64, ExecError>(
                if a >= b { 1 } else { 0 },
            )
        },
        is_negative(a) && !is_negative(b) ==> {
            &&& binop_result(IRBinop::Less, a, b) == Ok::<u64, ExecError>(1)
            &&& binop_result(IRBinop::LessEqual, a, b) == Ok::<u64, ExecError>(1)
            &&& binop_result(IRBinop::Greater, a, b) == Ok::<u64, ExecError>(0)
            &&& binop_result(IRBinop::GreaterEqual, a, b) == Ok::<u64, ExecError>(0)
        },
        !is_negative(a) && is_negative(b) ==> {
            &&& binop_result(IRBinop::Less, a, b) == Ok::<u64, ExecError>(0)
            &&& binop_result(IRBinop::LessEqual, a, b) == Ok::<u64, ExecError>(0)
            &&& binop_result(IRBinop::Greater, a, b) == Ok::<u64, ExecError>(1)
            &&& binop_result(IRBinop::GreaterEqual, a, b) == Ok::<u64, ExecError>(1)
        },
        binop_result(IRBinop::LessEqual, a, b)->Ok_0 == 1 - binop_result(
            IRBinop::Greater,
            a,
            b,
        )->Ok_0,
        binop_result(IRBinop::GreaterEqual, a, b)->Ok_0 == 1 - binop_result(
            IRBinop::Less,
            a,
            b,
        )->Ok_0,
        binop_result(IRBinop::Greater, a, b) == binop_result(IRBinop::Less, b, a),
{
}

/// `Equal` gives 1 exactly on equal words and `NotEqual` is its complement;
/// `BitOr` and `BitAnd` are the bitwise operations.
pub proof fn lemma_equality_and_bits(a: u64, b: u64)
    ensures
        binop_result(IRBinop::Equal, a, b) == Ok::<u64, ExecError>(if a == b { 1 } else { 0 }),
        binop_result(IRBinop::NotEqual, a, b)->Ok_0 == 1 - binop_result(
            IRBinop::Equal,
            a,
            b,
        )->Ok_0,
        binop_result(IRBinop::BitOr, a, b) == Ok::<u64, ExecError>(a | b),
        binop_result(IRBinop::BitAnd, a, b) == Ok::<u64, ExecError>(a & b),
{
}

/// Negation flips the sign of the signed reading (refusing `i64::MIN`), so
/// negating twice gives the word back.
pub proof fn lemma_negate(a: u64)
    ensures
        signed(a) == i64::MIN ==> negate_result(a) == Err::<u64, ExecError>(ExecError::Overflow),
        signed(a) != i64::MIN ==> negate_result(a) is Ok && signed(negate_result(a).unwrap())
            == -signed(a),
        signed(a) != i64::MIN ==> negate_result(negate_result(a).unwrap()) == Ok::<
            u64,
            ExecError,
        >(a),
{
    lemma_signed_unsigned(0, a);
    if signed(a) != i64::MIN {
        lemma_signed_unsigned(-signed(a), a);
        let r = negate_result(a).unwrap();
        lemma_signed_unsigned(-signed(r), r);
        lemma_signed_unsigned(0, a);
    }
}

/// The effect of one instruction whose operands have values: the autozone
/// keeps its length, only the destination changes, and it receives what the
/// instruction computes; `Ret` returns its operand's value; labels and jumps
/// move the program counter only.
pub proof fn lemma_step_effects(f: FunctionModel, zone: Seq<u64>, pc: int)
    requires
        0 <= pc < f.bytecode.len(),
    ensures
        f.bytecode[pc] matches OpcodeModel::Ret(a) ==> (arg_value(zone, a) matches Ok(v) ==> step(
            f,
            zone,
            pc,
        ) == Step::Return(v)),
        f.bytecode[pc] matches OpcodeModel::AutoSet(d, a) ==> (arg_value(zone, a) matches Ok(v)
            ==> d < zone.len() ==> step(f, zone, pc) == Step::Continue(
            zone.update(d as int, v),
            pc + 1,
        )),
        f.bytecode[pc] matches OpcodeModel::Negate(d, a) ==> (arg_value(zone, a) matches Ok(v)
            ==> d < zone.len() && signed(v) != i64::MIN ==> (step(f, zone, pc) matches Step::Continue(z, p) && p
            == pc + 1 && z.len() == zone.len() && signed(z[d as int]) == -signed(v) && forall|
            k: int,
        | 0 <= k < zone.len() && k != d ==> z[k] == zone[k])),
        f.bytecode[pc] matches OpcodeModel::UnaryNot(d, a) ==> (arg_value(zone, a) matches Ok(v)
            ==> d < zone.len() ==> step(f, zone, pc) == Step::Continue(
            zone.update(d as int, if v == 0 { 1 } else { 0 }),
            pc + 1,
        )),
        f.bytecode[pc] matches OpcodeModel::Binop(d, op, a1, a2) ==> (arg_value(zone, a1) matches Ok(
            v1,
        ) ==> arg_value(zone, a2) matches Ok(v2) ==> binop_result(op, v1, v2) matches Ok(r)
            ==> d < zone.len() ==> step(f, zone, pc) == Step::Continue(
            zone.update(d as int, r),
            pc + 1,
        )),
        f.bytecode[pc] matches OpcodeModel::JumpNot(_, a) ==> (arg_value(zone, a) matches Ok(v)
            ==> v != 0 ==> step(f, zone, pc) == Step::Continue(zone, pc + 1)),
        f.bytecode[pc] matches OpcodeModel::JumpNot(idx, a) ==> (arg_value(zone, a) matches Ok(v)
            ==> v == 0 ==> step(f, zone, pc) == step_to_label(f, zone, idx)),
        f.bytecode[pc] matches OpcodeModel::Jump(idx) ==> step(f, zone, pc) == step_to_label(
            f,
            zone,
            idx,
        ),
        f.bytecode[pc] is Store || f.bytecode[pc] is ExtrnSet || f.bytecode[pc] is Funcall
            || f.bytecode[pc] is Bogus ==> step(f, zone, pc) == Step::Fault(
            ExecError::UnsupportedOpcode,
        ),
{
    if let OpcodeModel::Negate(d, a) = f.bytecode[pc] {
        if let Ok(v) = arg_value(zone, a) {
            lemma_negate(v);
        }
    }
}

/// Where a jump to label `idx` goes: just after the instruction that the
/// label list names, or `BadLabel` for a label number past the list.
pub open spec fn step_to_label(f: FunctionModel, zone: Seq<u64>, idx: u64) -> Step {
    if idx >= f.labels.len() {
        Step::Fault(ExecError::BadLabel)
    } else if f.labels[idx as int] as int + 1 > usize::MAX {
        Step::Fault(ExecError::Overflow)
    } else {
        Step::Continue(zone, f.labels[idx as int] + 1)
    }
}

/// Running from past the last instruction returns 0; a `Ret` of a literal
/// returns it; with no budget left before the end, the run stops with
/// `StepLimit`; otherwise a run is one step and the run from where it leads.
pub proof fn lemma_run_shape(f: FunctionModel, zone: Seq<u64>, pc: int, n: nat)
    ensures
        pc >= f.bytecode.len() ==> run(f, zone, pc, n) == Ok::<u64, ExecError>(0),
        0 <= pc < f.bytecode.len() && n == 0 ==> run(f, zone, pc, n) == Err::<u64, ExecError>(
            ExecError::StepLimit,
        ),
        0 <= pc < f.bytecode.len() && n > 0 ==> (f.bytecode[pc] matches OpcodeModel::Ret(
            IROpArg::Literal(v),
        ) ==> run(f, zone, pc, n) == Ok::<u64, ExecError>(v)),
        0 <= pc < f.bytecode.len() && n > 0 ==> (step(f, zone, pc) matches Step::Continue(z, p)
            ==> run(f, zone, pc, n) == run(f, z, p, (n - 1) as nat)),
        0 <= pc < f.bytecode.len() && n > 0 ==> (step(f, zone, pc) matches Step::Fault(e) ==> run(
            f,
            zone,
            pc,
            n,
        ) == Err::<u64, ExecError>(e)),
{
}

/// Operand values: `Bogus` is 0, a literal is itself, an automatic variable
/// is its slot of the autozone (and refused outside it).
pub proof fn lemma_operand_values(zone: Seq<u64>, w: u64)
    ensures
        arg_value(zone, IROpArg::Bogus) == Ok::<u64, ExecError>(0),
        arg_value(zone, IROpArg::Literal(w)) == Ok::<u64, ExecError>(w),
        w < zone.len() ==> arg_value(zone, IROpArg::AutoVar(w)) == Ok::<u64, ExecError>(
            zone[w as int],
        ),
        w >= zone.len() ==> arg_value(zone, IROpArg::AutoVar(w)) == Err::<u64, ExecError>(
            ExecError::BadAutoVar,
        ),
{
}

/// The autozone of a call has one slot per automatic variable; slot `j`
/// holds argument `j` when `j` is a parameter, else 0. It is refused exactly
/// when some parameter slot has no argument.
pub proof fn lemma_initial_zone(f: FunctionModel, args: Seq<u64>)
    ensures
        initial_zone(f, args) is Err <==> args.len() < f.params && args.len() < f.autovars,
        initial_zone(f, args) is Err ==> initial_zone(f, args) == Err::<Seq<u64>, ExecError>(
            ExecError::MissingArgument,
        ),
        initial_zone(f, args) matches Ok(z) ==> {
            &&& z.len() == f.autovars
            &&& forall|j: int| 0 <= j < f.autovars && j < f.params ==> j < args.len() && z[j] == args[j]
            &&& forall|j: int| 0 <= j < f.autovars && j >= f.params ==> z[j] == 0
        },
{
}

/// The function a call runs is the first one whose name is the requested
/// one as a C string; every function before it has a valid name index and
/// another name.
pub proof fn lemma_find_function(m: InfoModel, name: Seq<u8>, i: int)
    requires
        0 <= i,
    ensures
        find_function(m, name, i) matches Ok(k) ==> {
            &&& i <= k < m.functions.len()
            &&& m.functions[k].name < m.string_table.len()
            &&& cstr(m.string_table[m.functions[k].name as int].content) == cstr(name)
            &&& forall|j: int| i <= j < k ==> m.functions[j].name < m.string_table.len() && cstr(
                m.string_table[#[trigger] m.functions[j].name as int].content,
            ) != cstr(name)
        },
        find_function(m, name, i) == Err::<int, ExecError>(ExecError::FunctionNotFound) ==> forall|
            j: int,
        | i <= j < m.functions.len() ==> m.functions[j].name < m.string_table.len() && cstr(
            m.string_table[#[trigger] m.functions[j].name as int].content,
        ) != cstr(name),
    decreases m.functions.len() - i,
{
    if i < m.functions.len() {
        lemma_find_function(m, name, i + 1);
    }
}

/// A C string is the prefix of the bytes before the first zero: it holds no
/// zero byte and is followed by a zero byte or the end.
pub proof fn lemma_cstr(s: Seq<u8>)
    ensures
        cstr(s).len() <= s.len(),
        cstr(s) == s.take(cstr(s).len() as int),
        forall|k: int| 0 <= k < cstr(s).len() ==> cstr(s)[k] != 0,
        cstr(s).len() < s.len() ==> s[cstr(s).len() as int] == 0,
    decreases s.len(),
{
    if s.len() > 0 && s[0] != 0 {
        let t = s.drop_first();
        lemma_cstr(t);
        assert(cstr(s) =~= seq![s[0]] + cstr(t));
        assert(cstr(s) =~= s.take(cstr(s).len() as int));
        assert forall|k: int| 0 <= k < cstr(s).len() implies cstr(s)[k] != 0 by {
            if k > 0 {
                assert(cstr(s)[k] == cstr(t)[k - 1]);
            }
        }
        if cstr(s).len() < s.len() {
            assert(s[cstr(s).len() as int] == t[cstr(t).len() as int]);
        }
    } else {
        assert(cstr(s) =~= s.take(0));
    }
}

/// A call runs the function that `find_function` names on its initial
/// autozone from instruction 0.
pub proof fn lemma_call(m: InfoModel, name: Seq<u8>, args: Seq<u64>)
    ensures
        find_function(m, name, 0) matches Ok(k) ==> initial_zone(m.functions[k], args) matches Ok(
            z,
        ) ==> call_result(m, name, args) == run(m.functions[k], z, 0, u64::MAX as nat),
        find_function(m, name, 0) matches Err(e) ==> call_result(m, name, args) == Err::<
            u64,
            ExecError,
        >(e),
{
}

} // verus!
