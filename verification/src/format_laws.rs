//! Where each field of the file lives: byte positions and encodings of
//! words, operands, instructions, functions, globals and strings.
use vstd::prelude::*;
use crate::ir::{IRBinop, IROpArg, IRValue, OpcodeModel};
use crate::reader::{le_value, word_at, in_bounds, lemma_word_fits};
use crate::format::{
    many, arg_at, funcarg_at, arg_parser, binop_of, instr_at, function_at, value_at, global_at,
    string_at, externs_at, data_at,
};

verus! {

/// The tag byte that introduces an operand of this kind.
pub open spec fn arg_tag(a: IROpArg) -> u8 {
    match a {
        IROpArg::Bogus => 0,
        IROpArg::AutoVar(_) => 1,
        IROpArg::Deref(_) => 2,
        IROpArg::RefExternal(_) => 3,
        IROpArg::RefAutoVar(_) => 4,
        IROpArg::Literal(_) => 5,
        IROpArg::DataOffset(_) => 6,
        IROpArg::External(_) => 7,
    }
}

/// The word an operand carries (0 for `Bogus`).
pub open spec fn arg_payload(a: IROpArg) -> u64 {
    match a {
        IROpArg::Bogus => 0,
        IROpArg::AutoVar(w) => w,
        IROpArg::Deref(w) => w,
        IROpArg::RefExternal(w) => w,
        IROpArg::RefAutoVar(w) => w,
        IROpArg::Literal(w) => w,
        IROpArg::DataOffset(w) => w,
        IROpArg::External(w) => w,
    }
}

/// The opcode byte of an instruction kind.
pub open spec fn opcode_tag(op: OpcodeModel) -> u8 {
    match op {
        OpcodeModel::Bogus => 0,
        OpcodeModel::Ret(_) => 0x01,
        OpcodeModel::Store(_, _) => 0x02,
        OpcodeModel::ExtrnSet(_, _) => 0x03,
        OpcodeModel::AutoSet(_, _) => 0x04,
        OpcodeModel::Negate(_, _) => 0x05,
        OpcodeModel::UnaryNot(_, _) => 0x06,
        OpcodeModel::Binop(_, _, _, _) => 0x07,
        OpcodeModel::Label(_) => 0x09,
        OpcodeModel::Jump(_) => 0x0A,
        OpcodeModel::JumpNot(_, _) => 0x0B,
        OpcodeModel::Funcall(_, _, _) => 0x0C,
    }
}

/// A word is stored least significant byte first.
pub proof fn lemma_word_bytes(s: Seq<u8>, off: int)
    requires
        in_bounds(s, off, 8),
    ensures
        word_at(s, off) as int == s[off] + 0x100 * s[off + 1] + 0x1_0000 * s[off + 2] + 0x100_0000
            * s[off + 3] + 0x1_0000_0000 * s[off + 4] + 0x100_0000_0000 * s[off + 5]
            + 0x1_0000_0000_0000 * s[off + 6] + 0x100_0000_0000_0000 * s[off + 7],
{
    lemma_word_fits(s, off);
    let w = s.subrange(off, off + 8);
    let w1 = w.drop_first();
    let w2 = w1.drop_first();
    let w3 = w2.drop_first();
    let w4 = w3.drop_first();
    let w5 = w4.drop_first();
    let w6 = w5.drop_first();
    let w7 = w6.drop_first();
    let w8 = w7.drop_first();
    assert(w8.len() == 0);
    assert(le_value(w8) == 0);
    assert(le_value(w7) == s[off + 7]);
    assert(le_value(w6) == s[off + 6] + 256 * le_value(w7));
    assert(le_value(w5) == s[off + 5] + 256 * le_value(w6));
    assert(le_value(w4) == s[off + 4] + 256 * le_value(w5));
    assert(le_value(w3) == s[off + 3] + 256 * le_value(w4));
    assert(le_value(w2) == s[off + 2] + 256 * le_value(w3));
    assert(le_value(w1) == s[off + 1] + 256 * le_value(w2));
    assert(le_value(w) == s[off] + 256 * le_value(w1));
}

/// An operand is a tag byte; tag 0 is `Bogus` and stands alone, tags 1 to
/// 7 are followed by the operand's word. Other tags, and operands cut off
/// by the end of the file, are not operands.
pub proof fn lemma_operand_layout(s: Seq<u8>, o: int)
    ensures
        arg_at(s, o) is Some <==> in_bounds(s, o, 1) && (s[o] == 0 || (s[o] <= 7 && in_bounds(
            s,
            o + 1,
            8,
        ))),
        arg_at(s, o) matches Some((a, e)) ==> {
            &&& arg_tag(a) == s[o]
            &&& s[o] == 0 ==> e == o + 1
            &&& s[o] != 0 ==> e == o + 9 && arg_payload(a) == word_at(s, o + 1)
        },
{
}

/// A call target is tag 0 and the word naming an external function, or
/// tag 1 and an operand.
pub proof fn lemma_call_target_layout(s: Seq<u8>, o: int)
    ensures
        funcarg_at(s, o) matches Some((a, e)) ==> in_bounds(s, o, 1) && (s[o] == 0 || s[o] == 1),
        in_bounds(s, o, 9) && s[o] == 0 ==> funcarg_at(s, o) == Some(
            (IROpArg::External(word_at(s, o + 1)), o + 9),
        ),
        in_bounds(s, o, 1) && s[o] == 1 ==> funcarg_at(s, o) == arg_at(s, o + 1),
{
}

/// The operator indices of the file, in order.
pub proof fn lemma_operator_indices()
    ensures
        binop_of(0) == Some(IRBinop::Plus) && binop_of(1) == Some(IRBinop::Minus) && binop_of(2)
            == Some(IRBinop::Mod) && binop_of(3) == Some(IRBinop::Div) && binop_of(4) == Some(
            IRBinop::Mult,
        ) && binop_of(5) == Some(IRBinop::Less) && binop_of(6) == Some(IRBinop::Greater)
            && binop_of(7) == Some(IRBinop::Equal) && binop_of(8) == Some(IRBinop::NotEqual)
            && binop_of(9) == Some(IRBinop::GreaterEqual) && binop_of(10) == Some(
            IRBinop::LessEqual,
        ) && binop_of(11) == Some(IRBinop::BitOr) && binop_of(12) == Some(IRBinop::BitAnd)
            && binop_of(13) == Some(IRBinop::BitShl) && binop_of(14) == Some(IRBinop::BitShr),
        forall|i: u8| i > 14 ==> binop_of(i) is None,
{
}

/// An instruction: two words (line number and line offset) that are not
/// kept, the opcode byte at offset 16, then its operands from offset 17.
pub proof fn lemma_instruction_layout(s: Seq<u8>, o: int)
    ensures
        instr_at(s, o) matches Some((op, e)) ==> {
            &&& in_bounds(s, o, 17)
            &&& s[o + 16] == opcode_tag(op)
            &&& op matches OpcodeModel::Ret(a) ==> arg_at(s, o + 17) == Some((a, e))
            &&& op matches OpcodeModel::Label(w) ==> w == word_at(s, o + 17) && e == o + 25
            &&& op matches OpcodeModel::Jump(w) ==> w == word_at(s, o + 17) && e == o + 25
            &&& op matches OpcodeModel::Store(w, a) ==> w == word_at(s, o + 17) && arg_at(s, o + 25)
                == Some((a, e))
            &&& op matches OpcodeModel::ExtrnSet(x, a) ==> x == IROpArg::External(word_at(s, o + 17))
                && arg_at(s, o + 25) == Some((a, e))
            &&& op matches OpcodeModel::AutoSet(w, a) ==> w == word_at(s, o + 17) && arg_at(
                s,
                o + 25,
            ) == Some((a, e))
            &&& op matches OpcodeModel::Negate(w, a) ==> w == word_at(s, o + 17) && arg_at(s, o + 25)
                == Some((a, e))
            &&& op matches OpcodeModel::UnaryNot(w, a) ==> w == word_at(s, o + 17) && arg_at(
                s,
                o + 25,
            ) == Some((a, e))
            &&& op matches OpcodeModel::JumpNot(w, a) ==> w == word_at(s, o + 17) && arg_at(
                s,
                o + 25,
            ) == Some((a, e))
            &&& op matches OpcodeModel::Binop(w, bop, a1, a2) ==> {
                &&& w == word_at(s, o + 17)
                &&& binop_of(s[o + 25]) == Some(bop)
                &&& arg_at(s, o + 26) matches Some((x1, m)) && x1 == a1 && arg_at(s, m) == Some(
                    (a2, e),
                )
            }
            &&& op matches OpcodeModel::Funcall(to, f, args) ==> {
                &&& to == IROpArg::AutoVar(word_at(s, o + 17))
                &&& funcarg_at(s, o + 25) matches Some((g, m)) && g == f && in_bounds(s, m, 8)
                    && args.len() == word_at(s, m) && many(
                    arg_parser(),
                    s,
                    m + 8,
                    word_at(s, m) as nat,
                ) == Some((args, e))
            }
        },
{
    if let Some((op, e)) = instr_at(s, o) {
        if let OpcodeModel::Funcall(to, f, args) = op {
            let (g, m) = funcarg_at(s, o + 25).unwrap();
            crate::laws::lemma_many_len(arg_parser(), s, m + 8, word_at(s, m) as nat);
        }
    }
}

/// A function record: the words name, file, params, autovars and bodysize
/// at offsets 0, 8, 16, 24 and 32, then `bodysize` instructions.
pub proof fn lemma_function_layout(s: Seq<u8>, o: int)
    ensures
        function_at(s, o) matches Some((f, e)) ==> {
            &&& in_bounds(s, o, 40)
            &&& f.name == word_at(s, o)
            &&& f.file == word_at(s, o + 8)
            &&& f.params == word_at(s, o + 16)
            &&& f.autovars == word_at(s, o + 24)
            &&& f.bodysize == word_at(s, o + 32)
            &&& f.bytecode.len() == f.bodysize
            &&& f.bytecode.len() > 0 ==> (instr_at(s, o + 40) matches Some((first, _)) && first
                == f.bytecode[0])
        },
{
    if let Some((f, e)) = function_at(s, o) {
        crate::laws::lemma_many_len(crate::format::instr_parser(), s, o + 40, f.bodysize as nat);
        if f.bodysize > 0 {
            lemma_many_first(crate::format::instr_parser(), s, o + 40, f.bodysize as nat);
        }
    }
}

/// The first item of a non-empty run is the item at the start.
pub proof fn lemma_many_first<T>(p: spec_fn(Seq<u8>, int) -> Option<(T, int)>, s: Seq<u8>, off: int, n: nat)
    requires
        n > 0,
    ensures
        many(p, s, off, n) matches Some((xs, _)) ==> (p(s, off) matches Some((x, _)) && x == xs[0]),
    decreases n,
{
    if n > 1 {
        lemma_many_first(p, s, off, (n - 1) as nat);
        crate::laws::lemma_many_len(p, s, off, (n - 1) as nat);
        if let Some((prev, o)) = many(p, s, off, (n - 1) as nat) {
            if let Some((y, o2)) = p(s, o) {
                assert(prev.push(y)[0] == prev[0]);
            }
        }
    } else {
        assert(many(p, s, off, 0) == Some((Seq::<T>::empty(), off)));
        if let Some((y, o2)) = p(s, off) {
            assert(Seq::<T>::empty().push(y)[0] == y);
        }
    }
}

/// A global value: kind byte 0 is a name, kinds 1 and 2 are literals, and
/// the value's word follows.
pub proof fn lemma_value_layout(s: Seq<u8>, o: int)
    ensures
        value_at(s, o) is Some <==> in_bounds(s, o, 9) && s[o] <= 2,
        value_at(s, o) matches Some((v, e)) ==> e == o + 9 && (s[o] == 0 ==> v == IRValue::Name(
            word_at(s, o + 1),
        )) && (s[o] != 0 ==> v == IRValue::Literal(word_at(s, o + 1))),
{
}

/// A global: name index and value count words, the values, the `is_vec`
/// byte, the minimum-size word.
pub proof fn lemma_global_layout(s: Seq<u8>, o: int)
    ensures
        global_at(s, o) matches Some((g, e)) ==> {
            &&& in_bounds(s, o, 16)
            &&& g.name == word_at(s, o)
            &&& g.values.len() == word_at(s, o + 8)
            &&& in_bounds(s, e - 9, 9)
            &&& g.is_vec == (s[e - 9] != 0)
            &&& g.min_size == word_at(s, e - 8)
        },
{
    if let Some((g, e)) = global_at(s, o) {
        crate::laws::lemma_many_len(crate::format::value_parser(), s, o + 16, word_at(s, o + 8) as nat);
    }
}

/// A string: its length word, then that many bytes, which the model keeps
/// with a zero byte added.
pub proof fn lemma_string_layout(s: Seq<u8>, o: int)
    ensures
        string_at(s, o) matches Some((t, e)) ==> {
            &&& t.length == word_at(s, o)
            &&& e == o + 8 + t.length
            &&& t.content.len() == t.length + 1
            &&& forall|k: int| 0 <= k < t.length ==> t.content[k] == s[o + 8 + k]
            &&& t.content[t.length as int] == 0
        },
{
}

/// The extern section is a count word and that many words; the data section
/// a count word and that many bytes.
pub proof fn lemma_extern_and_data_layout(s: Seq<u8>, o: int)
    ensures
        externs_at(s, o) matches Some((n, xs)) ==> {
            &&& n == word_at(s, o)
            &&& xs.len() == n
            &&& forall|i: int| 0 <= i < n ==> xs[i] == word_at(s, o + 8 + 8 * i)
        },
        data_at(s, o) matches Some((n, xs)) ==> {
            &&& n == word_at(s, o)
            &&& xs.len() == n
            &&& forall|i: int| 0 <= i < n ==> xs[i] == s[o + 8 + i]
        },
{
}

} // verus!
