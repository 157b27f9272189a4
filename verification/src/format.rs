//! The bytecode file format, stated as parsers over byte sequences.
//!
//! Each parser takes the file and an offset and gives `None` where the file
//! does not hold a well-formed item at that offset, else the item and the
//! offset just past it.
use vstd::prelude::*;
use crate::ir::{
    IRBinop, IROpArg, IRValue, StringModel, GlobalModel, OpcodeModel, FunctionModel,
};
use crate::reader::{word_at, in_bounds, string_model_at};

verus! {

/// `n` items, one after the other, each read by `p`.
pub open spec fn many<T>(
    p: spec_fn(Seq<u8>, int) -> Option<(T, int)>,
    s: Seq<u8>,
    off: int,
    n: nat,
) -> Option<(Seq<T>, int)>
    decreases n,
{
    if n == 0 {
        Some((Seq::empty(), off))
    } else {
        match many(p, s, off, (n - 1) as nat) {
            Some((xs, o)) => match p(s, o) {
                Some((x, o2)) => Some((xs.push(x), o2)),
                None => None,
            },
            None => None,
        }
    }
}

/// Once a run of items fails, every longer run fails.
pub proof fn lemma_many_fails_on<T>(
    p: spec_fn(Seq<u8>, int) -> Option<(T, int)>,
    s: Seq<u8>,
    off: int,
    k: nat,
    n: nat,
)
    requires
        k <= n,
        many(p, s, off, k) is None,
    ensures
        many(p, s, off, n) is None,
    decreases n,
{
    if k < n {
        lemma_many_fails_on(p, s, off, k, (n - 1) as nat);
    }
}

/// The operand with tag byte `tag` (one of 1 to 7) and payload `w`.
pub open spec fn arg_with_tag(tag: u8, w: u64) -> IROpArg {
    if tag == 1 {
        IROpArg::AutoVar(w)
    } else if tag == 2 {
        IROpArg::Deref(w)
    } else if tag == 3 {
        IROpArg::RefExternal(w)
    } else if tag == 4 {
        IROpArg::RefAutoVar(w)
    } else if tag == 5 {
        IROpArg::Literal(w)
    } else if tag == 6 {
        IROpArg::DataOffset(w)
    } else {
        IROpArg::External(w)
    }
}

/// An operand: tag 0 is `Bogus` with no payload; tags 1 to 7 carry a word.
pub open spec fn arg_at(s: Seq<u8>, off: int) -> Option<(IROpArg, int)> {
    if !in_bounds(s, off, 1) {
        None
    } else if s[off] == 0 {
        Some((IROpArg::Bogus, off + 1))
    } else if s[off] <= 7 && in_bounds(s, off + 1, 8) {
        Some((arg_with_tag(s[off], word_at(s, off + 1)), off + 9))
    } else {
        None
    }
}

/// The callee of a call: tag 0 and a word names an external function,
/// tag 1 is followed by an operand.
pub open spec fn funcarg_at(s: Seq<u8>, off: int) -> Option<(IROpArg, int)> {
    if !in_bounds(s, off, 1) {
        None
    } else if s[off] == 0 {
        if in_bounds(s, off + 1, 8) {
            Some((IROpArg::External(word_at(s, off + 1)), off + 9))
        } else {
            None
        }
    } else if s[off] == 1 {
        arg_at(s, off + 1)
    } else {
        None
    }
}

pub open spec fn arg_parser() -> spec_fn(Seq<u8>, int) -> Option<(IROpArg, int)> {
    |s: Seq<u8>, o: int| arg_at(s, o)
}

/// The operator with index `idx`.
pub open spec fn binop_of(idx: u8) -> Option<IRBinop> {
    if idx == 0x00 {
        Some(IRBinop::Plus)
    } else if idx == 0x01 {
        Some(IRBinop::Minus)
    } else if idx == 0x02 {
        Some(IRBinop::Mod)
    } else if idx == 0x03 {
        Some(IRBinop::Div)
    } else if idx == 0x04 {
        Some(IRBinop::Mult)
    } else if idx == 0x05 {
        Some(IRBinop::Less)
    } else if idx == 0x06 {
        Some(IRBinop::Greater)
    } else if idx == 0x07 {
        Some(IRBinop::Equal)
    } else if idx == 0x08 {
        Some(IRBinop::NotEqual)
    } else if idx == 0x09 {
        Some(IRBinop::GreaterEqual)
    } else if idx == 0x0A {
        Some(IRBinop::LessEqual)
    } else if idx == 0x0B {
        Some(IRBinop::BitOr)
    } else if idx == 0x0C {
        Some(IRBinop::BitAnd)
    } else if idx == 0x0D {
        Some(IRBinop::BitShl)
    } else if idx == 0x0E {
        Some(IRBinop::BitShr)
    } else {
        None
    }
}

/// A word followed by an operand.
pub open spec fn word_arg_at(s: Seq<u8>, off: int) -> Option<(u64, IROpArg, int)> {
    if in_bounds(s, off, 8) {
        match arg_at(s, off + 8) {
            Some((a, o)) => Some((word_at(s, off), a, o)),
            None => None,
        }
    } else {
        None
    }
}

/// The body of an instruction with opcode byte `tag`, starting at `p`.
pub open spec fn instr_body_at(s: Seq<u8>, tag: u8, p: int) -> Option<(OpcodeModel, int)> {
    if tag == 0x01 {
        match arg_at(s, p) {
            Some((a, o)) => Some((OpcodeModel::Ret(a), o)),
            None => None,
        }
    } else if tag == 0x02 || tag == 0x03 || tag == 0x04 || tag == 0x05 || tag == 0x06 {
        match word_arg_at(s, p) {
            Some((w, a, o)) => Some(
                (
                    if tag == 0x02 {
                        OpcodeModel::Store(w, a)
                    } else if tag == 0x03 {
                        OpcodeModel::ExtrnSet(IROpArg::External(w), a)
                    } else if tag == 0x04 {
                        OpcodeModel::AutoSet(w, a)
                    } else if tag == 0x05 {
                        OpcodeModel::Negate(w, a)
                    } else {
                        OpcodeModel::UnaryNot(w, a)
                    },
                    o,
                ),
            ),
            None => None,
        }
    } else if tag == 0x07 {
        if in_bounds(s, p, 9) {
            match arg_at(s, p + 9) {
                Some((a1, o1)) => match arg_at(s, o1) {
                    Some((a2, o2)) => match binop_of(s[p + 8]) {
                        Some(op) => Some((OpcodeModel::Binop(word_at(s, p), op, a1, a2), o2)),
                        None => None,
                    },
                    None => None,
                },
                None => None,
            }
        } else {
            None
        }
    } else if tag == 0x0C {
        if in_bounds(s, p, 8) {
            match funcarg_at(s, p + 8) {
                Some((f, o1)) => if in_bounds(s, o1, 8) {
                    match many(arg_parser(), s, o1 + 8, word_at(s, o1) as nat) {
                        Some((args, o2)) => Some(
                            (OpcodeModel::Funcall(IROpArg::AutoVar(word_at(s, p)), f, args), o2),
                        ),
                        None => None,
                    }
                } else {
                    None
                },
                None => None,
            }
        } else {
            None
        }
    } else if tag == 0x09 || tag == 0x0A {
        if in_bounds(s, p, 8) {
            Some(
                (
                    if tag == 0x09 {
                        OpcodeModel::Label(word_at(s, p))
                    } else {
                        OpcodeModel::Jump(word_at(s, p))
                    },
                    p + 8,
                ),
            )
        } else {
            None
        }
    } else if tag == 0x0B {
        match word_arg_at(s, p) {
            Some((w, a, o)) => Some((OpcodeModel::JumpNot(w, a), o)),
            None => None,
        }
    } else {
        None
    }
}

/// An instruction: a line number and a line offset (both words, not kept),
/// the opcode byte, then the operands of that opcode.
pub open spec fn instr_at(s: Seq<u8>, off: int) -> Option<(OpcodeModel, int)> {
    if in_bounds(s, off, 17) {
        instr_body_at(s, s[off + 16], off + 17)
    } else {
        None
    }
}

pub open spec fn instr_parser() -> spec_fn(Seq<u8>, int) -> Option<(OpcodeModel, int)> {
    |s: Seq<u8>, o: int| instr_at(s, o)
}

/// For each `Label` instruction of `ops`, in order, its position in `ops`.
pub open spec fn label_positions(ops: Seq<OpcodeModel>) -> Seq<usize>
    decreases ops.len(),
{
    if ops.len() == 0 {
        Seq::empty()
    } else {
        let rest = label_positions(ops.drop_last());
        if ops.last() is Label {
            rest.push((ops.len() - 1) as usize)
        } else {
            rest
        }
    }
}

/// A function: five words (name, file, params, autovars, bodysize), then
/// `bodysize` instructions.
pub open spec fn function_at(s: Seq<u8>, off: int) -> Option<(FunctionModel, int)> {
    if in_bounds(s, off, 40) {
        match many(instr_parser(), s, off + 40, word_at(s, off + 32) as nat) {
            Some((ops, o)) => Some(
                (
                    FunctionModel {
                        name: word_at(s, off),
                        file: word_at(s, off + 8),
                        params: word_at(s, off + 16),
                        autovars: word_at(s, off + 24),
                        bodysize: word_at(s, off + 32),
                        bytecode: ops,
                        labels: label_positions(ops),
                    },
                    o,
                ),
            ),
            None => None,
        }
    } else {
        None
    }
}

pub open spec fn function_parser() -> spec_fn(Seq<u8>, int) -> Option<(FunctionModel, int)> {
    |s: Seq<u8>, o: int| function_at(s, o)
}

/// An initial value of a global: kind byte 0 is a name, 1 and 2 are read
/// as literals; a word follows.
pub open spec fn value_at(s: Seq<u8>, off: int) -> Option<(IRValue, int)> {
    if in_bounds(s, off, 9) && s[off] <= 2 {
        let w = word_at(s, off + 1);
        Some((if s[off] == 0 { IRValue::Name(w) } else { IRValue::Literal(w) }, off + 9))
    } else {
        None
    }
}

pub open spec fn value_parser() -> spec_fn(Seq<u8>, int) -> Option<(IRValue, int)> {
    |s: Seq<u8>, o: int| value_at(s, o)
}

/// A global: its name index and value count (words), the values, an
/// `is_vec` byte (nonzero is true) and the minimum size (a word).
pub open spec fn global_at(s: Seq<u8>, off: int) -> Option<(GlobalModel, int)> {
    if in_bounds(s, off, 16) {
        match many(value_parser(), s, off + 16, word_at(s, off + 8) as nat) {
            Some((vals, o)) => if in_bounds(s, o, 9) {
                Some(
                    (
                        GlobalModel {
                            name: word_at(s, off),
                            values: vals,
                            is_vec: s[o] != 0,
                            min_size: word_at(s, o + 1),
                        },
                        o + 9,
                    ),
                )
            } else {
                None
            },
            None => None,
        }
    } else {
        None
    }
}

pub open spec fn global_parser() -> spec_fn(Seq<u8>, int) -> Option<(GlobalModel, int)> {
    |s: Seq<u8>, o: int| global_at(s, o)
}

/// A string-table entry.
pub open spec fn string_at(s: Seq<u8>, off: int) -> Option<(StringModel, int)> {
    if in_bounds(s, off, 8) && in_bounds(s, off + 8, word_at(s, off) as int) {
        Some((string_model_at(s, off), off + 8 + word_at(s, off)))
    } else {
        None
    }
}

pub open spec fn string_parser() -> spec_fn(Seq<u8>, int) -> Option<(StringModel, int)> {
    |s: Seq<u8>, o: int| string_at(s, o)
}

/// A section that starts with a count word and holds that many items.
pub open spec fn section_at<T>(
    p: spec_fn(Seq<u8>, int) -> Option<(T, int)>,
    s: Seq<u8>,
    off: int,
) -> Option<(u64, Seq<T>)> {
    if in_bounds(s, off, 8) {
        match many(p, s, off + 8, word_at(s, off) as nat) {
            Some((xs, _)) => Some((word_at(s, off), xs)),
            None => None,
        }
    } else {
        None
    }
}

/// The extern section: a count, then that many words.
pub open spec fn externs_at(s: Seq<u8>, off: int) -> Option<(u64, Seq<u64>)> {
    if in_bounds(s, off, 8) && in_bounds(s, off + 8, 8 * word_at(s, off)) {
        let n = word_at(s, off);
        Some((n, Seq::new(n as nat, |i: int| word_at(s, off + 8 + 8 * i))))
    } else {
        None
    }
}

/// The data section: a count, then that many bytes.
pub open spec fn data_at(s: Seq<u8>, off: int) -> Option<(u64, Seq<u8>)> {
    if in_bounds(s, off, 8) && in_bounds(s, off + 8, word_at(s, off) as int) {
        let n = word_at(s, off);
        Some((n, s.subrange(off + 8, off + 8 + n)))
    } else {
        None
    }
}

} // verus!
