//! Loading a bytecode file into an `IRInfo`.
use vstd::prelude::*;
use crate::ir::{
    IRSections, ExternsModel, DataModel, InfoModel, IRBinop, IROpArg, IRValue, IRString,
    IRGlobal, IROpcode, IRFunction, IRInfo, opcodes_view, globals_view, functions_view,
    strings_view,
};
use crate::reader::{word_at, in_bounds, has_bytes, load8, load64, loadstr};
use crate::format::{
    many, lemma_many_fails_on, arg_at, funcarg_at, arg_parser, binop_of, word_arg_at, instr_at,
    instr_parser, label_positions, function_at, function_parser, value_at, value_parser,
    global_at, global_parser, string_at, string_parser, section_at, externs_at, data_at,
};

verus! {

/// The operator with index `idx`, if there is one.
pub fn binop_from_idx(idx: u8) -> (r: Option<IRBinop>)
    ensures
        r == binop_of(idx),
{
    match idx {
        0x00 => Some(IRBinop::Plus),
        0x01 => Some(IRBinop::Minus),
        0x02 => Some(IRBinop::Mod),
        0x03 => Some(IRBinop::Div),
        0x04 => Some(IRBinop::Mult),
        0x05 => Some(IRBinop::Less),
        0x06 => Some(IRBinop::Greater),
        0x07 => Some(IRBinop::Equal),
        0x08 => Some(IRBinop::NotEqual),
        0x09 => Some(IRBinop::GreaterEqual),
        0x0A => Some(IRBinop::LessEqual),
        0x0B => Some(IRBinop::BitOr),
        0x0C => Some(IRBinop::BitAnd),
        0x0D => Some(IRBinop::BitShl),
        0x0E => Some(IRBinop::BitShr),
        _ => None,
    }
}

/// Reads an operand at `*offset`. On success `*offset` moves past it; where
/// the bytes there are not an operand, gives `None` and leaves `*offset`.
pub fn parse_argument(source: &[u8], offset: &mut usize) -> (r: Option<IROpArg>)
    ensures
        match arg_at(source@, *old(offset) as int) {
            Some((a, o)) => r == Some(a) && *final(offset) as int == o,
            None => r is None && *final(offset) == *old(offset),
        },
{
    let off = *offset;
    if !has_bytes(source, off, 1) {
        return None;
    }
    let arg_byte: u8 = load8(source, off);
    if arg_byte == 0x00 {
        *offset = off + 1;
        return Some(IROpArg::Bogus);
    }
    if arg_byte > 0x07 || !has_bytes(source, off + 1, 8) {
        return None;
    }
    let word = load64(source, off + 1);
    *offset = off + 9;
    let arg = match arg_byte {
        0x01 => IROpArg::AutoVar(word),
        0x02 => IROpArg::Deref(word),
        0x03 => IROpArg::RefExternal(word),
        0x04 => IROpArg::RefAutoVar(word),
        0x05 => IROpArg::Literal(word),
        0x06 => IROpArg::DataOffset(word),
        _ => IROpArg::External(word),
    };
    Some(arg)
}

/// Reads the callee of a call at `*offset`, as `parse_argument` does.
pub fn parse_funcarg(source: &[u8], offset: &mut usize) -> (r: Option<IROpArg>)
    ensures
        match funcarg_at(source@, *old(offset) as int) {
            Some((a, o)) => r == Some(a) && *final(offset) as int == o,
            None => r is None && *final(offset) == *old(offset),
        },
{
    let off = *offset;
    if !has_bytes(source, off, 1) {
        return None;
    }
    let arg_byte: u8 = load8(source, off);
    if arg_byte == 0x00 {
        if !has_bytes(source, off + 1, 8) {
            return None;
        }
        let fname = load64(source, off + 1);
        *offset = off + 9;
        Some(IROpArg::External(fname))
    } else if arg_byte == 0x01 {
        let mut o = off + 1;
        let r = parse_argument(source, &mut o);
        if r.is_some() {
            *offset = o;
        }
        r
    } else {
        None
    }
}


/// Reads `n` operands one after the other.
fn parse_arguments(source: &[u8], offset: &mut usize, n: u64) -> (r: Option<Vec<IROpArg>>)
    ensures
        match many(arg_parser(), source@, *old(offset) as int, n as nat) {
            Some((xs, o)) => r is Some && r.unwrap()@ == xs && *final(offset) as int == o,
            None => r is None && *final(offset) == *old(offset),
        },
{
    let start = *offset;
    let mut off = start;
    let mut args: Vec<IROpArg> = Vec::new();
    let mut i: u64 = 0;
    while i < n
        invariant
            i <= n,
            *offset == start,
            start == *old(offset),
            many(arg_parser(), source@, start as int, i as nat) == Some((args@, off as int)),
        decreases n - i,
    {
        match parse_argument(source, &mut off) {
            Some(a) => {
                args.push(a);
                i = i + 1;
            },
            None => {
                proof {
                    assert(many(arg_parser(), source@, start as int, (i + 1) as nat) is None);
                    lemma_many_fails_on(arg_parser(), source@, start as int, (i + 1) as nat, n as nat);
                }
                return None;
            },
        }
    }
    *offset = off;
    Some(args)
}

/// Reads a word followed by an operand.
fn parse_word_argument(source: &[u8], offset: &mut usize) -> (r: Option<(u64, IROpArg)>)
    ensures
        match word_arg_at(source@, *old(offset) as int) {
            Some((w, a, o)) => r == Some((w, a)) && *final(offset) as int == o,
            None => r is None && *final(offset) == *old(offset),
        },
{
    let off = *offset;
    if !has_bytes(source, off, 8) {
        return None;
    }
    let w = load64(source, off);
    let mut o = off + 8;
    match parse_argument(source, &mut o) {
        Some(a) => {
            *offset = o;
            Some((w, a))
        },
        None => None,
    }
}

/// Reads one instruction: line number, line offset, opcode byte, operands.
fn parse_instruction(source: &[u8], offset: &mut usize) -> (r: Option<IROpcode>)
    ensures
        match instr_at(source@, *old(offset) as int) {
            Some((op, o)) => r is Some && r.unwrap()@ == op && *final(offset) as int == o,
            None => r is None && *final(offset) == *old(offset),
        },
{
    let start = *offset;
    if !has_bytes(source, start, 17) {
        return None;
    }
    let _line_number = load64(source, start);
    let _line_offset = load64(source, start + 8);
    let opcode_byte: u8 = load8(source, start + 16);
    let p = start + 17;
    let mut off = p;
    let opcode: IROpcode;
    match opcode_byte {
        0x01 => {
            match parse_argument(source, &mut off) {
                Some(arg) => {
                    opcode = IROpcode::Ret(arg);
                },
                None => {
                    return None;
                },
            }
        },
        0x02 | 0x03 | 0x04 | 0x05 | 0x06 => {
            match parse_word_argument(source, &mut off) {
                Some((w, arg)) => {
                    opcode = match opcode_byte {
                        0x02 => IROpcode::Store(w, arg),
                        0x03 => IROpcode::ExtrnSet(IROpArg::External(w), arg),
                        0x04 => IROpcode::AutoSet(w, arg),
                        0x05 => IROpcode::Negate(w, arg),
                        _ => IROpcode::UnaryNot(w, arg),
                    };
                },
                None => {
                    return None;
                },
            }
        },
        0x07 => {
            if !has_bytes(source, p, 9) {
                return None;
            }
            let to = load64(source, p);
            let binop8 = load8(source, p + 8);
            off = p + 9;
            let arg1 = match parse_argument(source, &mut off) {
                Some(a) => a,
                None => {
                    return None;
                },
            };
            let arg2 = match parse_argument(source, &mut off) {
                Some(a) => a,
                None => {
                    return None;
                },
            };
            let op = match binop_from_idx(binop8) {
                Some(op) => op,
                None => {
                    return None;
                },
            };
            opcode = IROpcode::Binop(to, op, arg1, arg2);
        },
        0x0C => {
            if !has_bytes(source, p, 8) {
                return None;
            }
            let to = load64(source, p);
            off = p + 8;
            let func = match parse_funcarg(source, &mut off) {
                Some(f) => f,
                None => {
                    return None;
                },
            };
            if !has_bytes(source, off, 8) {
                return None;
            }
            let argc = load64(source, off);
            off = off + 8;
            let args = match parse_arguments(source, &mut off, argc) {
                Some(args) => args,
                None => {
                    return None;
                },
            };
            opcode = IROpcode::Funcall(IROpArg::AutoVar(to), func, args);
        },
        0x09 | 0x0A => {
            if !has_bytes(source, p, 8) {
                return None;
            }
            let idx = load64(source, p);
            off = p + 8;
            opcode = if opcode_byte == 0x09 {
                IROpcode::Label(idx)
            } else {
                IROpcode::Jump(idx)
            };
        },
        0x0B => {
            match parse_word_argument(source, &mut off) {
                Some((idx, arg)) => {
                    opcode = IROpcode::JumpNot(idx, arg);
                },
                None => {
                    return None;
                },
            }
        },
        _ => {
            return None;
        },
    }
    *offset = off;
    Some(opcode)
}


/// Reads a function: its five header words, then `bodysize` instructions.
/// The position of each `Label` instruction is recorded in `labels`.
fn parse_function(source: &[u8], offset: &mut usize) -> (r: Option<IRFunction>)
    ensures
        match function_at(source@, *old(offset) as int) {
            Some((f, o)) => r is Some && r.unwrap()@ == f && *final(offset) as int == o,
            None => r is None && *final(offset) == *old(offset),
        },
{
    let start = *offset;
    if !has_bytes(source, start, 40) {
        return None;
    }
    let name = load64(source, start);
    let file = load64(source, start + 8);
    let params = load64(source, start + 16);
    let autovars = load64(source, start + 24);
    let bodysize = load64(source, start + 32);
    let body = start + 40;
    let mut off = body;
    let mut bytecode: Vec<IROpcode> = Vec::new();
    let mut labels: Vec<usize> = Vec::new();
    let mut i: u64 = 0;
    while i < bodysize
        invariant
            i <= bodysize,
            *offset == start,
            start == *old(offset),
            body == start + 40,
            bodysize == word_at(source@, start + 32),
            many(instr_parser(), source@, body as int, i as nat) == Some(
                (opcodes_view(bytecode@), off as int),
            ),
            labels@ == label_positions(opcodes_view(bytecode@)),
        decreases bodysize - i,
    {
        match parse_instruction(source, &mut off) {
            Some(opcode) => {
                let ghost old_ops = opcodes_view(bytecode@);
                match &opcode {
                    IROpcode::Label(_) => {
                        // Save our position into the label list
                        labels.push(bytecode.len());
                    },
                    _ => {},
                }
                bytecode.push(opcode);
                i = i + 1;
                proof {
                    let ops = opcodes_view(bytecode@);
                    assert(ops =~= old_ops.push(opcode@));
                    assert(ops.drop_last() =~= old_ops);
                }
            },
            None => {
                proof {
                    assert(many(instr_parser(), source@, body as int, (i + 1) as nat) is None);
                    lemma_many_fails_on(
                        instr_parser(),
                        source@,
                        body as int,
                        (i + 1) as nat,
                        bodysize as nat,
                    );
                }
                return None;
            },
        }
    }
    *offset = off;
    Some(IRFunction { name, file, params, autovars, bodysize, bytecode, labels })
}

/// Reads one initial value of a global.
fn parse_value(source: &[u8], offset: &mut usize) -> (r: Option<IRValue>)
    ensures
        match value_at(source@, *old(offset) as int) {
            Some((v, o)) => r == Some(v) && *final(offset) as int == o,
            None => r is None && *final(offset) == *old(offset),
        },
{
    let off = *offset;
    if !has_bytes(source, off, 9) {
        return None;
    }
    let kind: u8 = load8(source, off);
    let w = load64(source, off + 1);
    let value = if kind == 0x00 {
        IRValue::Name(w)
    } else if kind == 0x01 || kind == 0x02 {
        IRValue::Literal(w)
    } else {
        return None;
    };
    *offset = off + 9;
    Some(value)
}

/// Reads a global: name index, value count, the values, `is_vec`, min size.
fn parse_global(source: &[u8], offset: &mut usize) -> (r: Option<IRGlobal>)
    ensures
        match global_at(source@, *old(offset) as int) {
            Some((g, o)) => r is Some && r.unwrap()@ == g && *final(offset) as int == o,
            None => r is None && *final(offset) == *old(offset),
        },
{
    let start = *offset;
    if !has_bytes(source, start, 16) {
        return None;
    }
    let name_index = load64(source, start);
    let count: u64 = load64(source, start + 8);
    let first = start + 16;
    let mut off = first;
    let mut values: Vec<IRValue> = Vec::new();
    let mut i: u64 = 0;
    while i < count
        invariant
            i <= count,
            *offset == start,
            start == *old(offset),
            first == start + 16,
            count == word_at(source@, start + 8),
            many(value_parser(), source@, first as int, i as nat) == Some((values@, off as int)),
        decreases count - i,
    {
        match parse_value(source, &mut off) {
            Some(v) => {
                values.push(v);
                i = i + 1;
            },
            None => {
                proof {
                    assert(many(value_parser(), source@, first as int, (i + 1) as nat) is None);
                    lemma_many_fails_on(
                        value_parser(),
                        source@,
                        first as int,
                        (i + 1) as nat,
                        count as nat,
                    );
                }
                return None;
            },
        }
    }
    if !has_bytes(source, off, 9) {
        return None;
    }
    let is_vec: bool = load8(source, off) != 0;
    let min_size: u64 = load64(source, off + 1);
    *offset = off + 9;
    Some(IRGlobal { name: name_index, values, is_vec, min_size })
}

/// Reads one string-table entry.
fn parse_string(source: &[u8], offset: &mut usize) -> (r: Option<IRString>)
    ensures
        match string_at(source@, *old(offset) as int) {
            Some((t, o)) => r is Some && r.unwrap()@ == t && *final(offset) as int == o,
            None => r is None && *final(offset) == *old(offset),
        },
{
    let off = *offset;
    if !has_bytes(source, off, 8) {
        return None;
    }
    let length = load64(source, off);
    if length > (source.len() - (off + 8)) as u64 {
        return None;
    }
    let s = loadstr(source, off);
    *offset = off + 8 + length as usize;
    Some(s)
}

/// The offset `off` as a `usize`, where it lies inside the file.
fn section_start(source: &[u8], off: u64) -> (r: Option<usize>)
    ensures
        r is Some ==> r.unwrap() as int == off as int,
        r is None ==> !in_bounds(source@, off as int, 8),
{
    if off <= source.len() as u64 {
        Some(off as usize)
    } else {
        None
    }
}


/// Reads a section of strings: a count, then that many entries.
fn read_string_table(source: &[u8], section: u64) -> (r: Option<(u64, Vec<IRString>)>)
    ensures
        match section_at(string_parser(), source@, section as int) {
            Some((n, xs)) => r is Some && r.unwrap().0 == n && strings_view(r.unwrap().1@) == xs,
            None => r is None,
        },
{
    let start = match section_start(source, section) {
        Some(s) => s,
        None => {
            return None;
        },
    };
    if !has_bytes(source, start, 8) {
        return None;
    }
    let count = load64(source, start);
    let first = start + 8;
    let mut off = first;
    let mut items: Vec<IRString> = Vec::new();
    let mut i: u64 = 0;
    while i < count
        invariant
            i <= count,
            start == section,
            first == start + 8,
            count == word_at(source@, start as int),
            in_bounds(source@, start as int, 8),
            many(string_parser(), source@, first as int, i as nat) == Some(
                (strings_view(items@), off as int),
            ),
        decreases count - i,
    {
        match parse_string(source, &mut off) {
            Some(item) => {
                let ghost before = items@;
                items.push(item);
                i = i + 1;
                proof {
                    assert(strings_view(items@) =~= strings_view(before).push(item@));
                }
            },
            None => {
                proof {
                    assert(many(string_parser(), source@, first as int, (i + 1) as nat) is None);
                    lemma_many_fails_on(
                        string_parser(),
                        source@,
                        first as int,
                        (i + 1) as nat,
                        count as nat,
                    );
                }
                return None;
            },
        }
    }
    Some((count, items))
}

/// Reads a section of globals: a count, then that many entries.
fn read_globals(source: &[u8], section: u64) -> (r: Option<(u64, Vec<IRGlobal>)>)
    ensures
        match section_at(global_parser(), source@, section as int) {
            Some((n, xs)) => r is Some && r.unwrap().0 == n && globals_view(r.unwrap().1@) == xs,
            None => r is None,
        },
{
    let start = match section_start(source, section) {
        Some(s) => s,
        None => {
            return None;
        },
    };
    if !has_bytes(source, start, 8) {
        return None;
    }
    let count = load64(source, start);
    let first = start + 8;
    let mut off = first;
    let mut items: Vec<IRGlobal> = Vec::new();
    let mut i: u64 = 0;
    while i < count
        invariant
            i <= count,
            start == section,
            first == start + 8,
            count == word_at(source@, start as int),
            in_bounds(source@, start as int, 8),
            many(global_parser(), source@, first as int, i as nat) == Some(
                (globals_view(items@), off as int),
            ),
        decreases count - i,
    {
        match parse_global(source, &mut off) {
            Some(item) => {
                let ghost before = items@;
                items.push(item);
                i = i + 1;
                proof {
                    assert(globals_view(items@) =~= globals_view(before).push(item@));
                }
            },
            None => {
                proof {
                    assert(many(global_parser(), source@, first as int, (i + 1) as nat) is None);
                    lemma_many_fails_on(
                        global_parser(),
                        source@,
                        first as int,
                        (i + 1) as nat,
                        count as nat,
                    );
                }
                return None;
            },
        }
    }
    Some((count, items))
}

/// Reads a section of functions: a count, then that many entries.
fn read_functions(source: &[u8], section: u64) -> (r: Option<(u64, Vec<IRFunction>)>)
    ensures
        match section_at(function_parser(), source@, section as int) {
            Some((n, xs)) => r is Some && r.unwrap().0 == n && functions_view(r.unwrap().1@) == xs,
            None => r is None,
        },
{
    let start = match section_start(source, section) {
        Some(s) => s,
        None => {
            return None;
        },
    };
    if !has_bytes(source, start, 8) {
        return None;
    }
    let count = load64(source, start);
    let first = start + 8;
    let mut off = first;
    let mut items: Vec<IRFunction> = Vec::new();
    let mut i: u64 = 0;
    while i < count
        invariant
            i <= count,
            start == section,
            first == start + 8,
            count == word_at(source@, start as int),
            in_bounds(source@, start as int, 8),
            many(function_parser(), source@, first as int, i as nat) == Some(
                (functions_view(items@), off as int),
            ),
        decreases count - i,
    {
        match parse_function(source, &mut off) {
            Some(item) => {
                let ghost before = items@;
                items.push(item);
                i = i + 1;
                proof {
                    assert(functions_view(items@) =~= functions_view(before).push(item@));
                }
            },
            None => {
                proof {
                    assert(many(function_parser(), source@, first as int, (i + 1) as nat) is None);
                    lemma_many_fails_on(
                        function_parser(),
                        source@,
                        first as int,
                        (i + 1) as nat,
                        count as nat,
                    );
                }
                return None;
            },
        }
    }
    Some((count, items))
}

/// Reads the extern section: a count, then that many words.
fn read_externs(source: &[u8], section: u64) -> (r: Option<(u64, Vec<u64>)>)
    ensures
        match externs_at(source@, section as int) {
            Some((n, xs)) => r is Some && r.unwrap().0 == n && r.unwrap().1@ == xs,
            None => r is None,
        },
{
    let start = match section_start(source, section) {
        Some(s) => s,
        None => {
            return None;
        },
    };
    if !has_bytes(source, start, 8) {
        return None;
    }
    let externs = load64(source, start);
    let first = start + 8;
    if externs > ((source.len() - first) / 8) as u64 {
        return None;
    }
    let mut offset = first;
    let mut items: Vec<u64> = Vec::new();
    let mut i: u64 = 0;
    while i < externs
        invariant
            i <= externs,
            start == section,
            first == start + 8,
            externs == word_at(source@, start as int),
            in_bounds(source@, first as int, 8 * externs),
            source@.len() <= usize::MAX,
            offset == first + 8 * i,
            items@ == Seq::new(i as nat, |j: int| word_at(source@, first + 8 * j)),
        decreases externs - i,
    {
        let index = load64(source, offset);
        items.push(index);
        offset = offset + 8;
        i = i + 1;
        assert(items@ =~= Seq::new(i as nat, |j: int| word_at(source@, first + 8 * j)));
    }
    Some((externs, items))
}

/// Reads the data section: a count, then that many bytes.
fn read_data(source: &[u8], section: u64) -> (r: Option<(u64, Vec<u8>)>)
    ensures
        match data_at(source@, section as int) {
            Some((n, xs)) => r is Some && r.unwrap().0 == n && r.unwrap().1@ == xs,
            None => r is None,
        },
{
    let start = match section_start(source, section) {
        Some(s) => s,
        None => {
            return None;
        },
    };
    if !has_bytes(source, start, 8) {
        return None;
    }
    let count = load64(source, start);
    let first = start + 8;
    if count > (source.len() - first) as u64 {
        return None;
    }
    let mut bytes: Vec<u8> = Vec::new();
    let mut i: u64 = 0;
    while i < count
        invariant
            i <= count,
            start == section,
            first == start + 8,
            count == word_at(source@, start as int),
            in_bounds(source@, first as int, count as int),
            source@.len() <= usize::MAX,
            bytes@ == source@.subrange(first as int, first + i),
        decreases count - i,
    {
        bytes.push(source[first + i as usize]);
        i = i + 1;
        assert(bytes@ =~= source@.subrange(first as int, first + i));
    }
    Some((count, bytes))
}


/// Why a file could not be loaded.
#[derive(Clone, Copy, PartialEq, Eq, Structural, Debug)]
pub enum LoadError {
    /// The file does not start with the magic bytes `DE BC` and version 1.
    BadHeader,
    /// The file is too short, or a section does not hold what it should.
    Malformed,
}

/// The magic bytes and the format version that a file starts with.
pub const MAGIC0: u8 = 0xDE;
pub const MAGIC1: u8 = 0xBC;
pub const VERSION: u8 = 0x01;

/// `m` after its extern section was read: the externs are appended and the
/// count is set.
pub open spec fn after_externs(m: InfoModel) -> Option<InfoModel> {
    match externs_at(m.source, m.sections.extern_section as int) {
        Some((n, xs)) => Some(
            InfoModel {
                externs: ExternsModel { count: n, externs: m.externs.externs + xs },
                ..m
            },
        ),
        None => None,
    }
}

/// `m` after its data section was read: the bytes are appended and the
/// length is set.
pub open spec fn after_data(m: InfoModel) -> Option<InfoModel> {
    match data_at(m.source, m.sections.data_section as int) {
        Some((n, xs)) => Some(
            InfoModel { data: DataModel { length: n, data: m.data.data + xs }, ..m },
        ),
        None => None,
    }
}

/// `m` after its globals section was read: the globals are appended, and
/// the data length is set to their count.
pub open spec fn after_globals(m: InfoModel) -> Option<InfoModel> {
    match section_at(global_parser(), m.source, m.sections.globals_section as int) {
        Some((n, gs)) => Some(
            InfoModel {
                globals: m.globals + gs,
                data: DataModel { length: n, data: m.data.data },
                ..m
            },
        ),
        None => None,
    }
}

/// `m` after its function section was read: the functions are appended,
/// and the data length is set to their count.
pub open spec fn after_functions(m: InfoModel) -> Option<InfoModel> {
    match section_at(function_parser(), m.source, m.sections.functs_section as int) {
        Some((n, fs)) => Some(
            InfoModel {
                functions: m.functions + fs,
                data: DataModel { length: n, data: m.data.data },
                ..m
            },
        ),
        None => None,
    }
}

/// `m` after its string table was read: the strings are appended.
pub open spec fn after_string_table(m: InfoModel) -> Option<InfoModel> {
    match section_at(string_parser(), m.source, m.sections.string_table as int) {
        Some((_, ts)) => Some(InfoModel { string_table: m.string_table + ts, ..m }),
        None => None,
    }
}

/// The file starts with the magic bytes and the supported version.
pub open spec fn header_ok(s: Seq<u8>) -> bool {
    s.len() >= 3 && s[0] == MAGIC0 && s[1] == MAGIC1 && s[2] == VERSION
}

/// The section offsets stored in the last five words of the file.
pub open spec fn trailer_sections(s: Seq<u8>) -> IRSections {
    IRSections {
        string_table: word_at(s, s.len() - 8),
        functs_section: word_at(s, s.len() - 16),
        globals_section: word_at(s, s.len() - 24),
        data_section: word_at(s, s.len() - 32),
        extern_section: word_at(s, s.len() - 40),
    }
}

/// What loading the file `s` into `m` gives.
pub open spec fn load_result(m: InfoModel, s: Seq<u8>) -> Result<InfoModel, LoadError> {
    if s.len() < 3 {
        Err(LoadError::Malformed)
    } else if !header_ok(s) {
        Err(LoadError::BadHeader)
    } else if s.len() < 40 {
        Err(LoadError::Malformed)
    } else {
        let m0 = InfoModel { source: s, sections: trailer_sections(s), ..m };
        match after_string_table(m0) {
            Some(m1) => match after_externs(m1) {
                Some(m2) => match after_data(m2) {
                    Some(m3) => match after_globals(m3) {
                        Some(m4) => match after_functions(m4) {
                            Some(m5) => Ok(m5),
                            None => Err(LoadError::Malformed),
                        },
                        None => Err(LoadError::Malformed),
                    },
                    None => Err(LoadError::Malformed),
                },
                None => Err(LoadError::Malformed),
            },
            None => Err(LoadError::Malformed),
        }
    }
}

fn commit_externs(ir: &mut IRInfo, n: u64, xs: Vec<u64>)
    requires
        externs_at(old(ir)@.source, old(ir)@.sections.extern_section as int) == Some((n, xs@)),
    ensures
        after_externs(old(ir)@) == Some(final(ir)@),
{
    let mut xs = xs;
    ir.externs.externs.append(&mut xs);
    ir.externs.count = n;
}

fn commit_data(ir: &mut IRInfo, n: u64, xs: Vec<u8>)
    requires
        data_at(old(ir)@.source, old(ir)@.sections.data_section as int) == Some((n, xs@)),
    ensures
        after_data(old(ir)@) == Some(final(ir)@),
{
    let mut xs = xs;
    ir.data.data.append(&mut xs);
    ir.data.length = n;
}

fn commit_globals(ir: &mut IRInfo, n: u64, gs: Vec<IRGlobal>)
    requires
        section_at(global_parser(), old(ir)@.source, old(ir)@.sections.globals_section as int)
            == Some((n, globals_view(gs@))),
    ensures
        after_globals(old(ir)@) == Some(final(ir)@),
{
    let mut gs = gs;
    let ghost before = ir.globals@;
    let ghost added = gs@;
    ir.globals.append(&mut gs);
    ir.data.length = n;
    assert(globals_view(ir.globals@) =~= globals_view(before) + globals_view(added));
}

fn commit_functions(ir: &mut IRInfo, n: u64, fs: Vec<IRFunction>)
    requires
        section_at(function_parser(), old(ir)@.source, old(ir)@.sections.functs_section as int)
            == Some((n, functions_view(fs@))),
    ensures
        after_functions(old(ir)@) == Some(final(ir)@),
{
    let mut fs = fs;
    let ghost before = ir.functions@;
    let ghost added = fs@;
    ir.functions.append(&mut fs);
    ir.data.length = n;
    assert(functions_view(ir.functions@) =~= functions_view(before) + functions_view(added));
}

fn commit_string_table(ir: &mut IRInfo, n: u64, ts: Vec<IRString>)
    requires
        section_at(string_parser(), old(ir)@.source, old(ir)@.sections.string_table as int)
            == Some((n, strings_view(ts@))),
    ensures
        after_string_table(old(ir)@) == Some(final(ir)@),
{
    let mut ts = ts;
    let ghost before = ir.string_table@;
    let ghost added = ts@;
    ir.string_table.append(&mut ts);
    assert(strings_view(ir.string_table@) =~= strings_view(before) + strings_view(added));
}

/// Reads the extern section of `ir.source` into `ir`: appends the externs
/// and sets their count.
pub fn load_externs(ir: &mut IRInfo)
    requires
        after_externs(old(ir)@) is Some,
    ensures
        final(ir)@ == after_externs(old(ir)@).unwrap(),
{
    match read_externs(ir.source.as_slice(), ir.sections.extern_section) {
        Some((n, xs)) => commit_externs(ir, n, xs),
        None => {},
    }
}

/// Reads the data section of `ir.source` into `ir`: appends the bytes and
/// sets the data length.
pub fn load_data(ir: &mut IRInfo)
    requires
        after_data(old(ir)@) is Some,
    ensures
        final(ir)@ == after_data(old(ir)@).unwrap(),
{
    match read_data(ir.source.as_slice(), ir.sections.data_section) {
        Some((n, xs)) => commit_data(ir, n, xs),
        None => {},
    }
}

/// Reads the globals section of `ir.source` into `ir`: appends the globals
/// and sets the data length to their count.
pub fn load_globals(ir: &mut IRInfo)
    requires
        after_globals(old(ir)@) is Some,
    ensures
        final(ir)@ == after_globals(old(ir)@).unwrap(),
{
    match read_globals(ir.source.as_slice(), ir.sections.globals_section) {
        Some((n, xs)) => commit_globals(ir, n, xs),
        None => {},
    }
}

/// Reads the function section of `ir.source` into `ir`: appends the
/// functions and sets the data length to their count.
pub fn load_functions(ir: &mut IRInfo)
    requires
        after_functions(old(ir)@) is Some,
    ensures
        final(ir)@ == after_functions(old(ir)@).unwrap(),
{
    match read_functions(ir.source.as_slice(), ir.sections.functs_section) {
        Some((n, xs)) => commit_functions(ir, n, xs),
        None => {},
    }
}

/// Reads the string table of `ir.source` into `ir`: appends the strings.
pub fn load_string_table(ir: &mut IRInfo)
    requires
        after_string_table(old(ir)@) is Some,
    ensures
        final(ir)@ == after_string_table(old(ir)@).unwrap(),
{
    match read_string_table(ir.source.as_slice(), ir.sections.string_table) {
        Some((n, xs)) => commit_string_table(ir, n, xs),
        None => {},
    }
}

/// Loads the bytes of a bytecode file into `ir`: checks the header, reads
/// the section offsets from the end of the file, then the string table,
/// externs, data, globals and functions. On any error `ir` is left as it was.
pub fn load_bytecode(ir: &mut IRInfo, output: Vec<u8>) -> (r: Result<(), LoadError>)
    ensures
        match load_result(old(ir)@, output@) {
            Ok(m) => r is Ok && final(ir)@ == m,
            Err(e) => r == Err::<(), LoadError>(e) && final(ir)@ == old(ir)@,
        },
{
    let len = output.len();
    if len < 3 {
        return Err(LoadError::Malformed);
    }
    if output[0] != MAGIC0 || output[1] != MAGIC1 || output[2] != VERSION {
        // Invalid/incompatible header
        return Err(LoadError::BadHeader);
    }
    if len < 40 {
        return Err(LoadError::Malformed);
    }
    let src = output.as_slice();
    let sections = IRSections {
        string_table: load64(src, len - 8),
        functs_section: load64(src, len - 16),
        globals_section: load64(src, len - 24),
        data_section: load64(src, len - 32),
        extern_section: load64(src, len - 40),
    };
    let (nt, ts) = match read_string_table(src, sections.string_table) {
        Some(p) => p,
        None => {
            return Err(LoadError::Malformed);
        },
    };
    let (ne, es) = match read_externs(src, sections.extern_section) {
        Some(p) => p,
        None => {
            return Err(LoadError::Malformed);
        },
    };
    let (nd, ds) = match read_data(src, sections.data_section) {
        Some(p) => p,
        None => {
            return Err(LoadError::Malformed);
        },
    };
    let (ng, gs) = match read_globals(src, sections.globals_section) {
        Some(p) => p,
        None => {
            return Err(LoadError::Malformed);
        },
    };
    let (nf, fs) = match read_functions(src, sections.functs_section) {
        Some(p) => p,
        None => {
            return Err(LoadError::Malformed);
        },
    };
    ir.source = output;
    ir.sections = sections;
    commit_string_table(ir, nt, ts);
    commit_externs(ir, ne, es);
    commit_data(ir, nd, ds);
    commit_globals(ir, ng, gs);
    commit_functions(ir, nf, fs);
    Ok(())
}

} // verus!
