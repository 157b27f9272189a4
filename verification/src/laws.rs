//! Properties of the file format, the loader and the interpreter that hold
//! of every input.
use vstd::prelude::*;
use crate::ir::{
    OpcodeModel, FunctionModel, InfoModel, StringModel, IRSections, ExternsModel, DataModel,
};
use crate::reader::{word_at, in_bounds};
use crate::format::{
    many, binop_of, label_positions, string_parser, function_parser, global_parser, section_at,
    externs_at,
};
use crate::loader::{
    LoadError, load_result, header_ok, trailer_sections, after_string_table, after_externs,
    after_data, after_globals, after_functions,
};
use crate::interp::{Step, step, run, jump_step, ExecError};

verus! {

/// A run of `n` items has `n` items.
pub proof fn lemma_many_len<T>(p: spec_fn(Seq<u8>, int) -> Option<(T, int)>, s: Seq<u8>, off: int, n: nat)
    ensures
        many(p, s, off, n) matches Some((xs, _)) ==> xs.len() == n,
    decreases n,
{
    if n > 0 {
        lemma_many_len(p, s, off, (n - 1) as nat);
    }
}

/// Every item of a run is an item that `p` gives.
pub proof fn lemma_many_items<T>(
    p: spec_fn(Seq<u8>, int) -> Option<(T, int)>,
    good: spec_fn(T) -> bool,
    s: Seq<u8>,
    off: int,
    n: nat,
)
    requires
        forall|o: int| #[trigger] p(s, o) matches Some((x, _)) ==> good(x),
    ensures
        many(p, s, off, n) matches Some((xs, _)) ==> forall|i: int| 0 <= i < xs.len() ==> good(#[trigger] xs[i]),
    decreases n,
{
    if n > 0 {
        lemma_many_items(p, good, s, off, (n - 1) as nat);
        if let Some((xs, o)) = many(p, s, off, (n - 1) as nat) {
            if let Some((x, o2)) = p(s, o) {
                assert(good(x));
                assert forall|i: int| 0 <= i < xs.push(x).len() implies good(#[trigger] xs.push(x)[i]) by {
                    if i < xs.len() {
                        assert(xs.push(x)[i] == xs[i]);
                    }
                }
            }
        }
    }
}

/// The operator indices are exactly 0 to 14, and distinct indices name
/// distinct operators.
pub proof fn lemma_binop_indices(a: u8, b: u8)
    ensures
        binop_of(a) is Some <==> a <= 14,
        a != b && binop_of(a) is Some && binop_of(b) is Some ==> binop_of(a) != binop_of(b),
{
}

/// The label list of a function body: each entry is the position of a
/// `Label` instruction, the entries increase, and every `Label`
/// instruction has an entry.
pub proof fn lemma_label_positions(ops: Seq<OpcodeModel>)
    requires
        ops.len() <= usize::MAX,
    ensures
        forall|k: int|
            0 <= k < label_positions(ops).len() ==> {
                &&& #[trigger] label_positions(ops)[k] < ops.len()
                &&& ops[label_positions(ops)[k] as int] is Label
            },
        forall|k1: int, k2: int|
            0 <= k1 < k2 < label_positions(ops).len() ==> #[trigger] label_positions(ops)[k1]
                < #[trigger] label_positions(ops)[k2],
        forall|p: int|
            0 <= p < ops.len() && (#[trigger] ops[p]) is Label ==> exists|k: int|
                0 <= k < label_positions(ops).len() && label_positions(ops)[k] == p,
    decreases ops.len(),
{
    if ops.len() > 0 {
        let front = ops.drop_last();
        lemma_label_positions(front);
        let rest = label_positions(front);
        let ls = label_positions(ops);
        assert forall|k: int| 0 <= k < ls.len() implies {
            &&& #[trigger] ls[k] < ops.len()
            &&& ops[ls[k] as int] is Label
        } by {
            if k < rest.len() {
                assert(ls[k] == rest[k]);
                assert(ops[rest[k] as int] == front[rest[k] as int]);
            }
        }
        assert forall|k1: int, k2: int| 0 <= k1 < k2 < ls.len() implies #[trigger] ls[k1]
            < #[trigger] ls[k2] by {
            if k2 < rest.len() {
                assert(ls[k1] == rest[k1] && ls[k2] == rest[k2]);
            } else {
                assert(ls[k1] == rest[k1]);
            }
        }
        assert forall|p: int| 0 <= p < ops.len() && (#[trigger] ops[p]) is Label implies exists|k: int|
            0 <= k < ls.len() && ls[k] == p by {
            if p < ops.len() - 1 {
                assert(front[p] == ops[p]);
                let k = choose|k: int| 0 <= k < rest.len() && rest[k] == p;
                assert(ls[k] == rest[k]);
            } else {
                assert(ls[rest.len() as int] == p);
            }
        }
    }
}

/// Every function that the loader reads has, as its label list, the
/// positions of its `Label` instructions.
pub proof fn lemma_loaded_functions_have_label_lists(s: Seq<u8>, off: int)
    ensures
        section_at(function_parser(), s, off) matches Some((_, fs)) ==> forall|i: int|
            0 <= i < fs.len() ==> (#[trigger] fs[i]).labels == label_positions(fs[i].bytecode),
{
    if in_bounds(s, off, 8) {
        lemma_many_items(
            function_parser(),
            |f: FunctionModel| f.labels == label_positions(f.bytecode),
            s,
            off + 8,
            word_at(s, off) as nat,
        );
    }
}

/// A `Label` instruction does nothing: the autozone is unchanged and the
/// next instruction runs.
pub proof fn lemma_label_is_noop(f: FunctionModel, zone: Seq<u64>, pc: int)
    requires
        0 <= pc < f.bytecode.len(),
        f.bytecode[pc] is Label,
    ensures
        step(f, zone, pc) == Step::Continue(zone, pc + 1),
{
}

/// In a function whose label list is that of its body, a jump to label
/// `k` goes on just after the `k`-th `Label` instruction, with the autozone
/// unchanged.
pub proof fn lemma_jump_lands_after_label(f: FunctionModel, zone: Seq<u64>, k: u64)
    requires
        f.bytecode.len() <= usize::MAX,
        f.labels == label_positions(f.bytecode),
        k < f.labels.len(),
    ensures
        f.bytecode[f.labels[k as int] as int] is Label,
        jump_step(f, zone, k) == Step::Continue(zone, f.labels[k as int] + 1),
{
    lemma_label_positions(f.bytecode);
    assert(f.labels[k as int] < f.bytecode.len());
}

/// A result reached within a step budget is the result for every larger
/// budget.
pub proof fn lemma_run_budget(f: FunctionModel, zone: Seq<u64>, pc: int, n: nat, m: nat)
    requires
        n <= m,
        run(f, zone, pc, n) != Err::<u64, ExecError>(ExecError::StepLimit),
    ensures
        run(f, zone, pc, m) == run(f, zone, pc, n),
    decreases n,
{
    if 0 <= pc < f.bytecode.len() && n > 0 {
        if let Step::Continue(z, p) = step(f, zone, pc) {
            lemma_run_budget(f, z, p, (n - 1) as nat, (m - 1) as nat);
        }
    }
}

/// The model with nothing loaded.
pub open spec fn empty_info() -> InfoModel {
    InfoModel {
        source: Seq::empty(),
        sections: IRSections {
            extern_section: 0,
            data_section: 0,
            globals_section: 0,
            functs_section: 0,
            string_table: 0,
        },
        externs: ExternsModel { count: 0, externs: Seq::empty() },
        data: DataModel { length: 0, data: Seq::empty() },
        globals: Seq::empty(),
        functions: Seq::empty(),
        string_table: Seq::empty(),
    }
}

/// A file loads only if it starts with the magic bytes and version; a file
/// of at least three bytes that does not is refused as `BadHeader`.
pub proof fn lemma_load_header(m: InfoModel, s: Seq<u8>)
    ensures
        load_result(m, s) is Ok ==> header_ok(s) && s.len() >= 40,
        s.len() >= 3 && !header_ok(s) ==> load_result(m, s) == Err::<InfoModel, LoadError>(
            LoadError::BadHeader,
        ),
{
}

/// Each section loader appends as many items as its section's count word
/// says, keeps what was there before, and leaves the other parts alone;
/// reading globals or functions sets the data length to their count.
pub proof fn lemma_loaders_append(m: InfoModel)
    ensures
        after_string_table(m) matches Some(m2) ==> {
            &&& m2.string_table.len() == m.string_table.len() + word_at(
                m.source,
                m.sections.string_table as int,
            )
            &&& m2.string_table.take(m.string_table.len() as int) == m.string_table
            &&& m2.externs == m.externs && m2.data == m.data && m2.globals == m.globals
            &&& m2.functions == m.functions && m2.source == m.source && m2.sections == m.sections
        },
        after_externs(m) matches Some(m2) ==> {
            &&& m2.externs.count == word_at(m.source, m.sections.extern_section as int)
            &&& m2.externs.externs.len() == m.externs.externs.len() + m2.externs.count
            &&& m2.externs.externs.take(m.externs.externs.len() as int) == m.externs.externs
            &&& m2.string_table == m.string_table && m2.data == m.data && m2.globals == m.globals
            &&& m2.functions == m.functions && m2.source == m.source && m2.sections == m.sections
        },
        after_data(m) matches Some(m2) ==> {
            &&& m2.data.length == word_at(m.source, m.sections.data_section as int)
            &&& m2.data.data.len() == m.data.data.len() + m2.data.length
            &&& m2.data.data.take(m.data.data.len() as int) == m.data.data
            &&& m2.string_table == m.string_table && m2.externs == m.externs && m2.globals
                == m.globals
            &&& m2.functions == m.functions && m2.source == m.source && m2.sections == m.sections
        },
        after_globals(m) matches Some(m2) ==> {
            &&& m2.data.length == word_at(m.source, m.sections.globals_section as int)
            &&& m2.globals.len() == m.globals.len() + m2.data.length
            &&& m2.globals.take(m.globals.len() as int) == m.globals
            &&& m2.data.data == m.data.data
            &&& m2.string_table == m.string_table && m2.externs == m.externs
            &&& m2.functions == m.functions && m2.source == m.source && m2.sections == m.sections
        },
        after_functions(m) matches Some(m2) ==> {
            &&& m2.data.length == word_at(m.source, m.sections.functs_section as int)
            &&& m2.functions.len() == m.functions.len() + m2.data.length
            &&& m2.functions.take(m.functions.len() as int) == m.functions
            &&& m2.data.data == m.data.data
            &&& m2.string_table == m.string_table && m2.externs == m.externs
            &&& m2.globals == m.globals && m2.source == m.source && m2.sections == m.sections
        },
{
    let s = m.source;
    let secs = m.sections;
    if let Some(m2) = after_string_table(m) {
        lemma_many_len(string_parser(), s, secs.string_table + 8, word_at(s, secs.string_table as int) as nat);
        assert(m2.string_table.take(m.string_table.len() as int) =~= m.string_table);
    }
    if let Some(m2) = after_externs(m) {
        assert(m2.externs.externs.take(m.externs.externs.len() as int) =~= m.externs.externs);
    }
    if let Some(m2) = after_data(m) {
        assert(m2.data.data.take(m.data.data.len() as int) =~= m.data.data);
    }
    if let Some(m2) = after_globals(m) {
        lemma_many_len(global_parser(), s, secs.globals_section + 8, word_at(s, secs.globals_section as int) as nat);
        assert(m2.globals.take(m.globals.len() as int) =~= m.globals);
    }
    if let Some(m2) = after_functions(m) {
        lemma_many_len(function_parser(), s, secs.functs_section + 8, word_at(s, secs.functs_section as int) as nat);
        assert(m2.functions.take(m.functions.len() as int) =~= m.functions);
    }
}

/// The section offsets are the last five words of the file: externs at
/// 40 bytes from the end, then data, globals, functions and the string
/// table in the last word; the header is `DE BC 01`.
pub proof fn lemma_trailer_and_header(m: InfoModel, s: Seq<u8>)
    ensures
        s.len() >= 40 ==> {
            &&& trailer_sections(s).extern_section == word_at(s, s.len() - 40)
            &&& trailer_sections(s).data_section == word_at(s, s.len() - 32)
            &&& trailer_sections(s).globals_section == word_at(s, s.len() - 24)
            &&& trailer_sections(s).functs_section == word_at(s, s.len() - 16)
            &&& trailer_sections(s).string_table == word_at(s, s.len() - 8)
        },
        load_result(m, s) is Ok ==> s[0] == 0xDE && s[1] == 0xBC && s[2] == 0x01,
        s.len() >= 40 && s[0] == 0xDE && s[1] == 0xBC && s[2] == 0x01 ==> load_result(m, s) is Ok
            || load_result(m, s) == Err::<InfoModel, LoadError>(LoadError::Malformed),
        load_result(m, s) matches Ok(m2) ==> m2.source == s && m2.sections == trailer_sections(s),
{
}

/// Loading a file into an empty `IRInfo`: the source is the file, the
/// sections come from its last five words, the extern count is the number
/// of externs, every string of the table is its `length` bytes and a zero
/// byte, every function's label list is that of its body, and the data
/// length is left holding the number of functions.
pub proof fn lemma_load_into_empty(s: Seq<u8>)
    ensures
        load_result(empty_info(), s) matches Ok(m) ==> {
            &&& m.source == s
            &&& m.sections == trailer_sections(s)
            &&& m.externs.count == m.externs.externs.len()
            &&& m.data.length == m.functions.len()
            &&& forall|i: int|
                0 <= i < m.string_table.len() ==> {
                    &&& (#[trigger] m.string_table[i]).content.len() == m.string_table[i].length + 1
                    &&& m.string_table[i].content.last() == 0
                }
            &&& forall|i: int|
                0 <= i < m.functions.len() ==> (#[trigger] m.functions[i]).labels
                    == label_positions(m.functions[i].bytecode)
        },
{
    if let Ok(m) = load_result(empty_info(), s) {
        let e = empty_info();
        let m0 = InfoModel { source: s, sections: trailer_sections(s), ..e };
        let m1 = after_string_table(m0).unwrap();
        let m2 = after_externs(m1).unwrap();
        let m3 = after_data(m2).unwrap();
        let m4 = after_globals(m3).unwrap();
        assert(m == after_functions(m4).unwrap());
        let secs = trailer_sections(s);
        // string table
        let (_, ts) = section_at(string_parser(), s, secs.string_table as int).unwrap();
        lemma_many_items(
            string_parser(),
            |t: StringModel| t.content.len() == t.length + 1 && t.content.last() == 0,
            s,
            secs.string_table + 8,
            word_at(s, secs.string_table as int) as nat,
        );
        assert(m1.string_table =~= ts);
        // functions
        let (nf, fs) = section_at(function_parser(), s, secs.functs_section as int).unwrap();
        lemma_many_len(
            function_parser(),
            s,
            secs.functs_section + 8,
            word_at(s, secs.functs_section as int) as nat,
        );
        lemma_loaded_functions_have_label_lists(s, secs.functs_section as int);
        assert(m.functions =~= fs);
        // externs
        let (ne, es) = externs_at(s, secs.extern_section as int).unwrap();
        assert(m2.externs.externs =~= es);
    }
}

} // verus!
