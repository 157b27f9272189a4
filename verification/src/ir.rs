//! The in-memory form of a loaded bytecode file, and the mathematical
//! models (views) that the contracts speak of.
use vstd::prelude::*;

verus! {

/// A binary operator of the IR.
#[derive(Clone, Copy, PartialEq, Eq, Structural, Debug)]
pub enum IRBinop {
    Plus,
    Minus,
    Mult,
    Div,
    Mod,
    Equal,
    NotEqual,
    Less,
    LessEqual,
    Greater,
    GreaterEqual,
    BitOr,
    BitAnd,
    BitShl,
    BitShr,
}

/// File offsets of the sections, read from the trailer of the file.
#[derive(Clone, Copy, PartialEq, Eq, Structural, Debug, Default)]
pub struct IRSections {
    pub extern_section: u64,
    pub data_section: u64,
    pub globals_section: u64,
    pub functs_section: u64,
    pub string_table: u64,
}

/// An entry of the string table. `content` holds the `length` bytes of the
/// string followed by a terminating zero byte.
#[derive(Clone, Debug, Default)]
pub struct IRString {
    pub length: u64,
    pub content: Vec<u8>,
}

/// The extern section: string-table indices of the external names.
#[derive(Clone, Debug, Default)]
pub struct IRExterns {
    pub count: u64,
    pub externs: Vec<u64>,
}

/// The data section: raw bytes.
#[derive(Clone, Debug, Default)]
pub struct IRData {
    pub length: u64,
    pub data: Vec<u8>,
}

/// One initial value of a global.
#[derive(Clone, Copy, PartialEq, Eq, Structural, Debug)]
pub enum IRValue {
    Name(u64),
    Literal(u64),
    Offset(u64),
}

/// A global variable with its initial values.
#[derive(Clone, Debug)]
pub struct IRGlobal {
    pub name: u64,
    pub values: Vec<IRValue>,
    pub is_vec: bool,
    pub min_size: u64,
}

/// An operand of an instruction.
#[derive(Clone, Copy, PartialEq, Eq, Structural, Debug)]
pub enum IROpArg {
    Bogus,
    AutoVar(u64),
    Deref(u64),
    RefExternal(u64),
    RefAutoVar(u64),
    Literal(u64),
    DataOffset(u64),
    External(u64),
}

/// An instruction of a function body.
#[derive(Clone, Debug)]
pub enum IROpcode {
    Bogus,
    Ret(IROpArg),
    Store(u64, IROpArg),
    ExtrnSet(IROpArg, IROpArg),
    AutoSet(u64, IROpArg),
    Negate(u64, IROpArg),
    UnaryNot(u64, IROpArg),
    Binop(u64, IRBinop, IROpArg, IROpArg),
    Label(u64),
    Jump(u64),
    JumpNot(u64, IROpArg),
    /// `Funcall(to, func, args)`
    Funcall(IROpArg, IROpArg, Vec<IROpArg>),
}

/// A function: its header fields, its instructions, and for each `Label`
/// instruction, in order of appearance, its position in `bytecode`.
#[derive(Clone, Debug)]
pub struct IRFunction {
    pub name: u64,
    pub file: u64,
    pub params: u64,
    pub autovars: u64,
    pub bodysize: u64,
    pub bytecode: Vec<IROpcode>,
    pub labels: Vec<usize>,
}

/// A loaded bytecode file.
#[derive(Clone, Debug, Default)]
pub struct IRInfo {
    pub source: Vec<u8>,
    pub sections: IRSections,
    pub externs: IRExterns,
    pub data: IRData,
    pub globals: Vec<IRGlobal>,
    pub functions: Vec<IRFunction>,
    pub string_table: Vec<IRString>,
}

// ---------------------------------------------------------------------------
// Models
// ---------------------------------------------------------------------------

pub struct StringModel {
    pub length: u64,
    pub content: Seq<u8>,
}

pub struct ExternsModel {
    pub count: u64,
    pub externs: Seq<u64>,
}

pub struct DataModel {
    pub length: u64,
    pub data: Seq<u8>,
}

pub struct GlobalModel {
    pub name: u64,
    pub values: Seq<IRValue>,
    pub is_vec: bool,
    pub min_size: u64,
}

pub enum OpcodeModel {
    Bogus,
    Ret(IROpArg),
    Store(u64, IROpArg),
    ExtrnSet(IROpArg, IROpArg),
    AutoSet(u64, IROpArg),
    Negate(u64, IROpArg),
    UnaryNot(u64, IROpArg),
    Binop(u64, IRBinop, IROpArg, IROpArg),
    Label(u64),
    Jump(u64),
    JumpNot(u64, IROpArg),
    Funcall(IROpArg, IROpArg, Seq<IROpArg>),
}

pub struct FunctionModel {
    pub name: u64,
    pub file: u64,
    pub params: u64,
    pub autovars: u64,
    pub bodysize: u64,
    pub bytecode: Seq<OpcodeModel>,
    pub labels: Seq<usize>,
}

pub struct InfoModel {
    pub source: Seq<u8>,
    pub sections: IRSections,
    pub externs: ExternsModel,
    pub data: DataModel,
    pub globals: Seq<GlobalModel>,
    pub functions: Seq<FunctionModel>,
    pub string_table: Seq<StringModel>,
}

impl View for IRString {
    type V = StringModel;

    open spec fn view(&self) -> StringModel {
        StringModel { length: self.length, content: self.content@ }
    }
}

impl View for IRExterns {
    type V = ExternsModel;

    open spec fn view(&self) -> ExternsModel {
        ExternsModel { count: self.count, externs: self.externs@ }
    }
}

impl View for IRData {
    type V = DataModel;

    open spec fn view(&self) -> DataModel {
        DataModel { length: self.length, data: self.data@ }
    }
}

impl View for IRGlobal {
    type V = GlobalModel;

    open spec fn view(&self) -> GlobalModel {
        GlobalModel {
            name: self.name,
            values: self.values@,
            is_vec: self.is_vec,
            min_size: self.min_size,
        }
    }
}

impl View for IROpcode {
    type V = OpcodeModel;

    open spec fn view(&self) -> OpcodeModel {
        match self {
            IROpcode::Bogus => OpcodeModel::Bogus,
            IROpcode::Ret(a) => OpcodeModel::Ret(*a),
            IROpcode::Store(i, a) => OpcodeModel::Store(*i, *a),
            IROpcode::ExtrnSet(a, b) => OpcodeModel::ExtrnSet(*a, *b),
            IROpcode::AutoSet(i, a) => OpcodeModel::AutoSet(*i, *a),
            IROpcode::Negate(i, a) => OpcodeModel::Negate(*i, *a),
            IROpcode::UnaryNot(i, a) => OpcodeModel::UnaryNot(*i, *a),
            IROpcode::Binop(i, op, a, b) => OpcodeModel::Binop(*i, *op, *a, *b),
            IROpcode::Label(i) => OpcodeModel::Label(*i),
            IROpcode::Jump(i) => OpcodeModel::Jump(*i),
            IROpcode::JumpNot(i, a) => OpcodeModel::JumpNot(*i, *a),
            IROpcode::Funcall(to, f, args) => OpcodeModel::Funcall(*to, *f, args@),
        }
    }
}

impl View for IRFunction {
    type V = FunctionModel;

    open spec fn view(&self) -> FunctionModel {
        FunctionModel {
            name: self.name,
            file: self.file,
            params: self.params,
            autovars: self.autovars,
            bodysize: self.bodysize,
            bytecode: opcodes_view(self.bytecode@),
            labels: self.labels@,
        }
    }
}

impl View for IRInfo {
    type V = InfoModel;

    open spec fn view(&self) -> InfoModel {
        InfoModel {
            source: self.source@,
            sections: self.sections,
            externs: self.externs@,
            data: self.data@,
            globals: globals_view(self.globals@),
            functions: functions_view(self.functions@),
            string_table: strings_view(self.string_table@),
        }
    }
}

pub open spec fn opcodes_view(s: Seq<IROpcode>) -> Seq<OpcodeModel> {
    s.map_values(|o: IROpcode| o@)
}

pub open spec fn globals_view(s: Seq<IRGlobal>) -> Seq<GlobalModel> {
    s.map_values(|g: IRGlobal| g@)
}

pub open spec fn functions_view(s: Seq<IRFunction>) -> Seq<FunctionModel> {
    s.map_values(|f: IRFunction| f@)
}

pub open spec fn strings_view(s: Seq<IRString>) -> Seq<StringModel> {
    s.map_values(|t: IRString| t@)
}

} // verus!
