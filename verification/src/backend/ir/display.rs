//! The textual form of the intermediate representation, for reading and
//! for tests. Float constants show their bit patterns in hexadecimal.

use super::codegen::context::{Module, ModuleModel};
use super::entities::{
    Block, BlockID, BlockModel, Const, Function, FunctionModel, ParamID, Type, ValueID,
};
use super::inst::{BlockCall, BlockCallModel, CmpPred, Inst, InstModel, Op};
use crate::text::{
    decimal, decimal_text, join2, join3, models, push_char, signed_decimal, signed_decimal_text,
};
use vstd::prelude::*;

verus! {
pub open spec fn type_text(t: Type) -> Seq<char> {
    match t {
        Type::I8 => "i8"@,
        Type::I16 => "i16"@,
        Type::I32 => "i32"@,
        Type::I64 => "i64"@,
        Type::U8 => "u8"@,
        Type::U16 => "u16"@,
        Type::U32 => "u32"@,
        Type::U64 => "u64"@,
        Type::F32 => "f32"@,
        Type::F64 => "f64"@,
        Type::Bool => "bool"@,
        Type::Void => "void"@,
    }
}

impl Type {
    /// The type's name.
    pub fn to_string(&self) -> (r: String)
        ensures
            r@ == type_text(*self),
    {
        match self {
            Type::I8 => "i8".to_owned(),
            Type::I16 => "i16".to_owned(),
            Type::I32 => "i32".to_owned(),
            Type::I64 => "i64".to_owned(),
            Type::U8 => "u8".to_owned(),
            Type::U16 => "u16".to_owned(),
            Type::U32 => "u32".to_owned(),
            Type::U64 => "u64".to_owned(),
            Type::F32 => "f32".to_owned(),
            Type::F64 => "f64".to_owned(),
            Type::Bool => "bool".to_owned(),
            Type::Void => "void".to_owned(),
        }
    }
}

pub open spec fn value_text(v: ValueID) -> Seq<char> {
    "%"@ + decimal_text(v.0 as nat)
}

impl ValueID {
    /// The value as it is written: `%` and its number.
    pub fn to_string(&self) -> (r: String)
        ensures
            r@ == value_text(*self),
    {
        let number = decimal(self.0 as u64);
        join2("%", number.as_str())
    }
}

pub open spec fn param_text(p: ParamID) -> Seq<char> {
    type_text(p.1) + " %"@ + decimal_text(p.0 as nat)
}

impl ParamID {
    /// The parameter as it is written: its type, then `%` and its number.
    pub fn to_string(&self) -> (r: String)
        ensures
            r@ == param_text(*self),
    {
        let ty = self.1.to_string();
        let number = decimal(self.0 as u64);
        join3(ty.as_str(), " %", number.as_str())
    }
}

pub open spec fn block_id_text(b: BlockID) -> Seq<char> {
    "u"@ + decimal_text(b.0 as nat)
}

impl BlockID {
    /// The block as it is written: `u` and its number.
    pub fn to_string(&self) -> (r: String)
        ensures
            r@ == block_id_text(*self),
    {
        let number = decimal(self.0 as u64);
        join2("u", number.as_str())
    }
}

pub open spec fn hex_digit(d: int) -> char {
    if d < 10 {
        crate::text::digit_char(d)
    } else if d == 10 {
        'a'
    } else if d == 11 {
        'b'
    } else if d == 12 {
        'c'
    } else if d == 13 {
        'd'
    } else if d == 14 {
        'e'
    } else {
        'f'
    }
}

/// The lowest `width` hexadecimal digits of `n`, most significant first.
pub open spec fn hex_text(n: nat, width: nat) -> Seq<char>
    decreases width,
{
    if width == 0 {
        Seq::empty()
    } else {
        hex_text(n / 16, (width - 1) as nat).push(hex_digit((n % 16) as int))
    }
}

fn hex_digit_of(d: u64) -> (c: char)
    requires
        d < 16,
    ensures
        c == hex_digit(d as int),
{
    if d == 0 {
        '0'
    } else if d == 1 {
        '1'
    } else if d == 2 {
        '2'
    } else if d == 3 {
        '3'
    } else if d == 4 {
        '4'
    } else if d == 5 {
        '5'
    } else if d == 6 {
        '6'
    } else if d == 7 {
        '7'
    } else if d == 8 {
        '8'
    } else if d == 9 {
        '9'
    } else if d == 10 {
        'a'
    } else if d == 11 {
        'b'
    } else if d == 12 {
        'c'
    } else if d == 13 {
        'd'
    } else if d == 14 {
        'e'
    } else {
        'f'
    }
}

fn hex(n: u64, width: usize) -> (r: String)
    ensures
        r@ == hex_text(n as nat, width as nat),
    decreases width,
{
    if width == 0 {
        String::new()
    } else {
        let mut out = hex(n / 16, width - 1);
        push_char(&mut out, hex_digit_of(n % 16));
        out
    }
}

pub open spec fn const_type_text(c: Const) -> Seq<char> {
    match c {
        Const::I8(_) => "i8"@,
        Const::I16(_) => "i16"@,
        Const::I32(_) => "i32"@,
        Const::I64(_) => "i64"@,
        Const::U8(_) => "u8"@,
        Const::U16(_) => "u16"@,
        Const::U32(_) => "u32"@,
        Const::U64(_) => "u64"@,
        Const::F32(_) => "f32"@,
        Const::F64(_) => "f64"@,
        Const::Bool(_) => "bool"@,
        Const::Void => "void"@,
    }
}

pub open spec fn const_value_text(c: Const) -> Seq<char> {
    match c {
        Const::I8(v) => signed_decimal_text(v as int),
        Const::I16(v) => signed_decimal_text(v as int),
        Const::I32(v) => signed_decimal_text(v as int),
        Const::I64(v) => signed_decimal_text(v as int),
        Const::U8(v) => decimal_text(v as nat),
        Const::U16(v) => decimal_text(v as nat),
        Const::U32(v) => decimal_text(v as nat),
        Const::U64(v) => decimal_text(v as nat),
        Const::F32(bits) => "0x"@ + hex_text(bits as nat, 8),
        Const::F64(bits) => "0x"@ + hex_text(bits as nat, 16),
        Const::Bool(v) => decimal_text(v as nat),
        Const::Void => "VOID"@,
    }
}

pub open spec fn const_text(c: Const) -> Seq<char> {
    const_type_text(c) + " : "@ + const_value_text(c)
}

impl Const {
    /// The name of the constant's type.
    pub fn get_type(&self) -> (r: String)
        ensures
            r@ == const_type_text(*self),
    {
        match self {
            Const::I8(_) => "i8".to_owned(),
            Const::I16(_) => "i16".to_owned(),
            Const::I32(_) => "i32".to_owned(),
            Const::I64(_) => "i64".to_owned(),
            Const::U8(_) => "u8".to_owned(),
            Const::U16(_) => "u16".to_owned(),
            Const::U32(_) => "u32".to_owned(),
            Const::U64(_) => "u64".to_owned(),
            Const::F32(_) => "f32".to_owned(),
            Const::F64(_) => "f64".to_owned(),
            Const::Bool(_) => "bool".to_owned(),
            Const::Void => "void".to_owned(),
        }
    }

    /// The constant's value as it is written.
    pub fn get_value(&self) -> (r: String)
        ensures
            r@ == const_value_text(*self),
    {
        match self {
            Const::I8(v) => signed_decimal(*v as i64),
            Const::I16(v) => signed_decimal(*v as i64),
            Const::I32(v) => signed_decimal(*v as i64),
            Const::I64(v) => signed_decimal(*v),
            Const::U8(v) => decimal(*v as u64),
            Const::U16(v) => decimal(*v as u64),
            Const::U32(v) => decimal(*v as u64),
            Const::U64(v) => decimal(*v),
            Const::F32(bits) => {
                let digits = hex(*bits as u64, 8);
                join2("0x", digits.as_str())
            },
            Const::F64(bits) => {
                let digits = hex(*bits, 16);
                join2("0x", digits.as_str())
            },
            Const::Bool(v) => decimal(*v as u64),
            Const::Void => "VOID".to_owned(),
        }
    }

    /// The constant as it is written: its type, a colon, its value.
    pub fn to_string(&self) -> (r: String)
        ensures
            r@ == const_text(*self),
    {
        let ty = self.get_type();
        let value = self.get_value();
        join3(ty.as_str(), " : ", value.as_str())
    }
}

pub open spec fn pred_text(p: CmpPred) -> Seq<char> {
    match p {
        CmpPred::Eq => "eq"@,
        CmpPred::Ne => "ne"@,
        CmpPred::SGt => "sgt"@,
        CmpPred::SLt => "slt"@,
        CmpPred::SGe => "sge"@,
        CmpPred::SLe => "sle"@,
        CmpPred::UGt => "ugt"@,
        CmpPred::ULt => "ult"@,
        CmpPred::UGe => "uge"@,
        CmpPred::ULe => "ule"@,
    }
}

impl CmpPred {
    /// The predicate's mnemonic.
    pub fn to_string(&self) -> (r: String)
        ensures
            r@ == pred_text(*self),
    {
        match self {
            CmpPred::Eq => "eq".to_owned(),
            CmpPred::Ne => "ne".to_owned(),
            CmpPred::SGt => "sgt".to_owned(),
            CmpPred::SLt => "slt".to_owned(),
            CmpPred::SGe => "sge".to_owned(),
            CmpPred::SLe => "sle".to_owned(),
            CmpPred::UGt => "ugt".to_owned(),
            CmpPred::ULt => "ult".to_owned(),
            CmpPred::UGe => "uge".to_owned(),
            CmpPred::ULe => "ule".to_owned(),
        }
    }
}

/// An operation on two values: its mnemonic and the values.
pub open spec fn binary_text(mnemonic: Seq<char>, left: ValueID, right: ValueID) -> Seq<char> {
    mnemonic + " "@ + value_text(left) + " "@ + value_text(right)
}

/// An operation on one value: its mnemonic and the value.
pub open spec fn unary_text(mnemonic: Seq<char>, v: ValueID) -> Seq<char> {
    mnemonic + " "@ + value_text(v)
}

pub open spec fn compare_text(mnemonic: Seq<char>, p: CmpPred, left: ValueID, right: ValueID) -> Seq<
    char,
> {
    mnemonic + " "@ + pred_text(p) + " "@ + value_text(left) + " "@ + value_text(right)
}

pub open spec fn op_text(op: Op) -> Seq<char> {
    match op {
        Op::Const(c) => "const "@ + const_text(c),
        Op::IAdd { left, right } => binary_text("iadd"@, left, right),
        Op::ISub { left, right } => binary_text("isub"@, left, right),
        Op::IMul { left, right } => binary_text("imul"@, left, right),
        Op::SDiv { left, right } => binary_text("sdiv"@, left, right),
        Op::UDiv { left, right } => binary_text("udiv"@, left, right),
        Op::SRem { left, right } => binary_text("srem"@, left, right),
        Op::URem { left, right } => binary_text("urem"@, left, right),
        Op::FAdd { left, right } => binary_text("fadd"@, left, right),
        Op::FSub { left, right } => binary_text("fsub"@, left, right),
        Op::FMul { left, right } => binary_text("fmul"@, left, right),
        Op::FDiv { left, right } => binary_text("fdiv"@, left, right),
        Op::FRem { left, right } => binary_text("frem"@, left, right),
        Op::BOr { left, right } => binary_text("bor"@, left, right),
        Op::BAnd { left, right } => binary_text("band"@, left, right),
        Op::Lsh(v) => unary_text("lsh"@, v),
        Op::LRsh(v) => unary_text("lrsh"@, v),
        Op::ARsh(v) => unary_text("arsh"@, v),
        Op::BNot(v) => unary_text("bnot"@, v),
        Op::INeg(v) => unary_text("ineg"@, v),
        Op::FNeg(v) => unary_text("fneg"@, v),
        Op::ICmp { predicate, left, right } => compare_text("icmp"@, predicate, left, right),
        Op::FCmp { predicate, left, right } => compare_text("fcmp"@, predicate, left, right),
    }
}

fn binary(mnemonic: &str, left: &ValueID, right: &ValueID) -> (r: String)
    ensures
        r@ == binary_text(mnemonic@, *left, *right),
{
    let l = left.to_string();
    let r = right.to_string();
    crate::text::join4(mnemonic, " ", l.as_str(), " ").concat(r.as_str())
}

fn unary(mnemonic: &str, v: &ValueID) -> (r: String)
    ensures
        r@ == unary_text(mnemonic@, *v),
{
    let text = v.to_string();
    join3(mnemonic, " ", text.as_str())
}

fn compare(mnemonic: &str, p: &CmpPred, left: &ValueID, right: &ValueID) -> (r: String)
    ensures
        r@ == compare_text(mnemonic@, *p, *left, *right),
{
    let pred = p.to_string();
    let l = left.to_string();
    let r = right.to_string();
    crate::text::join7(mnemonic, " ", pred.as_str(), " ", l.as_str(), " ", r.as_str())
}

impl Op {
    /// The operation as it is written: its mnemonic and its operands.
    pub fn to_string(&self) -> (r: String)
        ensures
            r@ == op_text(*self),
    {
        match self {
            Op::Const(c) => {
                let text = c.to_string();
                join2("const ", text.as_str())
            },
            Op::IAdd { left, right } => binary("iadd", left, right),
            Op::ISub { left, right } => binary("isub", left, right),
            Op::IMul { left, right } => binary("imul", left, right),
            Op::SDiv { left, right } => binary("sdiv", left, right),
            Op::UDiv { left, right } => binary("udiv", left, right),
            Op::SRem { left, right } => binary("srem", left, right),
            Op::URem { left, right } => binary("urem", left, right),
            Op::FAdd { left, right } => binary("fadd", left, right),
            Op::FSub { left, right } => binary("fsub", left, right),
            Op::FMul { left, right } => binary("fmul", left, right),
            Op::FDiv { left, right } => binary("fdiv", left, right),
            Op::FRem { left, right } => binary("frem", left, right),
            Op::BOr { left, right } => binary("bor", left, right),
            Op::BAnd { left, right } => binary("band", left, right),
            Op::Lsh(v) => unary("lsh", v),
            Op::LRsh(v) => unary("lrsh", v),
            Op::ARsh(v) => unary("arsh", v),
            Op::BNot(v) => unary("bnot", v),
            Op::INeg(v) => unary("ineg", v),
            Op::FNeg(v) => unary("fneg", v),
            Op::ICmp { predicate, left, right } => compare("icmp", predicate, left, right),
            Op::FCmp { predicate, left, right } => compare("fcmp", predicate, left, right),
        }
    }
}

/// The first `n` of the texts, with `, ` between them.
pub open spec fn joined(items: Seq<Seq<char>>, n: nat) -> Seq<char>
    decreases n,
{
    if n == 0 {
        Seq::empty()
    } else if n == 1 {
        items[0]
    } else {
        joined(items, (n - 1) as nat) + ", "@ + items[n - 1]
    }
}

pub open spec fn values_text(args: Seq<ValueID>) -> Seq<char> {
    joined(Seq::new(args.len(), |i: int| value_text(args[i])), args.len())
}

pub open spec fn params_text(params: Seq<ParamID>) -> Seq<char> {
    joined(Seq::new(params.len(), |i: int| param_text(params[i])), params.len())
}

/// The parameters of a signature, numbered from zero.
pub open spec fn signature_text(params: Seq<Type>) -> Seq<char> {
    joined(
        Seq::new(params.len(), |i: int| param_text(ParamID(i as usize, params[i]))),
        params.len(),
    )
}

pub open spec fn call_text(c: BlockCallModel) -> Seq<char> {
    block_id_text(c.block) + "("@ + values_text(c.args) + ")"@
}

fn values(args: &Vec<ValueID>) -> (r: String)
    ensures
        r@ == values_text(args@),
{
    let ghost items = Seq::new(args@.len(), |i: int| value_text(args@[i]));
    let mut out = String::new();
    let mut i: usize = 0;
    while i < args.len()
        invariant
            i <= args.len(),
            items == Seq::new(args@.len(), |i: int| value_text(args@[i])),
            out@ == joined(items, i as nat),
        decreases args.len() - i,
    {
        let text = args[i].to_string();
        if i > 0 {
            out.append(", ");
        }
        out.append(text.as_str());
        i = i + 1;
    }
    out
}

fn params(list: &Vec<ParamID>) -> (r: String)
    ensures
        r@ == params_text(list@),
{
    let ghost items = Seq::new(list@.len(), |i: int| param_text(list@[i]));
    let mut out = String::new();
    let mut i: usize = 0;
    while i < list.len()
        invariant
            i <= list.len(),
            items == Seq::new(list@.len(), |i: int| param_text(list@[i])),
            out@ == joined(items, i as nat),
        decreases list.len() - i,
    {
        let text = list[i].to_string();
        if i > 0 {
            out.append(", ");
        }
        out.append(text.as_str());
        i = i + 1;
    }
    out
}

fn signature(list: &Vec<Type>) -> (r: String)
    ensures
        r@ == signature_text(list@),
{
    let ghost items = Seq::new(
        list@.len(),
        |i: int| param_text(ParamID(i as usize, list@[i])),
    );
    let mut out = String::new();
    let mut i: usize = 0;
    while i < list.len()
        invariant
            i <= list.len(),
            items == Seq::new(list@.len(), |i: int| param_text(ParamID(i as usize, list@[i]))),
            out@ == joined(items, i as nat),
        decreases list.len() - i,
    {
        let text = ParamID(i, list[i]).to_string();
        if i > 0 {
            out.append(", ");
        }
        out.append(text.as_str());
        i = i + 1;
    }
    out
}

impl BlockCall {
    /// The call as it is written: the block, then its arguments between
    /// parentheses.
    pub fn to_string(&self) -> (r: String)
        ensures
            r@ == call_text(self@),
    {
        let block = self.block.to_string();
        let args = values(&self.args);
        crate::text::join4(block.as_str(), "(", args.as_str(), ")")
    }
}

pub open spec fn inst_text(inst: InstModel) -> Seq<char> {
    match inst {
        InstModel::Assign { dest, op } => value_text(dest) + " = "@ + op_text(op),
        InstModel::Ret(v) => "ret "@ + value_text(v),
        InstModel::Jmp(call) => "jmp "@ + call_text(call),
        InstModel::Branch { condition, true_path, false_path } => "br "@ + value_text(condition)
            + " "@ + call_text(true_path) + " "@ + call_text(false_path),
    }
}

impl Inst {
    /// The instruction as it is written.
    pub fn to_string(&self) -> (r: String)
        ensures
            r@ == inst_text(self@),
    {
        match self {
            Inst::Assign { dest, op } => {
                let d = dest.to_string();
                let o = op.to_string();
                join3(d.as_str(), " = ", o.as_str())
            },
            Inst::Ret(v) => {
                let text = v.to_string();
                join2("ret ", text.as_str())
            },
            Inst::Jmp(call) => {
                let text = call.to_string();
                join2("jmp ", text.as_str())
            },
            Inst::Branch { condition, true_path, false_path } => {
                let c = condition.to_string();
                let t = true_path.to_string();
                let f = false_path.to_string();
                let mut out = crate::text::join5("br ", c.as_str(), " ", t.as_str(), " ");
                out.append(f.as_str());
                out
            },
        }
    }
}

/// The first `n` instructions, each indented on a line of its own.
pub open spec fn insts_text(insts: Seq<InstModel>, n: nat) -> Seq<char>
    decreases n,
{
    if n == 0 {
        Seq::empty()
    } else {
        insts_text(insts, (n - 1) as nat) + "  "@ + inst_text(insts[n - 1]) + "\n"@
    }
}

/// A block: its header, then its instructions.
pub open spec fn block_text(b: BlockModel) -> Seq<char> {
    block_id_text(b.id) + "("@ + params_text(b.params) + "):\n"@ + insts_text(
        b.insts,
        b.insts.len(),
    )
}

pub open spec fn blocks_text(blocks: Seq<BlockModel>, n: nat) -> Seq<char>
    decreases n,
{
    if n == 0 {
        Seq::empty()
    } else {
        blocks_text(blocks, (n - 1) as nat) + block_text(blocks[n - 1])
    }
}

/// A function: its header, its blocks, and a closing brace.
pub open spec fn function_text(f: FunctionModel) -> Seq<char> {
    "func "@ + type_text(f.sig.return_ty) + " : @"@ + f.alias + "("@ + signature_text(
        f.sig.params,
    ) + ") {\n"@ + blocks_text(f.blocks, f.blocks.len()) + "}"@
}

pub open spec fn functions_text(functions: Seq<FunctionModel>, n: nat) -> Seq<char>
    decreases n,
{
    if n == 0 {
        Seq::empty()
    } else {
        functions_text(functions, (n - 1) as nat) + function_text(functions[n - 1])
    }
}

/// A module: its functions, one after the other.
pub open spec fn module_text(m: ModuleModel) -> Seq<char> {
    functions_text(m.functions, m.functions.len())
}

impl Block {
    /// The block as it is written.
    pub fn to_string(&self) -> (r: String)
        ensures
            r@ == block_text(self@),
    {
        let id = self.id.to_string();
        let list = params(&self.params);
        let mut out = crate::text::join4(id.as_str(), "(", list.as_str(), "):\n");
        let ghost head = out@;
        let ghost insts = models(self.insts@);
        let mut i: usize = 0;
        while i < self.insts.len()
            invariant
                i <= self.insts.len(),
                insts == models(self.insts@),
                out@ == head + insts_text(insts, i as nat),
            decreases self.insts.len() - i,
        {
            let text = self.insts[i].to_string();
            out.append("  ");
            out.append(text.as_str());
            out.append("\n");
            i = i + 1;
        }
        out
    }
}

impl Function {
    /// The function as it is written.
    pub fn to_string(&self) -> (r: String)
        ensures
            r@ == function_text(self@),
    {
        let ret = self.sig.return_ty.to_string();
        let list = signature(&self.sig.params);
        let mut out = crate::text::join4("func ", ret.as_str(), " : @", self.alias.as_str());
        out.append("(");
        out.append(list.as_str());
        out.append(") {\n");
        let ghost head = out@;
        let ghost blocks = models(self.blocks@);
        let mut i: usize = 0;
        while i < self.blocks.len()
            invariant
                i <= self.blocks.len(),
                blocks == models(self.blocks@),
                out@ == head + blocks_text(blocks, i as nat),
            decreases self.blocks.len() - i,
        {
            let text = self.blocks[i].to_string();
            out.append(text.as_str());
            i = i + 1;
        }
        out.append("}");
        out
    }
}

impl Module {
    /// The module as it is written.
    pub fn display(&self) -> (r: String)
        ensures
            r@ == module_text(self@),
    {
        let mut out = String::new();
        let ghost functions = models(self.functions@);
        let mut i: usize = 0;
        while i < self.functions.len()
            invariant
                i <= self.functions.len(),
                functions == models(self.functions@),
                out@ == functions_text(functions, i as nat),
            decreases self.functions.len() - i,
        {
            let text = self.functions[i].to_string();
            out.append(text.as_str());
            i = i + 1;
        }
        out
    }
}
} // verus!
