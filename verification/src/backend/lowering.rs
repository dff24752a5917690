//! What the code generator decides before it emits anything: the machine
//! operations that a program becomes, in the order in which a stack machine
//! performs them, and the instruction that each binary operation of the
//! language lowers to.

use crate::frontend::parser::{ASTNode, AstModel, Module, Node, NodeModel};
use crate::global::{type_text, Type, TypeModel};
use crate::text::{join7, models, same_text};
use vstd::prelude::*;

verus! {
/// The arithmetic instructions that binary operations lower to.
#[derive(Clone, Copy, Debug, PartialEq, Eq, Structural)]
pub enum Arithmetic {
    IAdd,
    ISub,
    IMul,
    SDiv,
    FAdd,
    FSub,
    FMul,
    FDiv,
}

/// The instruction for an operator on integers, and the one on floats.
pub open spec fn instructions_of(op: Seq<char>) -> Option<(Arithmetic, Arithmetic)> {
    if op == "+"@ {
        Some((Arithmetic::IAdd, Arithmetic::FAdd))
    } else if op == "-"@ {
        Some((Arithmetic::ISub, Arithmetic::FSub))
    } else if op == "*"@ {
        Some((Arithmetic::IMul, Arithmetic::FMul))
    } else if op == "/"@ {
        Some((Arithmetic::SDiv, Arithmetic::FDiv))
    } else {
        None
    }
}

/// The instruction that `left op right` lowers to: the operands must have
/// one numeric type and the operator must be `+`, `-`, `*` or `/`. Floats
/// take the float instruction, integers of either signedness the integer
/// one; division of integers is always the signed division.
pub open spec fn lowering(op: Seq<char>, left: TypeModel, right: TypeModel) -> Option<Arithmetic> {
    match instructions_of(op) {
        Some((on_integers, on_floats)) => if left == right && left.is_float() {
            Some(on_floats)
        } else if left == right && left.is_numeric() {
            Some(on_integers)
        } else {
            None
        },
        None => None,
    }
}

/// Selects the instruction for a binary operation on operands of the types
/// given; the result of the operation has the operands' type.
pub fn select_instruction(op: &str, left: &Type, right: &Type) -> (r: Option<Arithmetic>)
    ensures
        r == lowering(op@, left@, right@),
{
    let (on_integers, on_floats) = if same_text(op, "+") {
        (Arithmetic::IAdd, Arithmetic::FAdd)
    } else if same_text(op, "-") {
        (Arithmetic::ISub, Arithmetic::FSub)
    } else if same_text(op, "*") {
        (Arithmetic::IMul, Arithmetic::FMul)
    } else if same_text(op, "/") {
        (Arithmetic::SDiv, Arithmetic::FDiv)
    } else {
        return None;
    };
    if left.same(right) && left.is_float() {
        Some(on_floats)
    } else if left.same(right) && left.is_numeric() {
        Some(on_integers)
    } else {
        None
    }
}

/// The name of the object module for a source path: the path without its
/// `.kl` ending, or `main` where it has no such ending.
pub open spec fn module_name(path: Seq<char>) -> Seq<char> {
    if path.len() >= 3 && path.subrange(path.len() - 3, path.len() as int) == seq!['.', 'k', 'l'] {
        path.subrange(0, path.len() - 3)
    } else {
        "main"@
    }
}

/// The name of the object module for a source path.
pub fn object_module_name(path: &str) -> (r: String)
    ensures
        r@ == module_name(path@),
{
    let chars = crate::text::chars_of(path);
    let n = chars.len();
    if n >= 3 && chars[n - 3] == '.' && chars[n - 2] == 'k' && chars[n - 1] == 'l' {
        assert(chars@.subrange(n - 3, n as int) =~= seq!['.', 'k', 'l']);
        let mut stem: Vec<char> = Vec::new();
        let mut i: usize = 0;
        while i < n - 3
            invariant
                i <= n - 3,
                n == chars.len(),
                stem@ == chars@.subrange(0, i as int),
            decreases n - 3 - i,
        {
            stem.push(chars[i]);
            i = i + 1;
        }
        crate::text::text_of(&stem)
    } else {
        proof {
            if n >= 3 {
                let tail = chars@.subrange(n - 3, n as int);
            }
        }
        "main".to_owned()
    }
}

/// One step of generated code, for a machine with a stack of values.
#[derive(Debug, PartialEq)]
pub enum Lowered {
    /// Pushes the 32-bit integer zero: the value of a program without
    /// nodes.
    Zero,
    /// Drops the value on top: every node's value but the last is dropped.
    Drop,
    /// Pushes a 64-bit integer.
    IConst(i64),
    /// Pushes the 64-bit float that the text denotes.
    FConst(String),
    /// Pushes a boolean as an 8-bit integer, one or zero.
    BConst(bool),
    /// Replaces the two values on top, the left operand under the right,
    /// by the result of the instruction.
    Arith(Arithmetic),
}

pub enum LoweredModel {
    Zero,
    Drop,
    IConst(i64),
    FConst(Seq<char>),
    BConst(bool),
    Arith(Arithmetic),
}

impl View for Lowered {
    type V = LoweredModel;

    open spec fn view(&self) -> LoweredModel {
        match self {
            Lowered::Zero => LoweredModel::Zero,
            Lowered::Drop => LoweredModel::Drop,
            Lowered::IConst(i) => LoweredModel::IConst(*i),
            Lowered::FConst(s) => LoweredModel::FConst(s@),
            Lowered::BConst(b) => LoweredModel::BConst(*b),
            Lowered::Arith(a) => LoweredModel::Arith(*a),
        }
    }
}

/// The steps that compute a node, and the type of the value they leave on
/// the stack; or why there is no code for the node. Integer literals are
/// 64-bit integers, float literals 64-bit floats; a binary operation
/// computes its left operand, then its right, then itself, and has the
/// type of its operands. No other construct has code.
pub open spec fn node_code(node: NodeModel) -> Result<(Seq<LoweredModel>, TypeModel), Seq<char>>
    decreases node,
{
    match node.ast_repr {
        AstModel::IntLit(i) => Ok((seq![LoweredModel::IConst(i)], TypeModel::Int64)),
        AstModel::FloatLit(text) => Ok((seq![LoweredModel::FConst(text)], TypeModel::Float64)),
        AstModel::Bool(b) => Ok((seq![LoweredModel::BConst(b)], TypeModel::Boolean)),
        AstModel::BinOp { lhs, rhs, op } => match node_code(*lhs) {
            Err(e) => Err(e),
            Ok((left, left_type)) => match node_code(*rhs) {
                Err(e) => Err(e),
                Ok((right, right_type)) => match lowering(op.0, left_type, right_type) {
                    Some(instruction) => Ok(
                        (left + right + seq![LoweredModel::Arith(instruction)], left_type),
                    ),
                    None => Err(
                        "cannot generate code for `"@ + op.0 + "` on `"@ + type_text(left_type)
                            + "` and `"@ + type_text(right_type) + "`"@,
                    ),
                },
            },
        },
        _ => Err("cannot generate code for this construct"@),
    }
}

/// The steps of the first `n` nodes of a program, after the zero that a
/// program begins with: before each node the value before it is dropped.
pub open spec fn program_code(nodes: Seq<NodeModel>, n: nat) -> Result<Seq<LoweredModel>, Seq<char>>
    decreases n,
{
    if n == 0 {
        Ok(seq![LoweredModel::Zero])
    } else {
        match program_code(nodes, (n - 1) as nat) {
            Err(e) => Err(e),
            Ok(before) => match node_code(nodes[n - 1]) {
                Err(e) => Err(e),
                Ok((steps, _)) => Ok(before + seq![LoweredModel::Drop] + steps),
            },
        }
    }
}

pub open spec fn code_outcome(r: Result<(Vec<Lowered>, Type), String>) -> Result<
    (Seq<LoweredModel>, TypeModel),
    Seq<char>,
> {
    match r {
        Ok((steps, ty)) => Ok((models(steps@), ty@)),
        Err(e) => Err(e@),
    }
}

fn append_steps(steps: &mut Vec<Lowered>, more: Vec<Lowered>)
    ensures
        models(final(steps)@) == models(old(steps)@) + models(more@),
{
    let ghost added = models(more@);
    let mut rest = more;
    steps.append(&mut rest);
    assert(models(steps@) =~= models(old(steps)@) + added);
}

fn push_step(steps: &mut Vec<Lowered>, step: Lowered)
    ensures
        models(final(steps)@) == models(old(steps)@) + seq![step@],
{
    steps.push(step);
    assert(models(steps@) =~= models(old(steps)@) + seq![step@]);
}

fn one_step(step: Lowered) -> (steps: Vec<Lowered>)
    ensures
        models(steps@) == seq![step@],
{
    let mut steps: Vec<Lowered> = Vec::new();
    steps.push(step);
    assert(models(steps@) =~= seq![step@]);
    steps
}

/// The steps that compute a node, and the type of its value.
pub fn lower_node(node: &Node) -> (r: Result<(Vec<Lowered>, Type), String>)
    ensures
        code_outcome(r) == node_code(node@),
    decreases node,
{
    match &node.ast_repr {
        ASTNode::IntLit(i) => Ok((one_step(Lowered::IConst(*i)), Type::Int64)),
        ASTNode::FloatLit(text) => Ok((one_step(Lowered::FConst(text.clone())), Type::Float64)),
        ASTNode::Bool(b) => Ok((one_step(Lowered::BConst(*b)), Type::Boolean)),
        ASTNode::BinOp { lhs, rhs, op } => {
            let (mut steps, left_type) = match lower_node(lhs) {
                Ok(done) => done,
                Err(e) => {
                    return Err(e);
                },
            };
            let (right, right_type) = match lower_node(rhs) {
                Ok(done) => done,
                Err(e) => {
                    return Err(e);
                },
            };
            match select_instruction(op.0.as_str(), &left_type, &right_type) {
                Some(instruction) => {
                    append_steps(&mut steps, right);
                    push_step(&mut steps, Lowered::Arith(instruction));
                    Ok((steps, left_type))
                },
                None => {
                    let l = left_type.to_string();
                    let r = right_type.to_string();
                    Err(
                        join7(
                            "cannot generate code for `",
                            op.0.as_str(),
                            "` on `",
                            l.as_str(),
                            "` and `",
                            r.as_str(),
                            "`",
                        ),
                    )
                },
            }
        },
        _ => Err("cannot generate code for this construct".to_owned()),
    }
}

/// The steps that compute a program: its nodes in order, the value of the
/// last one left on the stack.
pub fn lower_module(module: &Module) -> (r: Result<Vec<Lowered>, String>)
    ensures
        match r {
            Ok(steps) => program_code(module@, module@.len()) == Ok::<
                Seq<LoweredModel>,
                Seq<char>,
            >(models(steps@)),
            Err(e) => program_code(module@, module@.len()) == Err::<Seq<LoweredModel>, Seq<char>>(
                e@,
            ),
        },
{
    let mut steps = one_step(Lowered::Zero);
    let mut i: usize = 0;
    while i < module.0.len()
        invariant
            i <= module.0.len(),
            program_code(module@, i as nat) == Ok::<Seq<LoweredModel>, Seq<char>>(models(steps@)),
        decreases module.0.len() - i,
    {
        match lower_node(&module.0[i]) {
            Ok((more, _)) => {
                push_step(&mut steps, Lowered::Drop);
                append_steps(&mut steps, more);
            },
            Err(e) => {
                proof {
                    lemma_code_fails_on(module@, (i + 1) as nat, module@.len());
                }
                return Err(e);
            },
        }
        i = i + 1;
    }
    Ok(steps)
}

proof fn lemma_code_fails_on(nodes: Seq<NodeModel>, failed: nat, n: nat)
    requires
        failed <= n,
        program_code(nodes, failed) is Err,
    ensures
        program_code(nodes, n) == program_code(nodes, failed),
    decreases n,
{
    if failed < n {
        lemma_code_fails_on(nodes, failed, (n - 1) as nat);
    }
}
} // verus!
