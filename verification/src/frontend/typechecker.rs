//! The type checker: resolves names through a stack of scopes and gives
//! every node its static type, or a diagnostic.

use super::parser::{ASTNode, AstModel, Module, Node, NodeModel};
use super::typeregistry::{primitive_types, TypeRegistry};
use crate::global::{
    opt_text, type_text, ECode, Error, ErrorModel, ParseType, ParseTypeModel, Span, Symbol,
    SymbolModel, Type, TypeModel,
};
use crate::text::{join3, join5, join7, models, same_text};
use vstd::prelude::*;

verus! {
/// The similarity of two texts as `strsim::jaro_winkler` scores it, given as
/// the IEEE-754 bit pattern of the score. Scores lie between zero and one,
/// where bit patterns order as the scores do.
pub uninterp spec fn jaro_winkler_bits(a: Seq<char>, b: Seq<char>) -> u64;

/// `strsim::jaro_winkler`: the score of the two texts, by its bit pattern.
#[verifier::external_body]
fn similarity(a: &str, b: &str) -> (r: u64)
    ensures
        r == jaro_winkler_bits(a@, b@),
{
    strsim::jaro_winkler(a, b).to_bits()
}

/// The bit pattern of the score 0.7: a name is suggested only if it scores
/// at least this.
pub const SUGGESTION_THRESHOLD: u64 = 0x3FE6_6666_6666_6666;

/// The stack of scopes, outermost first; each scope in declaration order.
pub type Scopes = Seq<Seq<SymbolModel>>;

/// What stays fixed while a program is checked.
pub struct CheckContext {
    pub registry: Map<Seq<char>, TypeModel>,
    pub src: Seq<char>,
    pub path: Seq<char>,
}

/// A diagnostic of the checked source.
pub open spec fn diagnostic(
    cx: CheckContext,
    code: ECode,
    details: Seq<char>,
    span: Span,
    note: Option<Seq<char>>,
    help: Option<Seq<char>>,
) -> ErrorModel {
    ErrorModel { code, details, span, src: cx.src, path: cx.path, note, help }
}

/// The symbols in sight, in the order in which lookup meets them: the
/// innermost scope first, each scope in declaration order.
pub open spec fn visible(scopes: Scopes) -> Seq<SymbolModel>
    decreases scopes.len(),
{
    if scopes.len() == 0 {
        Seq::empty()
    } else {
        scopes.last() + visible(scopes.drop_last())
    }
}

/// The first symbol of that name from index `i` on.
pub open spec fn first_named(symbols: Seq<SymbolModel>, name: Seq<char>, i: int) -> Option<
    SymbolModel,
>
    decreases symbols.len() - i,
{
    if i < 0 || i >= symbols.len() {
        None
    } else if symbols[i].name == name {
        Some(symbols[i])
    } else {
        first_named(symbols, name, i + 1)
    }
}

/// The best suggestion among the first `n` symbols: the name that scores
/// highest against `target`, if it reaches the threshold; the earliest of
/// equals. Given with its score.
pub open spec fn best_match(symbols: Seq<SymbolModel>, target: Seq<char>, n: nat) -> Option<
    (Seq<char>, u64),
>
    decreases n,
{
    if n == 0 || n > symbols.len() {
        None
    } else {
        let before = best_match(symbols, target, (n - 1) as nat);
        let name = symbols[n - 1].name;
        let score = jaro_winkler_bits(target, name);
        let best = match before {
            Some((_, s)) => s,
            None => 0u64,
        };
        if score >= SUGGESTION_THRESHOLD && score > best {
            Some((name, score))
        } else {
            before
        }
    }
}

/// The diagnostic for a name that nothing in sight declares.
pub open spec fn undefined(cx: CheckContext, symbols: Seq<SymbolModel>, name: Seq<char>, span: Span) -> ErrorModel {
    diagnostic(
        cx,
        ECode::UndefinedIdentifier,
        "cannot find `"@ + name + "` in scope"@,
        span,
        None,
        match best_match(symbols, name, symbols.len()) {
            Some((candidate, _)) => Some("did you mean: `"@ + candidate + "`?"@),
            None => None,
        },
    )
}

/// The type of the variable of that name, or the diagnostic for its absence.
pub open spec fn find(scopes: Scopes, cx: CheckContext, name: Seq<char>, span: Span) -> Result<
    TypeModel,
    ErrorModel,
> {
    match first_named(visible(scopes), name, 0) {
        Some(symbol) => Ok(symbol.type_),
        None => Err(undefined(cx, visible(scopes), name, span)),
    }
}

/// Whether a value of type `new` may be assigned to the variable of that
/// name: it must exist, be mutable and have that type.
pub open spec fn mutate(
    scopes: Scopes,
    cx: CheckContext,
    name: Seq<char>,
    span: Span,
    new: TypeModel,
) -> Result<(), ErrorModel> {
    match first_named(visible(scopes), name, 0) {
        Some(symbol) => if symbol.mutability {
            if symbol.type_ != new {
                Err(
                    diagnostic(
                        cx,
                        ECode::MutationError,
                        "`"@ + name + "` has type `"@ + type_text(symbol.type_)
                            + "` but the new value has type `"@ + type_text(new) + "`"@,
                        span,
                        None,
                        None,
                    ),
                )
            } else {
                Ok(())
            }
        } else {
            Err(
                diagnostic(
                    cx,
                    ECode::MutationError,
                    "cannot mutate immutable variable `"@ + name + "`"@,
                    span,
                    None,
                    None,
                ),
            )
        },
        None => Err(undefined(cx, visible(scopes), name, span)),
    }
}

pub open spec fn is_arithmetic_or_relational(op: Seq<char>) -> bool {
    op == "+"@ || op == "-"@ || op == "*"@ || op == "/"@ || op == ">"@ || op == "<"@ || op == ">="@
        || op == "<="@
}

pub open spec fn operation_mismatch(
    cx: CheckContext,
    op: Seq<char>,
    left: TypeModel,
    right: TypeModel,
    span: Span,
) -> ErrorModel {
    diagnostic(
        cx,
        ECode::MismatchedTypes,
        "cannot do `"@ + op + "` operation on types `"@ + type_text(left) + "`, `"@ + type_text(
            right,
        ) + "`"@,
        span,
        None,
        None,
    )
}

/// The type of a binary operation other than `:=` on operands of the types
/// given. Arithmetic and relational operators want two operands of one
/// numeric type and give that type; `==` and `!=` want two operands of one
/// type and give that type; `++` wants two strings.
pub open spec fn binary_type(
    cx: CheckContext,
    op: (Seq<char>, Span),
    left: TypeModel,
    right: TypeModel,
    span: Span,
) -> Result<TypeModel, ErrorModel> {
    if is_arithmetic_or_relational(op.0) {
        if left == right && left.is_numeric() {
            Ok(left)
        } else {
            Err(operation_mismatch(cx, op.0, left, right, span))
        }
    } else if op.0 == "=="@ || op.0 == "!="@ {
        if left == right {
            Ok(left)
        } else {
            Err(operation_mismatch(cx, op.0, left, right, span))
        }
    } else if op.0 == "++"@ {
        if left is String && right is String {
            Ok(TypeModel::String)
        } else {
            Err(
                diagnostic(
                    cx,
                    ECode::MismatchedTypes,
                    "cannot concatenate types `"@ + type_text(left) + "` and `"@ + type_text(right)
                        + "`"@,
                    span,
                    None,
                    None,
                ),
            )
        }
    } else {
        Err(
            diagnostic(
                cx,
                ECode::MismatchedTypes,
                "invalid operator - `"@ + op.0 + "`"@,
                op.1,
                None,
                None,
            ),
        )
    }
}

/// The type of a unary operation. `+` takes any number; `-` takes signed
/// integers and floats; `!` takes booleans and integers.
pub open spec fn unary_type(cx: CheckContext, op: (Seq<char>, Span), operand: TypeModel, span: Span) -> Result<
    TypeModel,
    ErrorModel,
> {
    if op.0 == "+"@ {
        if operand.is_numeric() {
            Ok(operand)
        } else {
            Err(
                diagnostic(
                    cx,
                    ECode::MismatchedTypes,
                    "cannot apply `+` to type `"@ + type_text(operand) + "`"@,
                    span,
                    None,
                    None,
                ),
            )
        }
    } else if op.0 == "-"@ {
        if operand.is_signed_int() || operand.is_float() {
            Ok(operand)
        } else if operand.is_unsigned_int() {
            Err(
                diagnostic(
                    cx,
                    ECode::MismatchedTypes,
                    "cannot negate unsigned integers"@,
                    span,
                    None,
                    None,
                ),
            )
        } else {
            Err(
                diagnostic(
                    cx,
                    ECode::MismatchedTypes,
                    "cannot negate type `"@ + type_text(operand) + "`"@,
                    span,
                    None,
                    None,
                ),
            )
        }
    } else if op.0 == "!"@ {
        if operand is Boolean || operand.is_signed_int() || operand.is_unsigned_int() {
            Ok(operand)
        } else {
            Err(
                diagnostic(
                    cx,
                    ECode::MismatchedTypes,
                    "cannot apply `!` to type `"@ + type_text(operand) + "`"@,
                    span,
                    Some(
                        "the `!` operator can be applied to `bool` and integer types as a bitwise NOT"@,
                    ),
                    None,
                ),
            )
        }
    } else {
        Err(
            diagnostic(
                cx,
                ECode::MismatchedTypes,
                "invalid operator `"@ + op.0 + "`"@,
                op.1,
                None,
                None,
            ),
        )
    }
}

/// Whether a node is a block without statements.
pub open spec fn is_empty_block(node: NodeModel) -> bool {
    node.ast_repr matches AstModel::Block(stmts) && stmts.len() == 0
}

/// The type of an `if`. The condition must be boolean. Where one branch is
/// an empty block the other's type is the result; otherwise both branches
/// must have one type.
pub open spec fn if_type(
    cx: CheckContext,
    condition: TypeModel,
    then_type: TypeModel,
    else_type: TypeModel,
    then_empty: bool,
    else_empty: bool,
    span: Span,
) -> Result<TypeModel, ErrorModel> {
    if condition is Boolean {
        if then_empty {
            Ok(else_type)
        } else if else_empty {
            Ok(then_type)
        } else if then_type != else_type {
            Err(
                diagnostic(
                    cx,
                    ECode::MismatchedTypes,
                    "`if` and `else` bodies have mismatched types: `"@ + type_text(then_type)
                        + "`, `"@ + type_text(else_type) + "`"@,
                    span,
                    None,
                    None,
                ),
            )
        } else {
            Ok(then_type)
        }
    } else {
        Err(
            diagnostic(
                cx,
                ECode::MismatchedTypes,
                "expected `bool`, found `"@ + type_text(condition) + "`"@,
                span,
                None,
                None,
            ),
        )
    }
}

/// The scopes with one more symbol in the innermost.
pub open spec fn with_symbol(scopes: Scopes, symbol: SymbolModel) -> Scopes {
    scopes.update(scopes.len() - 1, scopes.last().push(symbol))
}

/// Declares a variable. The name must be neither in sight already nor the
/// name of a type, and a type annotation must be registered. Without an
/// annotation the variable takes `inferred`. With no scope to declare in,
/// nothing is recorded.
pub open spec fn declare(
    scopes: Scopes,
    cx: CheckContext,
    type_: (ParseTypeModel, Option<Span>),
    mutability: bool,
    name: (Seq<char>, Span),
    inferred: TypeModel,
    span: Span,
) -> (Result<TypeModel, ErrorModel>, Scopes) {
    if find(scopes, cx, name.0, span) is Ok {
        (
            Err(
                diagnostic(
                    cx,
                    ECode::MismatchedTypes,
                    "`"@ + name.0 + "` is already declared"@,
                    name.1,
                    None,
                    None,
                ),
            ),
            scopes,
        )
    } else if scopes.len() == 0 {
        (Ok(TypeModel::Unit), scopes)
    } else if cx.registry.contains_key(name.0) {
        (
            Err(
                diagnostic(
                    cx,
                    ECode::MismatchedTypes,
                    "`"@ + name.0 + "` is already registered as a type"@,
                    name.1,
                    None,
                    None,
                ),
            ),
            scopes,
        )
    } else {
        match type_.0 {
            ParseTypeModel::Determined(t) => if cx.registry.contains_key(t) {
                (
                    Ok(TypeModel::Unit),
                    with_symbol(
                        scopes,
                        SymbolModel { name: name.0, type_: cx.registry[t], mutability },
                    ),
                )
            } else {
                (
                    Err(
                        diagnostic(
                            cx,
                            ECode::MismatchedTypes,
                            "unregistered type `"@ + t + "`"@,
                            match type_.1 {
                                Some(s) => s,
                                None => span,
                            },
                            None,
                            None,
                        ),
                    ),
                    scopes,
                )
            },
            ParseTypeModel::Inferred => (
                Ok(TypeModel::Unit),
                with_symbol(scopes, SymbolModel { name: name.0, type_: inferred, mutability }),
            ),
        }
    }
}

/// The static type of a node, or the first diagnostic met, and the scopes
/// as checking leaves them.
pub open spec fn check_model(node: NodeModel, scopes: Scopes, cx: CheckContext) -> (
    Result<TypeModel, ErrorModel>,
    Scopes,
)
    decreases node, 1nat,
{
    match node.ast_repr {
        AstModel::IntLit(_) => (Ok(TypeModel::Int32), scopes),
        AstModel::FloatLit(_) => (Ok(TypeModel::Float64), scopes),
        AstModel::StringLit(_) => (Ok(TypeModel::String), scopes),
        AstModel::Bool(_) => (Ok(TypeModel::Boolean), scopes),
        AstModel::Identifier(name) => (find(scopes, cx, name, node.span), scopes),
        AstModel::BinOp { .. } => check_binary_model(node, scopes, cx),
        AstModel::UnaOp { operand, op } => {
            let (inner, s1) = check_model(*operand, scopes, cx);
            match inner {
                Err(e) => (Err(e), s1),
                Ok(t) => (unary_type(cx, op, t, node.span), s1),
            }
        },
        AstModel::If { .. } => check_if_model(node, scopes, cx),
        AstModel::Declaration { type_, mutability, name } => declare(
            scopes,
            cx,
            type_,
            mutability,
            name,
            TypeModel::Undetermined,
            node.span,
        ),
        AstModel::DeclarationWithValue { type_, mutability, name, value } => {
            let (value_result, s1) = check_model(*value, scopes, cx);
            match value_result {
                Err(e) => (Err(e), s1),
                Ok(value_type) => declare(s1, cx, type_, mutability, name, value_type, node.span),
            }
        },
        AstModel::Block(stmts) => check_block_model(stmts, 0, scopes, cx, TypeModel::Unit),
        AstModel::Statement(inner) => {
            let (result, s1) = check_model(*inner, scopes, cx);
            match result {
                Err(e) => (Err(e), s1),
                Ok(_) => (Ok(TypeModel::Unit), s1),
            }
        },
        AstModel::Mutation { name, value } => {
            let (value_result, s1) = check_model(*value, scopes, cx);
            match value_result {
                Err(e) => (Err(e), s1),
                Ok(value_type) => match mutate(s1, cx, name.0, node.span, value_type) {
                    Ok(_) => (Ok(TypeModel::Unit), s1),
                    Err(e) => (Err(e), s1),
                },
            }
        },
    }
}

/// A binary operation: the operands are checked left to right. `:=` wants
/// an identifier on its left and gives `Unit`; see `mutate` and
/// `binary_type` for the rest. (Of any other node: `Unit`.)
pub open spec fn check_binary_model(node: NodeModel, scopes: Scopes, cx: CheckContext) -> (
    Result<TypeModel, ErrorModel>,
    Scopes,
)
    decreases node, 0nat,
{
    match node.ast_repr {
        AstModel::BinOp { lhs, rhs, op } => {
            let (left, s1) = check_model(*lhs, scopes, cx);
            match left {
                Err(e) => (Err(e), s1),
                Ok(l) => {
                    let (right, s2) = check_model(*rhs, s1, cx);
                    match right {
                        Err(e) => (Err(e), s2),
                        Ok(r) => if op.0 == ":="@ {
                            match lhs.ast_repr {
                                AstModel::Identifier(name) => match mutate(
                                    s2,
                                    cx,
                                    name,
                                    node.span,
                                    r,
                                ) {
                                    Ok(_) => (Ok(TypeModel::Unit), s2),
                                    Err(e) => (Err(e), s2),
                                },
                                _ => (
                                    Err(
                                        diagnostic(
                                            cx,
                                            ECode::MutationError,
                                            "can only mutate variables"@,
                                            node.span,
                                            None,
                                            None,
                                        ),
                                    ),
                                    s2,
                                ),
                            }
                        } else {
                            (binary_type(cx, op, l, r, node.span), s2)
                        },
                    }
                },
            }
        },
        _ => (Ok(TypeModel::Unit), scopes),
    }
}

/// An `if`: its branches are checked before its condition; see `if_type`.
/// (Of any other node: `Unit`.)
pub open spec fn check_if_model(node: NodeModel, scopes: Scopes, cx: CheckContext) -> (
    Result<TypeModel, ErrorModel>,
    Scopes,
)
    decreases node, 0nat,
{
    match node.ast_repr {
        AstModel::If { condition, then_body, else_body } => {
            let (then_result, s1) = check_model(*then_body, scopes, cx);
            match then_result {
                Err(e) => (Err(e), s1),
                Ok(then_type) => {
                    let (else_result, s2) = check_model(*else_body, s1, cx);
                    match else_result {
                        Err(e) => (Err(e), s2),
                        Ok(else_type) => {
                            let (condition_result, s3) = check_model(*condition, s2, cx);
                            match condition_result {
                                Err(e) => (Err(e), s3),
                                Ok(condition_type) => (
                                    if_type(
                                        cx,
                                        condition_type,
                                        then_type,
                                        else_type,
                                        is_empty_block(*then_body),
                                        is_empty_block(*else_body),
                                        node.span,
                                    ),
                                    s3,
                                ),
                            }
                        },
                    }
                },
            }
        },
        _ => (Ok(TypeModel::Unit), scopes),
    }
}

/// The statements of a block from index `i` on, checked in order: the type
/// of the last one, or `last` if none is left.
pub open spec fn check_block_model(
    stmts: Seq<NodeModel>,
    i: nat,
    scopes: Scopes,
    cx: CheckContext,
    last: TypeModel,
) -> (Result<TypeModel, ErrorModel>, Scopes)
    decreases stmts, stmts.len() - i,
{
    if i >= stmts.len() {
        (Ok(last), scopes)
    } else {
        let (result, s1) = check_model(stmts[i as int], scopes, cx);
        match result {
            Err(e) => (Err(e), s1),
            Ok(t) => check_block_model(stmts, i + 1, s1, cx, t),
        }
    }
}

/// The diagnostics of a program's top-level nodes from index `i` on: each
/// node is checked whatever became of those before it.
pub open spec fn check_program_model(
    nodes: Seq<NodeModel>,
    i: nat,
    scopes: Scopes,
    cx: CheckContext,
) -> (Seq<ErrorModel>, Scopes)
    decreases nodes.len() - i,
{
    if i >= nodes.len() {
        (Seq::empty(), scopes)
    } else {
        let (result, s1) = check_model(nodes[i as int], scopes, cx);
        let (rest, s2) = check_program_model(nodes, i + 1, s1, cx);
        match result {
            Err(e) => (seq![e] + rest, s2),
            Ok(_) => (rest, s2),
        }
    }
}

/// The models of a stack of scopes.
pub open spec fn scopes_model(scopes: Seq<Vec<Symbol>>) -> Scopes {
    Seq::new(scopes.len(), |i: int| models(scopes[i]@))
}

/// A checked type or a diagnostic, as its model.
pub open spec fn outcome(r: Result<Type, Error>) -> Result<TypeModel, ErrorModel> {
    match r {
        Ok(t) => Ok(t@),
        Err(e) => Err(e@),
    }
}

pub open spec fn unit_outcome(r: Result<(), Error>) -> Result<(), ErrorModel> {
    match r {
        Ok(_) => Ok(()),
        Err(e) => Err(e@),
    }
}

/// The source, its path and the type names: what checking reads and never
/// changes.
pub struct Ambient {
    pub src: String,
    pub path: String,
    pub registry: TypeRegistry,
}

impl View for Ambient {
    type V = CheckContext;

    open spec fn view(&self) -> CheckContext {
        CheckContext { registry: self.registry@, src: self.src@, path: self.path@ }
    }
}

impl Ambient {
    fn error(
        &self,
        code: ECode,
        details: String,
        span: Span,
        note: Option<String>,
        help: Option<String>,
    ) -> (e: Error)
        ensures
            e@ == diagnostic(self@, code, details@, span, opt_text(note), opt_text(help)),
    {
        Error { code, details, span, src: self.src.clone(), path: self.path.clone(), note, help }
    }
}

proof fn lemma_visible_step(scopes: Scopes, i: int)
    requires
        0 < i <= scopes.len(),
    ensures
        visible(scopes.take(i)) == scopes[i - 1] + visible(scopes.take(i - 1)),
{
    assert(scopes.take(i).drop_last() =~= scopes.take(i - 1));
}

/// The symbols in sight, in lookup order.
fn visible_symbols(scopes: &Vec<Vec<Symbol>>) -> (r: Vec<Symbol>)
    ensures
        models(r@) == visible(scopes_model(scopes@)),
{
    let ghost sm = scopes_model(scopes@);
    let mut out: Vec<Symbol> = Vec::new();
    let mut i: usize = scopes.len();
    proof {
        assert(sm.take(i as int) =~= sm);
    }
    while i > 0
        invariant
            i <= scopes.len(),
            sm == scopes_model(scopes@),
            models(out@) + visible(sm.take(i as int)) == visible(sm),
        decreases i,
    {
        proof {
            lemma_visible_step(sm, i as int);
        }
        i = i - 1;
        let scope = &scopes[i];
        let ghost before = models(out@);
        let mut k: usize = 0;
        while k < scope.len()
            invariant
                k <= scope.len(),
                i < scopes.len(),
                scope == &scopes[i as int],
                sm == scopes_model(scopes@),
                models(out@) == before + sm[i as int].take(k as int),
            decreases scope.len() - k,
        {
            let ghost so_far = models(out@);
            out.push(scope[k].clone());
            assert(models(out@) =~= so_far.push(scope[k as int]@));
            k = k + 1;
        }
    }
    out
}

/// The index of the first symbol of that name.
fn position_of(symbols: &Vec<Symbol>, name: &str) -> (r: Option<usize>)
    ensures
        match r {
            Some(k) => k < symbols.len() && first_named(models(symbols@), name@, 0) == Some(
                symbols[k as int]@,
            ),
            None => first_named(models(symbols@), name@, 0) is None,
        },
{
    let mut i: usize = 0;
    while i < symbols.len()
        invariant
            i <= symbols.len(),
            first_named(models(symbols@), name@, 0) == first_named(models(symbols@), name@, i as int),
        decreases symbols.len() - i,
    {
        if same_text(symbols[i].name().as_str(), name) {
            return Some(i);
        }
        i = i + 1;
    }
    None
}

/// The name to suggest in place of `target`, if any comes close enough.
fn suggest(symbols: &Vec<Symbol>, target: &str) -> (r: Option<String>)
    ensures
        opt_text(r) == match best_match(models(symbols@), target@, symbols.len() as nat) {
            Some((name, _)) => Some(name),
            None => None,
        },
{
    let mut best: Option<usize> = None;
    let mut best_score: u64 = 0;
    let mut i: usize = 0;
    while i < symbols.len()
        invariant
            i <= symbols.len(),
            match best_match(models(symbols@), target@, i as nat) {
                Some((name, score)) => best is Some && best->0 < symbols.len() && symbols[best->0 as int]@.name
                    == name && best_score == score,
                None => best is None && best_score == 0,
            },
        decreases symbols.len() - i,
    {
        let score = similarity(target, symbols[i].name().as_str());
        if score >= SUGGESTION_THRESHOLD && score > best_score {
            best = Some(i);
            best_score = score;
        }
        i = i + 1;
    }
    match best {
        Some(k) => Some(symbols[k].name().clone()),
        None => None,
    }
}

fn undefined_error(ambient: &Ambient, symbols: &Vec<Symbol>, name: &str, span: Span) -> (e: Error)
    ensures
        e@ == undefined(ambient@, models(symbols@), name@, span),
{
    let help = match suggest(symbols, name) {
        Some(candidate) => Some(join3("did you mean: `", candidate.as_str(), "`?")),
        None => None,
    };
    ambient.error(
        ECode::UndefinedIdentifier,
        join3("cannot find `", name, "` in scope"),
        span,
        None,
        help,
    )
}

fn find_in(scopes: &Vec<Vec<Symbol>>, ambient: &Ambient, name: &str, span: Span) -> (r: Result<
    Type,
    Error,
>)
    ensures
        outcome(r) == find(scopes_model(scopes@), ambient@, name@, span),
{
    let symbols = visible_symbols(scopes);
    match position_of(&symbols, name) {
        Some(k) => Ok(symbols[k].type_().clone()),
        None => Err(undefined_error(ambient, &symbols, name, span)),
    }
}

fn mutate_in(
    scopes: &Vec<Vec<Symbol>>,
    ambient: &Ambient,
    name: &str,
    span: Span,
    new: &Type,
) -> (r: Result<(), Error>)
    ensures
        unit_outcome(r) == mutate(scopes_model(scopes@), ambient@, name@, span, new@),
{
    let symbols = visible_symbols(scopes);
    match position_of(&symbols, name) {
        Some(k) => {
            let symbol = &symbols[k];
            if symbol.mutability() {
                if !symbol.type_().same(new) {
                    let held = symbol.type_().to_string();
                    let given = new.to_string();
                    Err(
                        ambient.error(
                            ECode::MutationError,
                            join7(
                                "`",
                                name,
                                "` has type `",
                                held.as_str(),
                                "` but the new value has type `",
                                given.as_str(),
                                "`",
                            ),
                            span,
                            None,
                            None,
                        ),
                    )
                } else {
                    Ok(())
                }
            } else {
                Err(
                    ambient.error(
                        ECode::MutationError,
                        join3("cannot mutate immutable variable `", name, "`"),
                        span,
                        None,
                        None,
                    ),
                )
            }
        },
        None => Err(undefined_error(ambient, &symbols, name, span)),
    }
}

fn arithmetic_or_relational(op: &str) -> (r: bool)
    ensures
        r == is_arithmetic_or_relational(op@),
{
    same_text(op, "+") || same_text(op, "-") || same_text(op, "*") || same_text(op, "/")
        || same_text(op, ">") || same_text(op, "<") || same_text(op, ">=") || same_text(op, "<=")
}

fn mismatch_error(ambient: &Ambient, op: &str, left: &Type, right: &Type, span: Span) -> (e: Error)
    ensures
        e@ == operation_mismatch(ambient@, op@, left@, right@, span),
{
    let l = left.to_string();
    let r = right.to_string();
    ambient.error(
        ECode::MismatchedTypes,
        join7("cannot do `", op, "` operation on types `", l.as_str(), "`, `", r.as_str(), "`"),
        span,
        None,
        None,
    )
}

fn binary_type_of(ambient: &Ambient, op: &(String, Span), left: Type, right: Type, span: Span) -> (r:
    Result<Type, Error>)
    ensures
        outcome(r) == binary_type(ambient@, (op.0@, op.1), left@, right@, span),
{
    let text = op.0.as_str();
    if arithmetic_or_relational(text) {
        if left.same(&right) && left.is_numeric() {
            Ok(left)
        } else {
            Err(mismatch_error(ambient, text, &left, &right, span))
        }
    } else if same_text(text, "==") || same_text(text, "!=") {
        if left.same(&right) {
            Ok(left)
        } else {
            Err(mismatch_error(ambient, text, &left, &right, span))
        }
    } else if same_text(text, "++") {
        if left.same(&Type::String) && right.same(&Type::String) {
            Ok(Type::String)
        } else {
            let l = left.to_string();
            let r = right.to_string();
            Err(
                ambient.error(
                    ECode::MismatchedTypes,
                    join5("cannot concatenate types `", l.as_str(), "` and `", r.as_str(), "`"),
                    span,
                    None,
                    None,
                ),
            )
        }
    } else {
        Err(
            ambient.error(
                ECode::MismatchedTypes,
                join3("invalid operator - `", text, "`"),
                op.1,
                None,
                None,
            ),
        )
    }
}

fn unary_type_of(ambient: &Ambient, op: &(String, Span), operand: Type, span: Span) -> (r: Result<
    Type,
    Error,
>)
    ensures
        outcome(r) == unary_type(ambient@, (op.0@, op.1), operand@, span),
{
    let text = op.0.as_str();
    if same_text(text, "+") {
        if operand.is_numeric() {
            Ok(operand)
        } else {
            let t = operand.to_string();
            Err(
                ambient.error(
                    ECode::MismatchedTypes,
                    join3("cannot apply `+` to type `", t.as_str(), "`"),
                    span,
                    None,
                    None,
                ),
            )
        }
    } else if same_text(text, "-") {
        if operand.is_signed_int() || operand.is_float() {
            Ok(operand)
        } else if operand.is_unsigned_int() {
            Err(
                ambient.error(
                    ECode::MismatchedTypes,
                    "cannot negate unsigned integers".to_owned(),
                    span,
                    None,
                    None,
                ),
            )
        } else {
            let t = operand.to_string();
            Err(
                ambient.error(
                    ECode::MismatchedTypes,
                    join3("cannot negate type `", t.as_str(), "`"),
                    span,
                    None,
                    None,
                ),
            )
        }
    } else if same_text(text, "!") {
        if operand.same(&Type::Boolean) || operand.is_signed_int() || operand.is_unsigned_int() {
            Ok(operand)
        } else {
            let t = operand.to_string();
            Err(
                ambient.error(
                    ECode::MismatchedTypes,
                    join3("cannot apply `!` to type `", t.as_str(), "`"),
                    span,
                    Some(
                        "the `!` operator can be applied to `bool` and integer types as a bitwise NOT".to_owned(),
                    ),
                    None,
                ),
            )
        }
    } else {
        Err(
            ambient.error(
                ECode::MismatchedTypes,
                join3("invalid operator `", text, "`"),
                op.1,
                None,
                None,
            ),
        )
    }
}

fn empty_block(node: &Node) -> (r: bool)
    ensures
        r == is_empty_block(node@),
{
    match &node.ast_repr {
        ASTNode::Block(stmts) => stmts.len() == 0,
        _ => false,
    }
}

fn if_type_of(
    ambient: &Ambient,
    condition: Type,
    then_type: Type,
    else_type: Type,
    then_empty: bool,
    else_empty: bool,
    span: Span,
) -> (r: Result<Type, Error>)
    ensures
        outcome(r) == if_type(
            ambient@,
            condition@,
            then_type@,
            else_type@,
            then_empty,
            else_empty,
            span,
        ),
{
    if condition.same(&Type::Boolean) {
        if then_empty {
            Ok(else_type)
        } else if else_empty {
            Ok(then_type)
        } else if !then_type.same(&else_type) {
            let t = then_type.to_string();
            let e = else_type.to_string();
            Err(
                ambient.error(
                    ECode::MismatchedTypes,
                    join5(
                        "`if` and `else` bodies have mismatched types: `",
                        t.as_str(),
                        "`, `",
                        e.as_str(),
                        "`",
                    ),
                    span,
                    None,
                    None,
                ),
            )
        } else {
            Ok(then_type)
        }
    } else {
        let c = condition.to_string();
        Err(
            ambient.error(
                ECode::MismatchedTypes,
                join3("expected `bool`, found `", c.as_str(), "`"),
                span,
                None,
                None,
            ),
        )
    }
}

fn push_symbol(scopes: &mut Vec<Vec<Symbol>>, symbol: Symbol)
    requires
        old(scopes).len() > 0,
    ensures
        scopes_model(final(scopes)@) == with_symbol(scopes_model(old(scopes)@), symbol@),
{
    let mut top = scopes.pop().unwrap();
    top.push(symbol);
    scopes.push(top);
    assert(scopes_model(scopes@) =~= with_symbol(scopes_model(old(scopes)@), symbol@)) by {
        let n = old(scopes).len() - 1;
        assert forall|k: int| 0 <= k < scopes.len() implies scopes_model(scopes@)[k] == with_symbol(
            scopes_model(old(scopes)@),
            symbol@,
        )[k] by {}
    }
}

fn declare_in(
    scopes: &mut Vec<Vec<Symbol>>,
    ambient: &Ambient,
    type_: &(ParseType, Option<Span>),
    mutability: bool,
    name: &(String, Span),
    inferred: Type,
    span: Span,
) -> (r: Result<Type, Error>)
    ensures
        (outcome(r), scopes_model(final(scopes)@)) == declare(
            scopes_model(old(scopes)@),
            ambient@,
            (type_.0@, type_.1),
            mutability,
            (name.0@, name.1),
            inferred@,
            span,
        ),
{
    let declared = find_in(scopes, ambient, name.0.as_str(), span);
    if declared.is_ok() {
        return Err(
            ambient.error(
                ECode::MismatchedTypes,
                join3("`", name.0.as_str(), "` is already declared"),
                name.1,
                None,
                None,
            ),
        );
    }
    if scopes.len() == 0 {
        return Ok(Type::Unit);
    }
    if ambient.registry.is_registered(name.0.as_str()) {
        return Err(
            ambient.error(
                ECode::MismatchedTypes,
                join3("`", name.0.as_str(), "` is already registered as a type"),
                name.1,
                None,
                None,
            ),
        );
    }
    match &type_.0 {
        ParseType::Determined(t) => match ambient.registry.get(t.as_str()) {
            Some(found) => {
                push_symbol(
                    scopes,
                    Symbol::Variable { name: name.0.clone(), type_: found, mutability },
                );
                Ok(Type::Unit)
            },
            None => {
                let at = match type_.1 {
                    Some(s) => s,
                    None => span,
                };
                Err(
                    ambient.error(
                        ECode::MismatchedTypes,
                        join3("unregistered type `", t.as_str(), "`"),
                        at,
                        None,
                        None,
                    ),
                )
            },
        },
        ParseType::Inferred => {
            push_symbol(
                scopes,
                Symbol::Variable { name: name.0.clone(), type_: inferred, mutability },
            );
            Ok(Type::Unit)
        },
    }
}

fn check_in(scopes: &mut Vec<Vec<Symbol>>, ambient: &Ambient, node: &Node) -> (r: Result<
    Type,
    Error,
>)
    ensures
        (outcome(r), scopes_model(final(scopes)@)) == check_model(
            node@,
            scopes_model(old(scopes)@),
            ambient@,
        ),
    decreases node, 1nat,
{
    match &node.ast_repr {
        ASTNode::IntLit(_) => Ok(Type::Int32),
        ASTNode::FloatLit(_) => Ok(Type::Float64),
        ASTNode::StringLit(_) => Ok(Type::String),
        ASTNode::Bool(_) => Ok(Type::Boolean),
        ASTNode::Identifier(name) => find_in(scopes, ambient, name.as_str(), node.span),
        ASTNode::BinOp { .. } => check_binary(scopes, ambient, node),
        ASTNode::UnaOp { operand, op } => {
            match check_in(scopes, ambient, operand) {
                Ok(inner) => unary_type_of(ambient, op, inner, node.span),
                Err(e) => Err(e),
            }
        },
        ASTNode::If { .. } => check_if(scopes, ambient, node),
        ASTNode::Declaration { type_, mutability, name } => declare_in(
            scopes,
            ambient,
            type_,
            *mutability,
            name,
            Type::Undetermined,
            node.span,
        ),
        ASTNode::DeclarationWithValue { type_, mutability, name, value } => {
            match check_in(scopes, ambient, value) {
                Ok(value_type) => declare_in(
                    scopes,
                    ambient,
                    type_,
                    *mutability,
                    name,
                    value_type,
                    node.span,
                ),
                Err(e) => Err(e),
            }
        },
        ASTNode::Block(_) => check_block(scopes, ambient, node),
        ASTNode::Statement(inner) => {
            match check_in(scopes, ambient, inner) {
                Ok(_) => Ok(Type::Unit),
                Err(e) => Err(e),
            }
        },
        ASTNode::Mutation { name, value } => {
            match check_in(scopes, ambient, value) {
                Ok(value_type) => match mutate_in(
                    scopes,
                    ambient,
                    name.0.as_str(),
                    node.span,
                    &value_type,
                ) {
                    Ok(_) => Ok(Type::Unit),
                    Err(e) => Err(e),
                },
                Err(e) => Err(e),
            }
        },
    }
}

fn check_binary(scopes: &mut Vec<Vec<Symbol>>, ambient: &Ambient, node: &Node) -> (r: Result<
    Type,
    Error,
>)
    ensures
        (outcome(r), scopes_model(final(scopes)@)) == check_binary_model(
            node@,
            scopes_model(old(scopes)@),
            ambient@,
        ),
    decreases node, 0nat,
{
    match &node.ast_repr {
        ASTNode::BinOp { lhs, rhs, op } => {
            let left = match check_in(scopes, ambient, lhs) {
                Ok(t) => t,
                Err(e) => {
                    return Err(e);
                },
            };
            let right = match check_in(scopes, ambient, rhs) {
                Ok(t) => t,
                Err(e) => {
                    return Err(e);
                },
            };
            if same_text(op.0.as_str(), ":=") {
                match &lhs.ast_repr {
                    ASTNode::Identifier(name) => match mutate_in(
                        scopes,
                        ambient,
                        name.as_str(),
                        node.span,
                        &right,
                    ) {
                        Ok(_) => Ok(Type::Unit),
                        Err(e) => Err(e),
                    },
                    _ => Err(
                        ambient.error(
                            ECode::MutationError,
                            "can only mutate variables".to_owned(),
                            node.span,
                            None,
                            None,
                        ),
                    ),
                }
            } else {
                binary_type_of(ambient, op, left, right, node.span)
            }
        },
        _ => Ok(Type::Unit),
    }
}

fn check_if(scopes: &mut Vec<Vec<Symbol>>, ambient: &Ambient, node: &Node) -> (r: Result<
    Type,
    Error,
>)
    ensures
        (outcome(r), scopes_model(final(scopes)@)) == check_if_model(
            node@,
            scopes_model(old(scopes)@),
            ambient@,
        ),
    decreases node, 0nat,
{
    match &node.ast_repr {
        ASTNode::If { condition, then_body, else_body } => {
            let then_type = match check_in(scopes, ambient, then_body) {
                Ok(t) => t,
                Err(e) => {
                    return Err(e);
                },
            };
            let else_type = match check_in(scopes, ambient, else_body) {
                Ok(t) => t,
                Err(e) => {
                    return Err(e);
                },
            };
            let condition_type = match check_in(scopes, ambient, condition) {
                Ok(t) => t,
                Err(e) => {
                    return Err(e);
                },
            };
            if_type_of(
                ambient,
                condition_type,
                then_type,
                else_type,
                empty_block(then_body),
                empty_block(else_body),
                node.span,
            )
        },
        _ => Ok(Type::Unit),
    }
}

fn check_block(scopes: &mut Vec<Vec<Symbol>>, ambient: &Ambient, node: &Node) -> (r: Result<
    Type,
    Error,
>)
    requires
        node.ast_repr is Block,
    ensures
        (outcome(r), scopes_model(final(scopes)@)) == check_block_model(
            node@.ast_repr->Block_0,
            0,
            scopes_model(old(scopes)@),
            ambient@,
            TypeModel::Unit,
        ),
    decreases node, 0nat,
{
    match &node.ast_repr {
        ASTNode::Block(stmts) => {
            let ghost sm = node@.ast_repr->Block_0;
            let ghost start = scopes_model(scopes@);
            let mut last = Type::Unit;
            let mut i: usize = 0;
            while i < stmts.len()
                invariant
                    i <= stmts.len(),
                    node.ast_repr == ASTNode::Block(*stmts),
                    sm == node@.ast_repr->Block_0,
                    sm.len() == stmts.len(),
                    start == scopes_model(old(scopes)@),
                    forall|k: int| 0 <= k < stmts.len() ==> sm[k] == stmts[k]@,
                    check_block_model(sm, i as nat, scopes_model(scopes@), ambient@, last@)
                        == check_block_model(sm, 0, start, ambient@, TypeModel::Unit),
                decreases stmts.len() - i,
            {
                match check_in(scopes, ambient, &stmts[i]) {
                    Ok(t) => {
                        last = t;
                    },
                    Err(e) => {
                        return Err(e);
                    },
                }
                i = i + 1;
            }
            Ok(last)
        },
        _ => Ok(Type::Unit),
    }
}

/// The type checker of one program.
pub struct TypeChecker {
    module: Module,
    scopes: Vec<Vec<Symbol>>,
    ambient: Ambient,
}

impl TypeChecker {
    /// The stack of scopes, outermost first.
    pub closed spec fn scopes(&self) -> Scopes {
        scopes_model(self.scopes@)
    }

    /// The source, its path and the registered type names.
    pub closed spec fn context(&self) -> CheckContext {
        self.ambient@
    }

    /// The program under check.
    pub closed spec fn program(&self) -> Seq<NodeModel> {
        self.module@
    }

    /// A checker for the program, with one empty scope and the primitive
    /// type names.
    pub fn new(module: Module, src: String, path: String) -> (r: TypeChecker)
        ensures
            r.scopes() == seq![Seq::<SymbolModel>::empty()],
            r.context() == (CheckContext { registry: primitive_types(), src: src@, path: path@ }),
            r.program() == module@,
    {
        let mut scopes: Vec<Vec<Symbol>> = Vec::new();
        scopes.push(Vec::new());
        let r = TypeChecker {
            module,
            scopes,
            ambient: Ambient { src, path, registry: TypeRegistry::new() },
        };
        assert(r.scopes() =~= seq![Seq::<SymbolModel>::empty()]) by {
            assert(r.scopes()[0] =~= Seq::<SymbolModel>::empty());
        }
        r
    }

    /// Resolves a name from the innermost scope outward. On a miss the
    /// diagnostic suggests the closest name in sight, if one is close enough.
    pub fn find_identifier(&self, i: &String, span: Span) -> (r: Result<Type, Error>)
        ensures
            outcome(r) == find(self.scopes(), self.context(), i@, span),
    {
        find_in(&self.scopes, &self.ambient, i.as_str(), span)
    }

    /// Checks an assignment of a value of type `new` to the variable `i`.
    /// Nothing is changed.
    pub fn mutate_var(&mut self, i: &String, span: Span, new: Type) -> (r: Result<(), Error>)
        ensures
            unit_outcome(r) == mutate(old(self).scopes(), old(self).context(), i@, span, new@),
            final(self).scopes() == old(self).scopes(),
            final(self).context() == old(self).context(),
            final(self).program() == old(self).program(),
    {
        mutate_in(&self.scopes, &self.ambient, i.as_str(), span, &new)
    }

    /// Checks every top-level node in order and gathers the diagnostics.
    pub fn check(&mut self) -> (errors: Vec<Error>)
        ensures
            (models(errors@), final(self).scopes()) == check_program_model(
                old(self).program(),
                0,
                old(self).scopes(),
                old(self).context(),
            ),
            final(self).context() == old(self).context(),
            final(self).program() == old(self).program(),
    {
        let ghost nodes = self.module@;
        let ghost cx = self.ambient@;
        let ghost total = check_program_model(nodes, 0, self.scopes(), cx);
        let mut errors: Vec<Error> = Vec::new();
        let mut i: usize = 0;
        while i < self.module.0.len()
            invariant
                i <= self.module.0.len(),
                self.module == old(self).module,
                self.ambient == old(self).ambient,
                nodes == self.module@,
                cx == self.ambient@,
                models(errors@) + check_program_model(nodes, i as nat, self.scopes(), cx).0
                    == total.0,
                check_program_model(nodes, i as nat, self.scopes(), cx).1 == total.1,
            decreases self.module.0.len() - i,
        {
            let result = check_in(&mut self.scopes, &self.ambient, &self.module.0[i]);
            match result {
                Ok(_) => {},
                Err(e) => {
                    errors.push(e);
                },
            }
            i = i + 1;
        }
        errors
    }

    /// Checks one node: its static type, or the first diagnostic met.
    pub fn check_node(&mut self, node: Node) -> (r: Result<Type, Error>)
        ensures
            (outcome(r), final(self).scopes()) == check_model(
                node@,
                old(self).scopes(),
                old(self).context(),
            ),
            final(self).context() == old(self).context(),
            final(self).program() == old(self).program(),
    {
        check_in(&mut self.scopes, &self.ambient, &node)
    }
}

/// Whether the symbols in sight are sound: no two have one name, and none
/// has the name of a registered type.
pub open spec fn scopes_sound(scopes: Scopes, cx: CheckContext) -> bool {
    let symbols = visible(scopes);
    &&& forall|i: int, j: int|
        0 <= i < symbols.len() && 0 <= j < symbols.len() && i != j ==> symbols[i].name
            != symbols[j].name
    &&& forall|i: int| 0 <= i < symbols.len() ==> !cx.registry.contains_key(symbols[i].name)
}

proof fn lemma_first_named_none(symbols: Seq<SymbolModel>, name: Seq<char>, from: int)
    requires
        0 <= from,
        first_named(symbols, name, from) is None,
    ensures
        forall|i: int| from <= i < symbols.len() ==> symbols[i].name != name,
    decreases symbols.len() - from,
{
    if from < symbols.len() {
        lemma_first_named_none(symbols, name, from + 1);
    }
}

proof fn lemma_visible_with_symbol(scopes: Scopes, symbol: SymbolModel)
    requires
        scopes.len() > 0,
    ensures
        visible(with_symbol(scopes, symbol)) == scopes.last().push(symbol) + visible(
            scopes.drop_last(),
        ),
        visible(scopes) == scopes.last() + visible(scopes.drop_last()),
{
    let after = with_symbol(scopes, symbol);
    assert(after.drop_last() =~= scopes.drop_last());
}

proof fn lemma_declare_sound(
    scopes: Scopes,
    cx: CheckContext,
    type_: (ParseTypeModel, Option<Span>),
    mutability: bool,
    name: (Seq<char>, Span),
    inferred: TypeModel,
    span: Span,
)
    requires
        scopes_sound(scopes, cx),
    ensures
        scopes_sound(declare(scopes, cx, type_, mutability, name, inferred, span).1, cx),
{
    let after = declare(scopes, cx, type_, mutability, name, inferred, span).1;
    if after != scopes {
        let symbol = choose|symbol: SymbolModel|
            after == with_symbol(scopes, symbol) && symbol.name == name.0;
        lemma_first_named_none(visible(scopes), name.0, 0);
        lemma_visible_with_symbol(scopes, symbol);
        let old_symbols = visible(scopes);
        let new_symbols = visible(after);
        let top = scopes.last();
        assert forall|i: int| 0 <= i < new_symbols.len() implies (if i < top.len() {
            new_symbols[i] == old_symbols[i]
        } else if i == top.len() {
            new_symbols[i] == symbol
        } else {
            new_symbols[i] == old_symbols[i - 1]
        }) by {}
    }
}

proof fn lemma_check_sound(node: NodeModel, scopes: Scopes, cx: CheckContext)
    requires
        scopes_sound(scopes, cx),
    ensures
        scopes_sound(check_model(node, scopes, cx).1, cx),
    decreases node, 1nat,
{
    match node.ast_repr {
        AstModel::BinOp { .. } => {
            lemma_check_binary_sound(node, scopes, cx);
        },
        AstModel::UnaOp { operand, op } => {
            lemma_check_sound(*operand, scopes, cx);
        },
        AstModel::If { .. } => {
            lemma_check_if_sound(node, scopes, cx);
        },
        AstModel::Declaration { type_, mutability, name } => {
            lemma_declare_sound(
                scopes,
                cx,
                type_,
                mutability,
                name,
                TypeModel::Undetermined,
                node.span,
            );
        },
        AstModel::DeclarationWithValue { type_, mutability, name, value } => {
            lemma_check_sound(*value, scopes, cx);
            let (value_result, s1) = check_model(*value, scopes, cx);
            match value_result {
                Ok(value_type) => {
                    lemma_declare_sound(s1, cx, type_, mutability, name, value_type, node.span);
                },
                Err(_) => {},
            }
        },
        AstModel::Block(stmts) => {
            lemma_check_block_sound(stmts, 0, scopes, cx, TypeModel::Unit);
        },
        AstModel::Statement(inner) => {
            lemma_check_sound(*inner, scopes, cx);
        },
        AstModel::Mutation { name, value } => {
            lemma_check_sound(*value, scopes, cx);
        },
        _ => {},
    }
}

proof fn lemma_check_binary_sound(node: NodeModel, scopes: Scopes, cx: CheckContext)
    requires
        scopes_sound(scopes, cx),
    ensures
        scopes_sound(check_binary_model(node, scopes, cx).1, cx),
    decreases node, 0nat,
{
    match node.ast_repr {
        AstModel::BinOp { lhs, rhs, op } => {
            lemma_check_sound(*lhs, scopes, cx);
            let (left, s1) = check_model(*lhs, scopes, cx);
            if left is Ok {
                lemma_check_sound(*rhs, s1, cx);
            }
        },
        _ => {},
    }
}

proof fn lemma_check_if_sound(node: NodeModel, scopes: Scopes, cx: CheckContext)
    requires
        scopes_sound(scopes, cx),
    ensures
        scopes_sound(check_if_model(node, scopes, cx).1, cx),
    decreases node, 0nat,
{
    match node.ast_repr {
        AstModel::If { condition, then_body, else_body } => {
            lemma_check_sound(*then_body, scopes, cx);
            let (then_result, s1) = check_model(*then_body, scopes, cx);
            if then_result is Ok {
                lemma_check_sound(*else_body, s1, cx);
                let (else_result, s2) = check_model(*else_body, s1, cx);
                if else_result is Ok {
                    lemma_check_sound(*condition, s2, cx);
                }
            }
        },
        _ => {},
    }
}

proof fn lemma_check_block_sound(
    stmts: Seq<NodeModel>,
    i: nat,
    scopes: Scopes,
    cx: CheckContext,
    last: TypeModel,
)
    requires
        scopes_sound(scopes, cx),
    ensures
        scopes_sound(check_block_model(stmts, i, scopes, cx, last).1, cx),
    decreases stmts, stmts.len() - i,
{
    if i < stmts.len() {
        lemma_check_sound(stmts[i as int], scopes, cx);
        let (result, s1) = check_model(stmts[i as int], scopes, cx);
        match result {
            Ok(t) => {
                lemma_check_block_sound(stmts, i + 1, s1, cx, t);
            },
            Err(_) => {},
        }
    }
}

/// Checking keeps the symbols sound: where no two symbols in sight have
/// one name and none has the name of a registered type, the same holds
/// once a node has been checked, whether checking succeeded or not.
pub proof fn lemma_checking_keeps_scopes_sound(node: NodeModel, scopes: Scopes, cx: CheckContext)
    requires
        scopes_sound(scopes, cx),
    ensures
        scopes_sound(check_model(node, scopes, cx).1, cx),
{
    lemma_check_sound(node, scopes, cx);
}

/// Checking a program keeps the symbols sound.
pub proof fn lemma_program_keeps_scopes_sound(
    nodes: Seq<NodeModel>,
    i: nat,
    scopes: Scopes,
    cx: CheckContext,
)
    requires
        scopes_sound(scopes, cx),
    ensures
        scopes_sound(check_program_model(nodes, i, scopes, cx).1, cx),
    decreases nodes.len() - i,
{
    if i < nodes.len() {
        lemma_check_sound(nodes[i as int], scopes, cx);
        lemma_program_keeps_scopes_sound(nodes, i + 1, check_model(nodes[i as int], scopes, cx).1, cx);
    }
}
} // verus!
