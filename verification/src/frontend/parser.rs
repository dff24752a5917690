//! The syntax tree and the parser that builds it.

use super::lexer::{kind_error_text, token_text, Token, TokenModel, TokenType};
use crate::global::{
    binding_power, prec, ECode, Error, ErrorModel, ParseType, ParseTypeModel, Span,
};
use crate::text::{i64_of_text, join2, join3, join4, models, parse_i64, same_text};
use vstd::prelude::*;

verus! {
/// The forms of the syntax tree. A float literal keeps its text.
#[derive(Debug, PartialEq)]
pub enum ASTNode {
    IntLit(i64),
    FloatLit(String),
    StringLit(String),
    Bool(bool),
    Identifier(String),
    BinOp { lhs: Box<Node>, rhs: Box<Node>, op: (String, Span) },
    UnaOp { operand: Box<Node>, op: (String, Span) },
    If { condition: Box<Node>, then_body: Box<Node>, else_body: Box<Node> },
    Declaration { type_: (ParseType, Option<Span>), mutability: bool, name: (String, Span) },
    DeclarationWithValue {
        type_: (ParseType, Option<Span>),
        mutability: bool,
        name: (String, Span),
        value: Box<Node>,
    },
    Block(Vec<Node>),
    Statement(Box<Node>),
    Mutation { name: (String, Span), value: Box<Node> },
}

/// A node of the syntax tree, with the region of source it covers.
#[derive(Debug, PartialEq)]
pub struct Node {
    pub ast_repr: ASTNode,
    pub span: Span,
}

pub enum AstModel {
    IntLit(i64),
    FloatLit(Seq<char>),
    StringLit(Seq<char>),
    Bool(bool),
    Identifier(Seq<char>),
    BinOp { lhs: Box<NodeModel>, rhs: Box<NodeModel>, op: (Seq<char>, Span) },
    UnaOp { operand: Box<NodeModel>, op: (Seq<char>, Span) },
    If { condition: Box<NodeModel>, then_body: Box<NodeModel>, else_body: Box<NodeModel> },
    Declaration { type_: (ParseTypeModel, Option<Span>), mutability: bool, name: (Seq<char>, Span) },
    DeclarationWithValue {
        type_: (ParseTypeModel, Option<Span>),
        mutability: bool,
        name: (Seq<char>, Span),
        value: Box<NodeModel>,
    },
    Block(Seq<NodeModel>),
    Statement(Box<NodeModel>),
    Mutation { name: (Seq<char>, Span), value: Box<NodeModel> },
}

pub struct NodeModel {
    pub ast_repr: AstModel,
    pub span: Span,
}

pub open spec fn ast_model(a: ASTNode) -> AstModel
    decreases a,
{
    match a {
        ASTNode::IntLit(i) => AstModel::IntLit(i),
        ASTNode::FloatLit(s) => AstModel::FloatLit(s@),
        ASTNode::StringLit(s) => AstModel::StringLit(s@),
        ASTNode::Bool(b) => AstModel::Bool(b),
        ASTNode::Identifier(s) => AstModel::Identifier(s@),
        ASTNode::BinOp { lhs, rhs, op } => AstModel::BinOp {
            lhs: Box::new(node_model(*lhs)),
            rhs: Box::new(node_model(*rhs)),
            op: (op.0@, op.1),
        },
        ASTNode::UnaOp { operand, op } => AstModel::UnaOp {
            operand: Box::new(node_model(*operand)),
            op: (op.0@, op.1),
        },
        ASTNode::If { condition, then_body, else_body } => AstModel::If {
            condition: Box::new(node_model(*condition)),
            then_body: Box::new(node_model(*then_body)),
            else_body: Box::new(node_model(*else_body)),
        },
        ASTNode::Declaration { type_, mutability, name } => AstModel::Declaration {
            type_: (type_.0@, type_.1),
            mutability,
            name: (name.0@, name.1),
        },
        ASTNode::DeclarationWithValue { type_, mutability, name, value } => {
            AstModel::DeclarationWithValue {
                type_: (type_.0@, type_.1),
                mutability,
                name: (name.0@, name.1),
                value: Box::new(node_model(*value)),
            }
        },
        ASTNode::Block(v) => AstModel::Block(
            Seq::new(
                v.len() as nat,
                |i: int|
                    if 0 <= i < v.len() {
                        node_model(v[i])
                    } else {
                        arbitrary()
                    },
            ),
        ),
        ASTNode::Statement(inner) => AstModel::Statement(Box::new(node_model(*inner))),
        ASTNode::Mutation { name, value } => AstModel::Mutation {
            name: (name.0@, name.1),
            value: Box::new(node_model(*value)),
        },
    }
}

pub open spec fn node_model(n: Node) -> NodeModel
    decreases n,
{
    NodeModel { ast_repr: ast_model(n.ast_repr), span: n.span }
}

impl View for ASTNode {
    type V = AstModel;

    open spec fn view(&self) -> AstModel {
        ast_model(*self)
    }
}

impl View for Node {
    type V = NodeModel;

    open spec fn view(&self) -> NodeModel {
        node_model(*self)
    }
}

/// A parsed program: its top-level nodes, in order.
#[derive(Debug, PartialEq)]
pub struct Module(pub Vec<Node>);

impl View for Module {
    type V = Seq<NodeModel>;

    open spec fn view(&self) -> Seq<NodeModel> {
        crate::text::models(self.0@)
    }
}

fn clone_type(t: &(ParseType, Option<Span>)) -> (r: (ParseType, Option<Span>))
    ensures
        r.0@ == t.0@,
        r.1 == t.1,
{
    (t.0.clone(), t.1)
}

fn clone_name(t: &(String, Span)) -> (r: (String, Span))
    ensures
        r.0@ == t.0@,
        r.1 == t.1,
{
    (t.0.clone(), t.1)
}

impl Node {
    /// A copy of the node and of all below it.
    pub fn duplicate(&self) -> (r: Node)
        ensures
            r@ == self@,
        decreases self,
    {
        let repr = match &self.ast_repr {
            ASTNode::IntLit(i) => ASTNode::IntLit(*i),
            ASTNode::FloatLit(s) => ASTNode::FloatLit(s.clone()),
            ASTNode::StringLit(s) => ASTNode::StringLit(s.clone()),
            ASTNode::Bool(b) => ASTNode::Bool(*b),
            ASTNode::Identifier(s) => ASTNode::Identifier(s.clone()),
            ASTNode::BinOp { lhs, rhs, op } => ASTNode::BinOp {
                lhs: Box::new(lhs.duplicate()),
                rhs: Box::new(rhs.duplicate()),
                op: clone_name(op),
            },
            ASTNode::UnaOp { operand, op } => ASTNode::UnaOp {
                operand: Box::new(operand.duplicate()),
                op: clone_name(op),
            },
            ASTNode::If { condition, then_body, else_body } => ASTNode::If {
                condition: Box::new(condition.duplicate()),
                then_body: Box::new(then_body.duplicate()),
                else_body: Box::new(else_body.duplicate()),
            },
            ASTNode::Declaration { type_, mutability, name } => ASTNode::Declaration {
                type_: clone_type(type_),
                mutability: *mutability,
                name: clone_name(name),
            },
            ASTNode::DeclarationWithValue { type_, mutability, name, value } => {
                ASTNode::DeclarationWithValue {
                    type_: clone_type(type_),
                    mutability: *mutability,
                    name: clone_name(name),
                    value: Box::new(value.duplicate()),
                }
            },
            ASTNode::Block(v) => {
                let mut out: Vec<Node> = Vec::new();
                let mut i: usize = 0;
                while i < v.len()
                    invariant
                        i <= v.len(),
                        self.ast_repr == ASTNode::Block(*v),
                        out.len() == i,
                        forall|k: int| 0 <= k < i ==> out[k]@ == v[k]@,
                    decreases v.len() - i,
                {
                    proof {
                        assert(decreases_to!(self.ast_repr => self.ast_repr->Block_0));
                    }
                    let item = v[i].duplicate();
                    out.push(item);
                    i = i + 1;
                }
                assert(ASTNode::Block(out)@->Block_0 =~= ASTNode::Block(*v)@->Block_0);
                ASTNode::Block(out)
            },
            ASTNode::Statement(inner) => ASTNode::Statement(Box::new(inner.duplicate())),
            ASTNode::Mutation { name, value } => ASTNode::Mutation {
                name: clone_name(name),
                value: Box::new(value.duplicate()),
            },
        };
        Node { ast_repr: repr, span: self.span }
    }
}

impl Clone for Node {
    fn clone(&self) -> (r: Node)
        ensures
            r@ == self@,
    {
        self.duplicate()
    }
}

impl Clone for Module {
    fn clone(&self) -> (r: Module)
        ensures
            r@ == self@,
    {
        let mut out: Vec<Node> = Vec::new();
        let mut i: usize = 0;
        while i < self.0.len()
            invariant
                i <= self.0.len(),
                out.len() == i,
                forall|k: int| 0 <= k < i ==> out[k]@ == self.0[k]@,
            decreases self.0.len() - i,
        {
            out.push(self.0[i].duplicate());
            i = i + 1;
        }
        Module(out)
    }
}

/// What a parse reads: the tokens, and the source and path that its
/// diagnostics quote.
pub struct ParseContext {
    pub tokens: Seq<TokenModel>,
    pub src: Seq<char>,
    pub path: Seq<char>,
}

/// A node or a diagnostic, and the position that the parser is left at.
pub type Parsed = (Result<NodeModel, ErrorModel>, int);

/// A diagnostic of the parsed source.
pub open spec fn parse_error(
    cx: ParseContext,
    code: ECode,
    details: Seq<char>,
    span: Span,
    help: Option<Seq<char>>,
) -> ErrorModel {
    ErrorModel { code, details, span, src: cx.src, path: cx.path, note: None, help }
}

/// Whether the token at `pos` exists and has the kind given.
pub open spec fn kind_at(cx: ParseContext, pos: int, kind: TokenType) -> bool {
    0 <= pos < cx.tokens.len() && cx.tokens[pos].token_type == kind
}

/// The span that stands for position `pos`: that of the token there, or of
/// the last token when `pos` lies past the end; all zeros when there is no
/// token at all.
pub open spec fn eof_span(cx: ParseContext, pos: int) -> Span {
    if cx.tokens.len() == 0 {
        Span { line: 0, column: 0, start_pos: 0, end_pos: 0 }
    } else if 0 <= pos < cx.tokens.len() {
        cx.tokens[pos].span
    } else {
        cx.tokens[cx.tokens.len() - 1].span
    }
}

/// The span that begins where `first` begins and ends at `end_pos`.
pub open spec fn span_until(first: Span, end_pos: usize) -> Span {
    Span { line: first.line, column: first.column, start_pos: first.start_pos, end_pos }
}

/// Takes a token of the kind given: the token and the next position, or the
/// diagnostic and the position unchanged. `comma` tells the two wordings of
/// the diagnostic apart.
pub open spec fn expect_model(cx: ParseContext, pos: int, kind: TokenType, comma: bool) -> (
    Result<TokenModel, ErrorModel>,
    int,
) {
    if 0 <= pos < cx.tokens.len() {
        let token = cx.tokens[pos];
        if token.token_type == kind {
            (Ok(token), pos + 1)
        } else {
            (
                Err(
                    parse_error(
                        cx,
                        ECode::ExpectedToken,
                        "expected "@ + kind_error_text(kind) + (if comma {
                            ", found "@
                        } else {
                            " found "@
                        }) + token_text(token),
                        token.span,
                        None,
                    ),
                ),
                pos,
            )
        }
    } else {
        (
            Err(
                parse_error(
                    cx,
                    ECode::UnexpectedEOF,
                    "unexpected end of input, expected "@ + kind_error_text(kind),
                    eof_span(cx, pos),
                    None,
                ),
            ),
            pos,
        )
    }
}

/// The binary operator at `pos`, if a token there is one: an operator or
/// `:=` with binding powers. Its text, its span and its powers.
pub open spec fn binary_operator_at(cx: ParseContext, pos: int) -> Option<
    (Seq<char>, Span, i32, i32),
> {
    if kind_at(cx, pos, TokenType::ColonEquals) || kind_at(cx, pos, TokenType::Operator) {
        match binding_power(cx.tokens[pos].lexeme) {
            Some((lbp, rbp)) => Some((cx.tokens[pos].lexeme, cx.tokens[pos].span, lbp, rbp)),
            None => None,
        }
    } else {
        None
    }
}

// The models below define one another. Where one goes on after a part has
// been parsed, it first compares the position reached with the one it began
// at: this makes the definitions well founded. The comparison always holds:
// see `lemma_parses_move_on`.

/// A statement: an expression, wrapped in `Statement` where a semicolon
/// follows it, which is then taken too.
pub open spec fn parse_statement_model(cx: ParseContext, pos: int) -> Parsed
    decreases cx.tokens.len() - pos, 6nat,
{
    let (result, p1) = parse_expression_model(cx, pos, 0);
    match result {
        Err(e) => (Err(e), p1),
        Ok(node) => if kind_at(cx, p1, TokenType::Semicolon) {
            (
                Ok(
                    NodeModel {
                        ast_repr: AstModel::Statement(Box::new(node)),
                        span: span_until(node.span, cx.tokens[p1].span.end_pos),
                    },
                ),
                p1 + 1,
            )
        } else {
            (Ok(node), p1)
        },
    }
}

/// An expression whose binary operators bind at least as tightly as
/// `min_bp`: a prefix, then operators and their right-hand sides.
pub open spec fn parse_expression_model(cx: ParseContext, pos: int, min_bp: i32) -> Parsed
    decreases cx.tokens.len() - pos, 5nat,
{
    if !(0 <= pos < cx.tokens.len()) {
        (
            Err(
                parse_error(
                    cx,
                    ECode::UnexpectedEOF,
                    "unexpected end of input"@,
                    eof_span(cx, pos),
                    None,
                ),
            ),
            pos,
        )
    } else {
        let (first, p1) = nud_model(cx, pos);
        match first {
            Err(e) => (Err(e), p1),
            Ok(left) => if pos < p1 <= cx.tokens.len() {
                binary_loop_model(cx, p1, min_bp, left, cx.tokens[pos].span)
            } else {
                (Ok(left), p1)
            },
        }
    }
}

/// The operators after a left operand that began at `first`: while the
/// token at `pos` is a binary operator binding at least as tightly as
/// `min_bp`, it joins `left` to the expression on its right, parsed at the
/// operator's right binding power.
pub open spec fn binary_loop_model(
    cx: ParseContext,
    pos: int,
    min_bp: i32,
    left: NodeModel,
    first: Span,
) -> Parsed
    decreases cx.tokens.len() - pos, 0nat,
{
    match binary_operator_at(cx, pos) {
        Some((op, op_span, lbp, rbp)) => if lbp < min_bp {
            (Ok(left), pos)
        } else {
            let (right, p1) = parse_expression_model(cx, pos + 1, rbp);
            match right {
                Err(e) => (Err(e), p1),
                Ok(r) => {
                    let joined = NodeModel {
                        ast_repr: AstModel::BinOp {
                            lhs: Box::new(left),
                            rhs: Box::new(r),
                            op: (op, op_span),
                        },
                        span: span_until(first, r.span.end_pos),
                    };
                    if pos < p1 <= cx.tokens.len() {
                        binary_loop_model(cx, p1, min_bp, joined, first)
                    } else {
                        (Ok(joined), p1)
                    }
                },
            }
        },
        None => (Ok(left), pos),
    }
}

/// What a token that begins nothing longer than itself parses to: a
/// literal or an identifier; a diagnostic for a keyword other than `if`,
/// for punctuation that begins no expression, and for a number or boolean
/// token whose text is none. `None` for the tokens that begin more: `(`,
/// an operator, `if` and `{`.
pub open spec fn atom_model(cx: ParseContext, pos: int) -> Option<Parsed> {
    let token = cx.tokens[pos];
    match token.token_type {
        TokenType::Int => match i64_of_text(token.lexeme) {
            Some(v) => Some(
                (Ok(NodeModel { ast_repr: AstModel::IntLit(v), span: token.span }), pos + 1),
            ),
            None => Some((Err(unexpected_token(cx, pos)), pos)),
        },
        TokenType::Float => Some(
            (Ok(NodeModel { ast_repr: AstModel::FloatLit(token.lexeme), span: token.span }), pos + 1),
        ),
        TokenType::String => Some(
            (
                Ok(NodeModel { ast_repr: AstModel::StringLit(token.lexeme), span: token.span }),
                pos + 1,
            ),
        ),
        TokenType::Bool => if token.lexeme == "true"@ {
            Some((Ok(NodeModel { ast_repr: AstModel::Bool(true), span: token.span }), pos + 1))
        } else if token.lexeme == "false"@ {
            Some((Ok(NodeModel { ast_repr: AstModel::Bool(false), span: token.span }), pos + 1))
        } else {
            Some((Err(unexpected_token(cx, pos)), pos))
        },
        TokenType::Identifier => Some(
            (
                Ok(NodeModel { ast_repr: AstModel::Identifier(token.lexeme), span: token.span }),
                pos + 1,
            ),
        ),
        TokenType::LParen => None,
        TokenType::Operator => None,
        TokenType::Keyword => if token.lexeme == "if"@ {
            None
        } else {
            Some(
                (
                    Err(
                        parse_error(
                            cx,
                            ECode::UnexpectedToken,
                            "invalid keyword `"@ + token.lexeme + "`"@,
                            token.span,
                            if token.lexeme == "else"@ {
                                Some("add a `if` clause before the `else` clause"@)
                            } else {
                                None
                            },
                        ),
                    ),
                    pos,
                ),
            )
        },
        TokenType::LBrace => None,
        _ => Some((Err(unexpected_token(cx, pos)), pos)),
    }
}

/// A prefix: a mutation or a declaration where one parses, tried in that
/// order and without a trace where it does not; else what the token at
/// `pos` begins: an atom, an expression between parentheses, a unary
/// operator and its operand, an `if`, or a block.
pub open spec fn nud_model(cx: ParseContext, pos: int) -> Parsed
    decreases cx.tokens.len() - pos, 4nat,
{
    match try_mutation_model(cx, pos) {
        Some((node, p)) => (Ok(node), p),
        None => match try_var_decl_model(cx, pos) {
            Some((node, p)) => (Ok(node), p),
            None => if 0 <= pos < cx.tokens.len() {
                match atom_model(cx, pos) {
                    Some(parsed) => parsed,
                    None => compound_model(cx, pos),
                }
            } else {
                (
                    Err(
                        parse_error(
                            cx,
                            ECode::UnexpectedEOF,
                            "unexpected end of input, expected expression"@,
                            eof_span(cx, pos),
                            None,
                        ),
                    ),
                    pos,
                )
            },
        },
    }
}

/// What the token at `pos` begins where it is `(`, an operator, `if` or
/// `{`. (At any other token: the diagnostic for an unexpected token.)
pub open spec fn compound_model(cx: ParseContext, pos: int) -> Parsed
    decreases cx.tokens.len() - pos, 3nat,
{
    if !(0 <= pos < cx.tokens.len()) {
        (Err(unexpected_token(cx, pos)), pos)
    } else {
        let token = cx.tokens[pos];
        match token.token_type {
            TokenType::LParen => {
                let (inner, p1) = parse_expression_model(cx, pos + 1, 0);
                match inner {
                    Err(e) => (Err(e), p1),
                    Ok(node) => match expect_model(cx, p1, TokenType::RParen, false) {
                        (Ok(_), p2) => (Ok(node), p2),
                        (Err(e), p2) => (Err(e), p2),
                    },
                }
            },
            TokenType::Operator => {
                let (inner, p1) = nud_model(cx, pos + 1);
                match inner {
                    Err(e) => (Err(e), p1),
                    Ok(operand) => (
                        Ok(
                            NodeModel {
                                ast_repr: AstModel::UnaOp {
                                    operand: Box::new(operand),
                                    op: (token.lexeme, token.span),
                                },
                                span: span_until(token.span, operand.span.end_pos),
                            },
                        ),
                        p1,
                    ),
                }
            },
            TokenType::Keyword => parse_if_model(cx, pos),
            TokenType::LBrace => parse_block_model(cx, pos),
            _ => (Err(unexpected_token(cx, pos)), pos),
        }
    }
}

/// The diagnostic for a token that begins no expression.
pub open spec fn unexpected_token(cx: ParseContext, pos: int) -> ErrorModel {
    parse_error(
        cx,
        ECode::UnexpectedToken,
        "unexpected token "@ + token_text(cx.tokens[pos]),
        eof_span(cx, pos),
        None,
    )
}

/// A mutation, `identifier = expression`, where one stands at `pos`.
pub open spec fn try_mutation_model(cx: ParseContext, pos: int) -> Option<(NodeModel, int)>
    decreases cx.tokens.len() - pos, 3nat,
{
    if kind_at(cx, pos, TokenType::Identifier) && kind_at(cx, pos + 1, TokenType::Equals) {
        let name = cx.tokens[pos];
        let (value, p1) = parse_expression_model(cx, pos + 2, 0);
        match value {
            Err(_) => None,
            Ok(v) => Some(
                (
                    NodeModel {
                        ast_repr: AstModel::Mutation {
                            name: (name.lexeme, name.span),
                            value: Box::new(v),
                        },
                        span: span_until(name.span, v.span.end_pos),
                    },
                    p1,
                ),
            ),
        }
    } else {
        None
    }
}

/// Whether the token at `pos` is the keyword `mut`.
pub open spec fn mut_at(cx: ParseContext, pos: int) -> bool {
    kind_at(cx, pos, TokenType::Keyword) && cx.tokens[pos].lexeme == "mut"@
}

/// A declaration, `[mut] identifier [: type] [:= expression]`, where one
/// stands at `pos`. An identifier that an operator follows is none. The
/// node's span is that of the first token, stretched to the colon where
/// there is one; the annotation carries the colon's span.
pub open spec fn try_var_decl_model(cx: ParseContext, pos: int) -> Option<(NodeModel, int)>
    decreases cx.tokens.len() - pos, 3nat,
{
    if !(0 <= pos < cx.tokens.len()) {
        None
    } else {
        let mutability = mut_at(cx, pos);
        let p0 = if mutability {
            pos + 1
        } else {
            pos
        };
        if !kind_at(cx, p0, TokenType::Identifier) || kind_at(cx, p0 + 1, TokenType::Operator) {
            None
        } else {
            let name = (cx.tokens[p0].lexeme, cx.tokens[p0].span);
            let annotated = kind_at(cx, p0 + 1, TokenType::Colon);
            if annotated && !kind_at(cx, p0 + 2, TokenType::Identifier) {
                None
            } else {
                let type_ = if annotated {
                    (
                        ParseTypeModel::Determined(cx.tokens[p0 + 2].lexeme),
                        Some(cx.tokens[p0 + 1].span),
                    )
                } else {
                    (ParseTypeModel::Inferred, None)
                };
                let span = if annotated {
                    span_until(cx.tokens[pos].span, cx.tokens[p0 + 1].span.end_pos)
                } else {
                    cx.tokens[pos].span
                };
                let p1 = if annotated {
                    p0 + 3
                } else {
                    p0 + 1
                };
                if kind_at(cx, p1, TokenType::ColonEquals) {
                    let (value, p2) = parse_expression_model(cx, p1 + 1, 0);
                    match value {
                        Err(_) => None,
                        Ok(v) => Some(
                            (
                                NodeModel {
                                    ast_repr: AstModel::DeclarationWithValue {
                                        type_,
                                        mutability,
                                        name,
                                        value: Box::new(v),
                                    },
                                    span,
                                },
                                p2,
                            ),
                        ),
                    }
                } else {
                    Some(
                        (
                            NodeModel {
                                ast_repr: AstModel::Declaration { type_, mutability, name },
                                span,
                            },
                            p1,
                        ),
                    )
                }
            }
        }
    }
}

/// An `if` whose keyword stands at `pos`: a condition, a body, and an
/// `else` part. The node's span runs from the condition's first token to
/// the condition's end.
pub open spec fn parse_if_model(cx: ParseContext, pos: int) -> Parsed
    decreases cx.tokens.len() - pos, 2nat,
{
    if !(0 <= pos && pos + 1 < cx.tokens.len()) {
        (
            Err(
                parse_error(
                    cx,
                    ECode::UnexpectedEOF,
                    "expected expression, unexpected end of input"@,
                    eof_span(cx, pos + 1),
                    None,
                ),
            ),
            pos + 1,
        )
    } else {
        let first = cx.tokens[pos + 1].span;
        let (condition, p1) = parse_expression_model(cx, pos + 1, 0);
        match condition {
            Err(e) => (Err(e), p1),
            Ok(c) => if !(pos < p1 <= cx.tokens.len()) {
                (Ok(c), p1)
            } else {
                let (then_body, p2) = parse_expression_model(cx, p1, 0);
                match then_body {
                    Err(e) => (Err(e), p2),
                    Ok(t) => if !(pos < p2 <= cx.tokens.len()) {
                        (Ok(t), p2)
                    } else {
                        let (else_body, p3) = parse_else_model(cx, p2);
                        match else_body {
                            Err(e) => (Err(e), p3),
                            Ok(e) => (
                                Ok(
                                    NodeModel {
                                        ast_repr: AstModel::If {
                                            condition: Box::new(c),
                                            then_body: Box::new(t),
                                            else_body: Box::new(e),
                                        },
                                        span: span_until(first, c.span.end_pos),
                                    },
                                ),
                                p3,
                            ),
                        }
                    },
                }
            },
        }
    }
}

/// The `else` part of an `if`: after the keyword `else` a block, or one
/// statement, which becomes a block of its own; an empty block where no
/// `else` stands at `pos`.
pub open spec fn parse_else_model(cx: ParseContext, pos: int) -> Parsed
    decreases cx.tokens.len() - pos, 0nat,
{
    if kind_at(cx, pos, TokenType::Keyword) && cx.tokens[pos].lexeme == "else"@ {
        if pos + 1 < cx.tokens.len() {
            if kind_at(cx, pos + 1, TokenType::LBrace) {
                parse_block_model(cx, pos + 1)
            } else {
                let (statement, p1) = parse_statement_model(cx, pos + 1);
                match statement {
                    Err(e) => (Err(e), p1),
                    Ok(s) => (
                        Ok(
                            NodeModel {
                                ast_repr: AstModel::Block(seq![s]),
                                span: cx.tokens[pos + 1].span,
                            },
                        ),
                        p1,
                    ),
                }
            }
        } else {
            (
                Err(
                    parse_error(
                        cx,
                        ECode::UnexpectedEOF,
                        "expected else body after `else`"@,
                        eof_span(cx, pos + 1),
                        None,
                    ),
                ),
                pos + 1,
            )
        }
    } else {
        (
            Ok(NodeModel { ast_repr: AstModel::Block(Seq::empty()), span: eof_span(cx, pos) }),
            pos,
        )
    }
}

/// A block whose opening brace stands at `pos`.
pub open spec fn parse_block_model(cx: ParseContext, pos: int) -> Parsed
    decreases cx.tokens.len() - pos, 2nat,
{
    if 0 <= pos < cx.tokens.len() {
        block_loop_model(cx, pos + 1, Seq::empty(), eof_span(cx, pos + 1))
    } else {
        (Ok(NodeModel { ast_repr: AstModel::Block(Seq::empty()), span: eof_span(cx, pos) }), pos)
    }
}

/// The statements of a block from `pos` on, after those in `done`. A
/// closing brace ends the block, and so does the end of the tokens. A
/// statement that fails ends it too where the parser was left at a closing
/// brace, which is taken; otherwise the failure is the block's. The block's
/// span is that of the last token at which a statement or the closing brace
/// was looked for.
pub open spec fn block_loop_model(cx: ParseContext, pos: int, done: Seq<NodeModel>, last: Span) -> Parsed
    decreases cx.tokens.len() - pos, 7nat,
{
    if 0 <= pos < cx.tokens.len() {
        let span = cx.tokens[pos].span;
        if kind_at(cx, pos, TokenType::RBrace) {
            (Ok(NodeModel { ast_repr: AstModel::Block(done), span }), pos + 1)
        } else {
            let (statement, p1) = parse_statement_model(cx, pos);
            match statement {
                Ok(s) => if pos < p1 <= cx.tokens.len() {
                    block_loop_model(cx, p1, done.push(s), span)
                } else {
                    (Ok(NodeModel { ast_repr: AstModel::Block(done.push(s)), span }), p1)
                },
                Err(e) => if kind_at(cx, p1, TokenType::RBrace) {
                    (Ok(NodeModel { ast_repr: AstModel::Block(done), span }), p1 + 1)
                } else {
                    (Err(e), p1)
                },
            }
        }
    } else {
        (Ok(NodeModel { ast_repr: AstModel::Block(done), span: last }), pos)
    }
}

/// The statements and the diagnostics of the program from `pos` on. After
/// a statement that fails without moving, the parser skips one token.
pub open spec fn parse_program_model(cx: ParseContext, pos: int) -> (
    Seq<NodeModel>,
    Seq<ErrorModel>,
)
    decreases cx.tokens.len() - pos,
{
    if 0 <= pos < cx.tokens.len() {
        let (statement, p1) = parse_statement_model(cx, pos);
        let next = if pos < p1 <= cx.tokens.len() {
            p1
        } else {
            pos + 1
        };
        let (nodes, errors) = parse_program_model(cx, next);
        match statement {
            Ok(s) => (seq![s] + nodes, errors),
            Err(e) => (nodes, seq![e] + errors),
        }
    } else {
        (Seq::empty(), Seq::empty())
    }
}

/// A parsed node or a diagnostic, as its model.
pub open spec fn outcome(r: Result<Node, Error>) -> Result<NodeModel, ErrorModel> {
    match r {
        Ok(n) => Ok(n@),
        Err(e) => Err(e@),
    }
}

pub open spec fn token_outcome(r: Result<Token, Error>) -> Result<TokenModel, ErrorModel> {
    match r {
        Ok(t) => Ok(t@),
        Err(e) => Err(e@),
    }
}

proof fn lemma_block_view(v: Vec<Node>)
    ensures
        ASTNode::Block(v)@ == AstModel::Block(models(v@)),
{
    assert(ASTNode::Block(v)@->Block_0 =~= models(v@));
}

/// The span that begins where `first` begins and ends at `end_pos`.
fn until(first: Span, end_pos: usize) -> (r: Span)
    ensures
        r == span_until(first, end_pos),
{
    Span { line: first.line, column: first.column, start_pos: first.start_pos, end_pos }
}

/// A parser over the tokens of one source.
#[derive(Debug)]
pub struct Parser {
    pub(crate) pos: usize,
    pub(crate) tokens: Vec<Token>,
    pub(crate) src: String,
    pub(crate) path: String,
}

impl Parser {
    /// The tokens, the source and the path.
    pub closed spec fn context(&self) -> ParseContext {
        ParseContext { tokens: models(self.tokens@), src: self.src@, path: self.path@ }
    }

    /// The index of the next token.
    pub closed spec fn position(&self) -> int {
        self.pos as int
    }

    /// The position lies within the tokens or just past them.
    pub closed spec fn wf(&self) -> bool {
        self.pos <= self.tokens.len()
    }

    /// A parser at the first of the tokens.
    pub fn new(tokens: Vec<Token>, src: &String, path: &String) -> (r: Parser)
        ensures
            r.wf(),
            r.position() == 0,
            r.context() == (ParseContext { tokens: models(tokens@), src: src@, path: path@ }),
    {
        Parser { pos: 0, tokens, src: src.clone(), path: path.clone() }
    }

    /// A copy of the parser's state: the position, the tokens, the source
    /// and the path.
    pub fn state(&self) -> (r: (usize, Vec<Token>, String, String))
        ensures
            r.0 as int == self.position(),
            self.context() == (ParseContext { tokens: models(r.1@), src: r.2@, path: r.3@ }),
    {
        let mut tokens: Vec<Token> = Vec::new();
        let mut i: usize = 0;
        while i < self.tokens.len()
            invariant
                i <= self.tokens.len(),
                tokens.len() == i,
                forall|k: int| 0 <= k < i ==> tokens[k]@ == self.tokens[k]@,
            decreases self.tokens.len() - i,
        {
            tokens.push(self.tokens[i].clone());
            i = i + 1;
        }
        assert(models(tokens@) =~= models(self.tokens@));
        (self.pos, tokens, self.src.clone(), self.path.clone())
    }

    /// The token `offset` places from the next one, if there is one.
    pub fn get(&self, offset: i32) -> (r: Option<&Token>)
        ensures
            match r {
                Some(t) => 0 <= self.position() + offset < self.context().tokens.len() && t@
                    == self.context().tokens[self.position() + offset],
                None => !(0 <= self.position() + offset < self.context().tokens.len()),
            },
    {
        if offset >= 0 {
            let forward = offset as usize;
            if forward < self.tokens.len() && self.pos < self.tokens.len() - forward {
                Some(&self.tokens[self.pos + forward])
            } else {
                None
            }
        } else {
            let back: usize = if offset == i32::MIN {
                2147483648
            } else {
                (0 - offset) as usize
            };
            if back <= self.pos && self.pos - back < self.tokens.len() {
                Some(&self.tokens[self.pos - back])
            } else {
                None
            }
        }
    }

    /// The span that stands for the position reached.
    pub fn eof(&self) -> (r: Span)
        ensures
            r == eof_span(self.context(), self.position()),
    {
        if self.tokens.len() == 0 {
            Span { line: 0, column: 0, start_pos: 0, end_pos: 0 }
        } else if self.pos < self.tokens.len() {
            self.tokens[self.pos].span
        } else {
            self.tokens[self.tokens.len() - 1].span
        }
    }

    fn error(&self, code: ECode, details: String, span: Span, help: Option<String>) -> (e: Error)
        ensures
            e@ == parse_error(self.context(), code, details@, span, crate::global::opt_text(help)),
    {
        Error {
            code,
            details,
            span,
            src: self.src.clone(),
            path: self.path.clone(),
            note: None,
            help,
        }
    }

    fn kind_is(&self, at: usize, kind: TokenType) -> (r: bool)
        ensures
            r == kind_at(self.context(), at as int, kind),
    {
        at < self.tokens.len() && self.tokens[at].token_type == kind
    }

    fn take(&mut self, expected: &TokenType, comma: bool) -> (r: Result<Token, Error>)
        requires
            old(self).wf(),
        ensures
            (token_outcome(r), final(self).position()) == expect_model(
                old(self).context(),
                old(self).position(),
                *expected,
                comma,
            ),
            final(self).context() == old(self).context(),
            final(self).wf(),
    {
        if self.pos < self.tokens.len() {
            let token = self.tokens[self.pos].clone();
            if token.token_type == *expected {
                self.pos = self.pos + 1;
                Ok(token)
            } else {
                let wanted = expected.to_error_repr();
                let found = token.to_string();
                let details = join4(
                    "expected ",
                    wanted.as_str(),
                    if comma {
                        ", found "
                    } else {
                        " found "
                    },
                    found.as_str(),
                );
                Err(self.error(ECode::ExpectedToken, details, token.span, None))
            }
        } else {
            let wanted = expected.to_error_repr();
            let span = self.eof();
            Err(
                self.error(
                    ECode::UnexpectedEOF,
                    join2("unexpected end of input, expected ", wanted.as_str()),
                    span,
                    None,
                ),
            )
        }
    }

    /// Takes the next token if it has the kind expected, and hands it out.
    pub fn expect_and_take(&mut self, expected: &TokenType) -> (r: Result<Token, Error>)
        requires
            old(self).wf(),
        ensures
            (token_outcome(r), final(self).position()) == expect_model(
                old(self).context(),
                old(self).position(),
                *expected,
                true,
            ),
            final(self).context() == old(self).context(),
            final(self).wf(),
    {
        self.take(expected, true)
    }

    /// Takes the next token if it has the kind expected.
    pub fn expect(&mut self, expected: &TokenType) -> (r: Result<(), Error>)
        requires
            old(self).wf(),
        ensures
            match r {
                Ok(_) => expect_model(
                    old(self).context(),
                    old(self).position(),
                    *expected,
                    false,
                ).0 is Ok,
                Err(e) => expect_model(
                    old(self).context(),
                    old(self).position(),
                    *expected,
                    false,
                ).0 == Err::<TokenModel, ErrorModel>(e@),
            },
            final(self).position() == expect_model(
                old(self).context(),
                old(self).position(),
                *expected,
                false,
            ).1,
            final(self).context() == old(self).context(),
            final(self).wf(),
    {
        match self.take(expected, false) {
            Ok(_) => Ok(()),
            Err(e) => Err(e),
        }
    }
}

/// Whether a result and the position reached are what the model gives.
pub open spec fn agrees(r: Result<Node, Error>, after: int, model: Parsed) -> bool {
    outcome(r) == model.0 && after == model.1
}

impl Parser {
    /// The binary operator at the position reached, if one stands there.
    fn binary_operator(&self) -> (r: Option<(String, Span, i32, i32)>)
        requires
            self.wf(),
        ensures
            match r {
                Some((op, span, lbp, rbp)) => binary_operator_at(self.context(), self.position())
                    == Some((op@, span, lbp, rbp)),
                None => binary_operator_at(self.context(), self.position()) is None,
            },
    {
        if self.kind_is(self.pos, TokenType::ColonEquals) || self.kind_is(
            self.pos,
            TokenType::Operator,
        ) {
            let token = &self.tokens[self.pos];
            match prec(&token.lexeme) {
                Some((lbp, rbp)) => Some((token.lexeme.clone(), token.span, lbp, rbp)),
                None => None,
            }
        } else {
            None
        }
    }

    /// Parses a statement: an expression and the semicolon after it, if
    /// there is one.
    pub fn parse_statement(&mut self) -> (r: Result<Node, Error>)
        requires
            old(self).wf(),
        ensures
            agrees(
                r,
                final(self).position(),
                parse_statement_model(old(self).context(), old(self).position()),
            ),
            final(self).context() == old(self).context(),
            final(self).wf(),
            old(self).position() <= final(self).position(),
            r is Ok ==> old(self).position() < final(self).position(),
        decreases old(self).context().tokens.len() - old(self).position(), 12nat,
    {
        let node = match self.parse_expression(0) {
            Ok(n) => n,
            Err(e) => {
                return Err(e);
            },
        };
        if self.kind_is(self.pos, TokenType::Semicolon) {
            let end = self.tokens[self.pos].span.end_pos;
            let span = until(node.span, end);
            self.pos = self.pos + 1;
            Ok(Node { ast_repr: ASTNode::Statement(Box::new(node)), span })
        } else {
            Ok(node)
        }
    }

    /// Parses an expression whose binary operators bind at least as
    /// tightly as `min_bp`.
    pub fn parse_expression(&mut self, min_bp: i32) -> (r: Result<Node, Error>)
        requires
            old(self).wf(),
        ensures
            agrees(
                r,
                final(self).position(),
                parse_expression_model(old(self).context(), old(self).position(), min_bp),
            ),
            final(self).context() == old(self).context(),
            final(self).wf(),
            old(self).position() <= final(self).position(),
            r is Ok ==> old(self).position() < final(self).position(),
        decreases old(self).context().tokens.len() - old(self).position(), 10nat,
    {
        if self.pos >= self.tokens.len() {
            let span = self.eof();
            return Err(
                self.error(ECode::UnexpectedEOF, "unexpected end of input".to_owned(), span, None),
            );
        }
        let first = self.tokens[self.pos].span;
        let mut left = match self.nud() {
            Ok(n) => n,
            Err(e) => {
                return Err(e);
            },
        };
        let ghost cx = self.context();
        let ghost whole = binary_loop_model(cx, self.position(), min_bp, left@, first);
        loop
            invariant
                self.wf(),
                self.context() == cx,
                cx == old(self).context(),
                old(self).position() < self.position(),
                whole == parse_expression_model(cx, old(self).position(), min_bp),
                binary_loop_model(cx, self.position(), min_bp, left@, first) == whole,
            decreases self.tokens.len() - self.pos,
        {
            let (op, op_span, rbp) = match self.binary_operator() {
                Some((op, op_span, lbp, rbp)) => {
                    if lbp < min_bp {
                        return Ok(left);
                    }
                    (op, op_span, rbp)
                },
                None => {
                    return Ok(left);
                },
            };
            self.pos = self.pos + 1;
            let right = match self.parse_expression(rbp) {
                Ok(n) => n,
                Err(e) => {
                    return Err(e);
                },
            };
            let span = until(first, right.span.end_pos);
            left = Node {
                ast_repr: ASTNode::BinOp {
                    lhs: Box::new(left),
                    rhs: Box::new(right),
                    op: (op, op_span),
                },
                span,
            };
        }
    }

    /// Parses a prefix.
    pub fn nud(&mut self) -> (r: Result<Node, Error>)
        requires
            old(self).wf(),
        ensures
            agrees(r, final(self).position(), nud_model(old(self).context(), old(self).position())),
            final(self).context() == old(self).context(),
            final(self).wf(),
            old(self).position() <= final(self).position(),
            r is Ok ==> old(self).position() < final(self).position(),
        decreases old(self).context().tokens.len() - old(self).position(), 8nat,
    {
        match self.try_mutation() {
            Some(node) => {
                return Ok(node);
            },
            None => {},
        }
        match self.try_var_decl() {
            Some(node) => {
                return Ok(node);
            },
            None => {},
        }
        if self.pos < self.tokens.len() {
            match self.atom() {
                Some(parsed) => parsed,
                None => self.compound(),
            }
        } else {
            let span = self.eof();
            Err(
                self.error(
                    ECode::UnexpectedEOF,
                    "unexpected end of input, expected expression".to_owned(),
                    span,
                    None,
                ),
            )
        }
    }

    fn unexpected(&self) -> (e: Error)
        requires
            self.wf(),
            self.position() < self.context().tokens.len(),
        ensures
            e@ == unexpected_token(self.context(), self.position()),
    {
        let found = self.tokens[self.pos].to_string();
        let span = self.eof();
        self.error(ECode::UnexpectedToken, join2("unexpected token ", found.as_str()), span, None)
    }

    /// Parses a token that begins nothing longer than itself.
    fn atom(&mut self) -> (r: Option<Result<Node, Error>>)
        requires
            old(self).wf(),
            old(self).position() < old(self).context().tokens.len(),
        ensures
            match r {
                Some(parsed) => atom_model(old(self).context(), old(self).position()) is Some
                    && agrees(
                    parsed,
                    final(self).position(),
                    atom_model(old(self).context(), old(self).position())->0,
                ),
                None => atom_model(old(self).context(), old(self).position()) is None
                    && final(self).position() == old(self).position(),
            },
            final(self).context() == old(self).context(),
            final(self).wf(),
            old(self).position() <= final(self).position(),
            r matches Some(Ok(_)) ==> old(self).position() < final(self).position(),
    {
        let token = self.tokens[self.pos].clone();
        match token.token_type {
            TokenType::Int => match parse_i64(token.lexeme.as_str()) {
                Some(v) => {
                    self.pos = self.pos + 1;
                    Some(Ok(Node { ast_repr: ASTNode::IntLit(v), span: token.span }))
                },
                None => Some(Err(self.unexpected())),
            },
            TokenType::Float => {
                self.pos = self.pos + 1;
                Some(Ok(Node { ast_repr: ASTNode::FloatLit(token.lexeme), span: token.span }))
            },
            TokenType::String => {
                self.pos = self.pos + 1;
                Some(Ok(Node { ast_repr: ASTNode::StringLit(token.lexeme), span: token.span }))
            },
            TokenType::Bool => {
                if same_text(token.lexeme.as_str(), "true") {
                    self.pos = self.pos + 1;
                    Some(Ok(Node { ast_repr: ASTNode::Bool(true), span: token.span }))
                } else if same_text(token.lexeme.as_str(), "false") {
                    self.pos = self.pos + 1;
                    Some(Ok(Node { ast_repr: ASTNode::Bool(false), span: token.span }))
                } else {
                    Some(Err(self.unexpected()))
                }
            },
            TokenType::Identifier => {
                self.pos = self.pos + 1;
                Some(Ok(Node { ast_repr: ASTNode::Identifier(token.lexeme), span: token.span }))
            },
            TokenType::LParen => None,
            TokenType::Operator => None,
            TokenType::Keyword => {
                if same_text(token.lexeme.as_str(), "if") {
                    None
                } else {
                    let help = if same_text(token.lexeme.as_str(), "else") {
                        Some("add a `if` clause before the `else` clause".to_owned())
                    } else {
                        None
                    };
                    Some(
                        Err(
                            self.error(
                                ECode::UnexpectedToken,
                                join3("invalid keyword `", token.lexeme.as_str(), "`"),
                                token.span,
                                help,
                            ),
                        ),
                    )
                }
            },
            TokenType::LBrace => None,
            _ => Some(Err(self.unexpected())),
        }
    }

    /// Parses what `(`, an operator, `if` or `{` begins.
    fn compound(&mut self) -> (r: Result<Node, Error>)
        requires
            old(self).wf(),
            old(self).position() < old(self).context().tokens.len(),
        ensures
            agrees(
                r,
                final(self).position(),
                compound_model(old(self).context(), old(self).position()),
            ),
            final(self).context() == old(self).context(),
            final(self).wf(),
            old(self).position() <= final(self).position(),
            r is Ok ==> old(self).position() < final(self).position(),
        decreases old(self).context().tokens.len() - old(self).position(), 6nat,
    {
        let kind = self.tokens[self.pos].token_type;
        match kind {
            TokenType::LParen => {
                self.pos = self.pos + 1;
                let node = match self.parse_expression(0) {
                    Ok(n) => n,
                    Err(e) => {
                        return Err(e);
                    },
                };
                match self.take(&TokenType::RParen, false) {
                    Ok(_) => Ok(node),
                    Err(e) => Err(e),
                }
            },
            TokenType::Operator => {
                let op = self.tokens[self.pos].lexeme.clone();
                let op_span = self.tokens[self.pos].span;
                self.pos = self.pos + 1;
                let operand = match self.nud() {
                    Ok(n) => n,
                    Err(e) => {
                        return Err(e);
                    },
                };
                let span = until(op_span, operand.span.end_pos);
                Ok(
                    Node {
                        ast_repr: ASTNode::UnaOp { operand: Box::new(operand), op: (op, op_span) },
                        span,
                    },
                )
            },
            TokenType::Keyword => self.parse_if(),
            TokenType::LBrace => self.parse_block(),
            _ => Err(self.unexpected()),
        }
    }

    /// Parses a mutation where one stands; else leaves the parser where it
    /// was.
    fn try_mutation(&mut self) -> (r: Option<Node>)
        requires
            old(self).wf(),
        ensures
            match r {
                Some(node) => try_mutation_model(old(self).context(), old(self).position())
                    == Some((node@, final(self).position())) && old(self).position() < final(self).position(),
                None => try_mutation_model(old(self).context(), old(self).position()) is None
                    && final(self).position() == old(self).position(),
            },
            final(self).context() == old(self).context(),
            final(self).wf(),
        decreases old(self).context().tokens.len() - old(self).position(), 6nat,
    {
        let start = self.pos;
        if !(self.kind_is(start, TokenType::Identifier) && start + 1 < self.tokens.len()
            && self.kind_is(start + 1, TokenType::Equals)) {
            return None;
        }
        let name = self.tokens[start].lexeme.clone();
        let name_span = self.tokens[start].span;
        self.pos = start + 2;
        match self.parse_expression(0) {
            Ok(value) => {
                let span = until(name_span, value.span.end_pos);
                Some(
                    Node {
                        ast_repr: ASTNode::Mutation {
                            name: (name, name_span),
                            value: Box::new(value),
                        },
                        span,
                    },
                )
            },
            Err(_) => {
                self.pos = start;
                None
            },
        }
    }

    /// Parses a declaration where one stands; else leaves the parser where
    /// it was.
    fn try_var_decl(&mut self) -> (r: Option<Node>)
        requires
            old(self).wf(),
        ensures
            match r {
                Some(node) => try_var_decl_model(old(self).context(), old(self).position())
                    == Some((node@, final(self).position())) && old(self).position() < final(self).position(),
                None => try_var_decl_model(old(self).context(), old(self).position()) is None
                    && final(self).position() == old(self).position(),
            },
            final(self).context() == old(self).context(),
            final(self).wf(),
        decreases old(self).context().tokens.len() - old(self).position(), 6nat,
    {
        let start = self.pos;
        if start >= self.tokens.len() {
            return None;
        }
        let mutability = self.kind_is(start, TokenType::Keyword) && same_text(
            self.tokens[start].lexeme.as_str(),
            "mut",
        );
        let p0: usize = if mutability {
            start + 1
        } else {
            start
        };
        if !self.kind_is(p0, TokenType::Identifier) {
            return None;
        }
        if p0 + 1 < self.tokens.len() && self.kind_is(p0 + 1, TokenType::Operator) {
            return None;
        }
        let name = (self.tokens[p0].lexeme.clone(), self.tokens[p0].span);
        let annotated = p0 + 1 < self.tokens.len() && self.kind_is(p0 + 1, TokenType::Colon);
        if annotated && !(p0 + 2 < self.tokens.len() && self.kind_is(p0 + 2, TokenType::Identifier)) {
            return None;
        }
        let type_ = if annotated {
            (
                ParseType::Determined(self.tokens[p0 + 2].lexeme.clone()),
                Some(self.tokens[p0 + 1].span),
            )
        } else {
            (ParseType::Inferred, None)
        };
        let span = if annotated {
            until(self.tokens[start].span, self.tokens[p0 + 1].span.end_pos)
        } else {
            self.tokens[start].span
        };
        let p1: usize = if annotated {
            p0 + 3
        } else {
            p0 + 1
        };
        if p1 < self.tokens.len() && self.kind_is(p1, TokenType::ColonEquals) {
            self.pos = p1 + 1;
            match self.parse_expression(0) {
                Ok(value) => Some(
                    Node {
                        ast_repr: ASTNode::DeclarationWithValue {
                            type_,
                            mutability,
                            name,
                            value: Box::new(value),
                        },
                        span,
                    },
                ),
                Err(_) => {
                    self.pos = start;
                    None
                },
            }
        } else {
            self.pos = p1;
            Some(Node { ast_repr: ASTNode::Declaration { type_, mutability, name }, span })
        }
    }

    /// Parses an `if` whose keyword is the next token.
    fn parse_if(&mut self) -> (r: Result<Node, Error>)
        requires
            old(self).wf(),
            old(self).position() < old(self).context().tokens.len(),
        ensures
            agrees(
                r,
                final(self).position(),
                parse_if_model(old(self).context(), old(self).position()),
            ),
            final(self).context() == old(self).context(),
            final(self).wf(),
            old(self).position() < final(self).position(),
        decreases old(self).context().tokens.len() - old(self).position(), 4nat,
    {
        self.pos = self.pos + 1;
        if self.pos >= self.tokens.len() {
            let span = self.eof();
            return Err(
                self.error(
                    ECode::UnexpectedEOF,
                    "expected expression, unexpected end of input".to_owned(),
                    span,
                    None,
                ),
            );
        }
        let first = self.tokens[self.pos].span;
        let condition = match self.parse_expression(0) {
            Ok(n) => n,
            Err(e) => {
                return Err(e);
            },
        };
        let then_body = match self.parse_expression(0) {
            Ok(n) => n,
            Err(e) => {
                return Err(e);
            },
        };
        let else_body = match self.parse_else() {
            Ok(n) => n,
            Err(e) => {
                return Err(e);
            },
        };
        let span = until(first, condition.span.end_pos);
        Ok(
            Node {
                ast_repr: ASTNode::If {
                    condition: Box::new(condition),
                    then_body: Box::new(then_body),
                    else_body: Box::new(else_body),
                },
                span,
            },
        )
    }

    /// Parses the `else` part of an `if`.
    fn parse_else(&mut self) -> (r: Result<Node, Error>)
        requires
            old(self).wf(),
        ensures
            agrees(
                r,
                final(self).position(),
                parse_else_model(old(self).context(), old(self).position()),
            ),
            final(self).context() == old(self).context(),
            final(self).wf(),
            old(self).position() <= final(self).position(),
        decreases old(self).context().tokens.len() - old(self).position(), 2nat,
    {
        if self.kind_is(self.pos, TokenType::Keyword) && same_text(
            self.tokens[self.pos].lexeme.as_str(),
            "else",
        ) {
            self.pos = self.pos + 1;
            if self.pos < self.tokens.len() {
                if self.kind_is(self.pos, TokenType::LBrace) {
                    self.parse_block()
                } else {
                    let span = self.tokens[self.pos].span;
                    match self.parse_statement() {
                        Ok(statement) => {
                            let mut body: Vec<Node> = Vec::new();
                            body.push(statement);
                            proof {
                                lemma_block_view(body);
                                assert(models(body@) =~= seq![statement@]);
                            }
                            Ok(Node { ast_repr: ASTNode::Block(body), span })
                        },
                        Err(e) => Err(e),
                    }
                }
            } else {
                let span = self.eof();
                Err(
                    self.error(
                        ECode::UnexpectedEOF,
                        "expected else body after `else`".to_owned(),
                        span,
                        None,
                    ),
                )
            }
        } else {
            let span = self.eof();
            let body: Vec<Node> = Vec::new();
            proof {
                lemma_block_view(body);
                assert(models(body@) =~= Seq::<NodeModel>::empty());
            }
            Ok(Node { ast_repr: ASTNode::Block(body), span })
        }
    }

    /// Parses a block whose opening brace is the next token.
    fn parse_block(&mut self) -> (r: Result<Node, Error>)
        requires
            old(self).wf(),
            old(self).position() < old(self).context().tokens.len(),
        ensures
            agrees(
                r,
                final(self).position(),
                parse_block_model(old(self).context(), old(self).position()),
            ),
            final(self).context() == old(self).context(),
            final(self).wf(),
            old(self).position() < final(self).position(),
        decreases old(self).context().tokens.len() - old(self).position(), 4nat,
    {
        self.pos = self.pos + 1;
        let mut block: Vec<Node> = Vec::new();
        let mut span = self.eof();
        let ghost cx = self.context();
        let ghost whole = block_loop_model(cx, self.position(), Seq::empty(), span);
        proof {
            assert(models(block@) =~= Seq::<NodeModel>::empty());
        }
        while self.pos < self.tokens.len()
            invariant
                self.wf(),
                self.context() == cx,
                cx == old(self).context(),
                old(self).position() < self.position(),
                whole == parse_block_model(cx, old(self).position()),
                block_loop_model(cx, self.position(), models(block@), span) == whole,
            decreases self.tokens.len() - self.pos,
        {
            span = self.tokens[self.pos].span;
            if self.kind_is(self.pos, TokenType::RBrace) {
                self.pos = self.pos + 1;
                proof {
                    lemma_block_view(block);
                }
                return Ok(Node { ast_repr: ASTNode::Block(block), span });
            }
            let ghost before = models(block@);
            match self.parse_statement() {
                Ok(statement) => {
                    block.push(statement);
                    proof {
                        assert(models(block@) =~= before.push(statement@));
                    }
                },
                Err(e) => {
                    if self.kind_is(self.pos, TokenType::RBrace) {
                        self.pos = self.pos + 1;
                        proof {
                            lemma_block_view(block);
                        }
                        return Ok(Node { ast_repr: ASTNode::Block(block), span });
                    }
                    return Err(e);
                },
            }
        }
        proof {
            lemma_block_view(block);
        }
        Ok(Node { ast_repr: ASTNode::Block(block), span })
    }

    /// Parses the program: statements until the tokens end, and the
    /// diagnostics of those that fail.
    pub fn parse_program(&mut self) -> (r: (Module, Vec<Error>))
        requires
            old(self).wf(),
        ensures
            (r.0@, models(r.1@)) == parse_program_model(old(self).context(), old(self).position()),
            final(self).context() == old(self).context(),
            final(self).wf(),
            final(self).position() == final(self).context().tokens.len(),
    {
        let mut nodes: Vec<Node> = Vec::new();
        let mut errors: Vec<Error> = Vec::new();
        let ghost cx = self.context();
        let ghost whole = parse_program_model(cx, self.position());
        while self.pos < self.tokens.len()
            invariant
                self.wf(),
                self.context() == cx,
                models(nodes@) + parse_program_model(cx, self.position()).0 == whole.0,
                models(errors@) + parse_program_model(cx, self.position()).1 == whole.1,
            decreases self.tokens.len() - self.pos,
        {
            let start = self.pos;
            match self.parse_statement() {
                Ok(n) => {
                    nodes.push(n);
                },
                Err(e) => {
                    if self.pos == start {
                        self.pos = self.pos + 1;
                    }
                    errors.push(e);
                },
            }
        }
        (Module(nodes), errors)
    }
}

/// Whether a parse that began at `pos` ended where a parse may end: not
/// before `pos` and not past the tokens.
pub open spec fn in_bounds(cx: ParseContext, pos: int, parsed: Parsed) -> bool {
    pos <= parsed.1 <= cx.tokens.len()
}

/// Whether a parse that began at `pos` ended in bounds and, where it
/// succeeded, took a token.
pub open spec fn moves_on(cx: ParseContext, pos: int, parsed: Parsed) -> bool {
    in_bounds(cx, pos, parsed) && (parsed.0 is Ok ==> pos < parsed.1)
}

proof fn lemma_statement_moves_on(cx: ParseContext, pos: int)
    requires
        0 <= pos <= cx.tokens.len(),
    ensures
        moves_on(cx, pos, parse_statement_model(cx, pos)),
    decreases cx.tokens.len() - pos, 6nat,
{
    lemma_expression_moves_on(cx, pos, 0);
}

proof fn lemma_expression_moves_on(cx: ParseContext, pos: int, min_bp: i32)
    requires
        0 <= pos <= cx.tokens.len(),
    ensures
        moves_on(cx, pos, parse_expression_model(cx, pos, min_bp)),
    decreases cx.tokens.len() - pos, 5nat,
{
    if pos < cx.tokens.len() {
        lemma_nud_moves_on(cx, pos);
        let (first, p1) = nud_model(cx, pos);
        if first is Ok {
            lemma_loop_in_bounds(cx, p1, min_bp, first->Ok_0, cx.tokens[pos].span);
        }
    }
}

proof fn lemma_loop_in_bounds(
    cx: ParseContext,
    pos: int,
    min_bp: i32,
    left: NodeModel,
    first: Span,
)
    requires
        0 <= pos <= cx.tokens.len(),
    ensures
        in_bounds(cx, pos, binary_loop_model(cx, pos, min_bp, left, first)),
    decreases cx.tokens.len() - pos, 0nat,
{
    match binary_operator_at(cx, pos) {
        Some((op, op_span, lbp, rbp)) => {
            if lbp >= min_bp {
                lemma_expression_moves_on(cx, pos + 1, rbp);
                let (right, p1) = parse_expression_model(cx, pos + 1, rbp);
                match right {
                    Ok(r) => {
                        let joined = NodeModel {
                            ast_repr: AstModel::BinOp {
                                lhs: Box::new(left),
                                rhs: Box::new(r),
                                op: (op, op_span),
                            },
                            span: span_until(first, r.span.end_pos),
                        };
                        lemma_loop_in_bounds(cx, p1, min_bp, joined, first);
                    },
                    Err(_) => {},
                }
            }
        },
        None => {},
    }
}

proof fn lemma_nud_moves_on(cx: ParseContext, pos: int)
    requires
        0 <= pos <= cx.tokens.len(),
    ensures
        moves_on(cx, pos, nud_model(cx, pos)),
    decreases cx.tokens.len() - pos, 4nat,
{
    lemma_try_mutation_moves_on(cx, pos);
    lemma_try_var_decl_moves_on(cx, pos);
    if try_mutation_model(cx, pos) is None && try_var_decl_model(cx, pos) is None && pos
        < cx.tokens.len() && atom_model(cx, pos) is None {
        lemma_compound_moves_on(cx, pos);
    }
}

proof fn lemma_compound_moves_on(cx: ParseContext, pos: int)
    requires
        0 <= pos < cx.tokens.len(),
    ensures
        moves_on(cx, pos, compound_model(cx, pos)),
    decreases cx.tokens.len() - pos, 3nat,
{
    match cx.tokens[pos].token_type {
        TokenType::LParen => {
            lemma_expression_moves_on(cx, pos + 1, 0);
        },
        TokenType::Operator => {
            lemma_nud_moves_on(cx, pos + 1);
        },
        TokenType::Keyword => {
            lemma_if_moves_on(cx, pos);
        },
        TokenType::LBrace => {
            lemma_block_moves_on(cx, pos);
        },
        _ => {},
    }
}

proof fn lemma_try_mutation_moves_on(cx: ParseContext, pos: int)
    requires
        0 <= pos <= cx.tokens.len(),
    ensures
        match try_mutation_model(cx, pos) {
            Some((_, p)) => pos < p <= cx.tokens.len(),
            None => true,
        },
    decreases cx.tokens.len() - pos, 3nat,
{
    if kind_at(cx, pos, TokenType::Identifier) && kind_at(cx, pos + 1, TokenType::Equals) {
        lemma_expression_moves_on(cx, pos + 2, 0);
    }
}

proof fn lemma_try_var_decl_moves_on(cx: ParseContext, pos: int)
    requires
        0 <= pos <= cx.tokens.len(),
    ensures
        match try_var_decl_model(cx, pos) {
            Some((_, p)) => pos < p <= cx.tokens.len(),
            None => true,
        },
    decreases cx.tokens.len() - pos, 3nat,
{
    if pos < cx.tokens.len() {
        let p0 = if mut_at(cx, pos) {
            pos + 1
        } else {
            pos
        };
        if kind_at(cx, p0, TokenType::Identifier) {
            let annotated = kind_at(cx, p0 + 1, TokenType::Colon);
            if !(annotated && !kind_at(cx, p0 + 2, TokenType::Identifier)) {
                let p1 = if annotated {
                    p0 + 3
                } else {
                    p0 + 1
                };
                if kind_at(cx, p1, TokenType::ColonEquals) {
                    lemma_expression_moves_on(cx, p1 + 1, 0);
                }
            }
        }
    }
}

proof fn lemma_if_moves_on(cx: ParseContext, pos: int)
    requires
        0 <= pos < cx.tokens.len(),
    ensures
        in_bounds(cx, pos, parse_if_model(cx, pos)),
        pos < parse_if_model(cx, pos).1,
    decreases cx.tokens.len() - pos, 2nat,
{
    if pos + 1 < cx.tokens.len() {
        lemma_expression_moves_on(cx, pos + 1, 0);
        let (condition, p1) = parse_expression_model(cx, pos + 1, 0);
        if condition is Ok {
            lemma_expression_moves_on(cx, p1, 0);
            let (then_body, p2) = parse_expression_model(cx, p1, 0);
            if then_body is Ok {
                lemma_else_in_bounds(cx, p2);
            }
        }
    }
}

proof fn lemma_else_in_bounds(cx: ParseContext, pos: int)
    requires
        0 <= pos <= cx.tokens.len(),
    ensures
        in_bounds(cx, pos, parse_else_model(cx, pos)),
    decreases cx.tokens.len() - pos, 0nat,
{
    if kind_at(cx, pos, TokenType::Keyword) && cx.tokens[pos].lexeme == "else"@ && pos + 1
        < cx.tokens.len() {
        if kind_at(cx, pos + 1, TokenType::LBrace) {
            lemma_block_moves_on(cx, pos + 1);
        } else {
            lemma_statement_moves_on(cx, pos + 1);
        }
    }
}

proof fn lemma_block_moves_on(cx: ParseContext, pos: int)
    requires
        0 <= pos < cx.tokens.len(),
    ensures
        in_bounds(cx, pos, parse_block_model(cx, pos)),
        pos < parse_block_model(cx, pos).1,
    decreases cx.tokens.len() - pos, 2nat,
{
    lemma_block_loop_in_bounds(cx, pos + 1, Seq::empty(), eof_span(cx, pos + 1));
}

proof fn lemma_block_loop_in_bounds(cx: ParseContext, pos: int, done: Seq<NodeModel>, last: Span)
    requires
        0 <= pos <= cx.tokens.len(),
    ensures
        in_bounds(cx, pos, block_loop_model(cx, pos, done, last)),
    decreases cx.tokens.len() - pos, 7nat,
{
    if pos < cx.tokens.len() && !kind_at(cx, pos, TokenType::RBrace) {
        lemma_statement_moves_on(cx, pos);
        let (statement, p1) = parse_statement_model(cx, pos);
        match statement {
            Ok(s) => {
                lemma_block_loop_in_bounds(cx, p1, done.push(s), cx.tokens[pos].span);
            },
            Err(_) => {},
        }
    }
}

/// No parse moves backwards or past the tokens, and a statement or an
/// expression that parses takes at least one token. (So the positions that
/// the models compare before they go on are always in order.)
pub proof fn lemma_parses_move_on(cx: ParseContext, pos: int, min_bp: i32)
    requires
        0 <= pos <= cx.tokens.len(),
    ensures
        moves_on(cx, pos, parse_statement_model(cx, pos)),
        moves_on(cx, pos, parse_expression_model(cx, pos, min_bp)),
        moves_on(cx, pos, nud_model(cx, pos)),
{
    lemma_statement_moves_on(cx, pos);
    lemma_expression_moves_on(cx, pos, min_bp);
}
} // verus!
