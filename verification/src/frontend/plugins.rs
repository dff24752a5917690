//! Parser plugins: parsers of one construct each, which run on a copy of a
//! parser's state. The one plugin here parses variable declarations.

use super::lexer::{kind_error_text, token_text, Token, TokenModel, TokenType};
use super::parser::{
    outcome, parse_error, token_outcome, ASTNode, AstModel, Node, NodeModel, ParseContext, Parsed,
    Parser,
};
use crate::global::{ECode, Error, ErrorModel, ParseType, ParseTypeModel, Span};
use crate::text::{join2, join4, models, same_text};
use vstd::prelude::*;

verus! {
/// What a plugin offers: a parse of its construct, and the token access
/// that the parse is made of.
pub trait ParserPlugin {
    fn try_parse(&mut self) -> Result<Node, Error>;

    fn get(&self, offset: i32) -> Option<&Token>;

    fn expect(&mut self, expected: &TokenType) -> Result<(), Error>;

    fn expect_and_take(&mut self, expected: &TokenType) -> Result<Token, Error>;

    fn eof(&self) -> Span;
}

/// The span that a plugin gives to the end of the input: that of the token
/// before `pos`, or of the last token when `pos` lies further on; all
/// zeros when no token stands before `pos`.
pub open spec fn previous_span(cx: ParseContext, pos: int) -> Span {
    if pos >= 1 && cx.tokens.len() >= 1 {
        if pos - 1 < cx.tokens.len() {
            cx.tokens[pos - 1].span
        } else {
            cx.tokens[cx.tokens.len() - 1].span
        }
    } else {
        Span { line: 0, column: 0, start_pos: 0, end_pos: 0 }
    }
}

/// Takes a token of the kind given: the token and the next position, or the
/// diagnostic and the position unchanged.
pub open spec fn plugin_expect_model(cx: ParseContext, pos: int, kind: TokenType) -> (
    Result<TokenModel, ErrorModel>,
    int,
) {
    if 0 <= pos < cx.tokens.len() {
        let token = cx.tokens[pos];
        if token.token_type == kind {
            (Ok(token), pos + 1)
        } else {
            (
                Err(
                    parse_error(
                        cx,
                        ECode::ExpectedToken,
                        "expected "@ + kind_error_text(kind) + ", found "@ + token_text(token),
                        token.span,
                        None,
                    ),
                ),
                pos,
            )
        }
    } else {
        (
            Err(
                parse_error(
                    cx,
                    ECode::UnexpectedEOF,
                    "unexpected end of input, expected "@ + kind_error_text(kind),
                    previous_span(cx, pos),
                    None,
                ),
            ),
            pos,
        )
    }
}

/// A declaration without value, `[mut] identifier [: type]`, at `pos`. The
/// node's span is that of the first token; the annotation carries the span
/// of the type's name.
pub open spec fn declaration_model(cx: ParseContext, pos: int) -> Parsed {
    if !(0 <= pos < cx.tokens.len()) {
        (
            Err(
                parse_error(
                    cx,
                    ECode::UnexpectedEOF,
                    "unexpected end of input, expected expression"@,
                    previous_span(cx, pos),
                    None,
                ),
            ),
            pos,
        )
    } else {
        let first = cx.tokens[pos];
        let mutability = first.token_type == TokenType::Keyword && first.lexeme == "mut"@;
        let p0 = if mutability {
            pos + 1
        } else {
            pos
        };
        match plugin_expect_model(cx, p0, TokenType::Identifier) {
            (Err(e), p) => (Err(e), p),
            (Ok(name), p1) => if 0 <= p1 < cx.tokens.len() && cx.tokens[p1].token_type
                == TokenType::Colon {
                match plugin_expect_model(cx, p1 + 1, TokenType::Identifier) {
                    (Err(e), p) => (Err(e), p),
                    (Ok(ty), p2) => (
                        Ok(
                            NodeModel {
                                ast_repr: AstModel::Declaration {
                                    type_: (ParseTypeModel::Determined(ty.lexeme), Some(ty.span)),
                                    mutability,
                                    name: (name.lexeme, name.span),
                                },
                                span: first.span,
                            },
                        ),
                        p2,
                    ),
                }
            } else {
                (
                    Ok(
                        NodeModel {
                            ast_repr: AstModel::Declaration {
                                type_: (ParseTypeModel::Inferred, None),
                                mutability,
                                name: (name.lexeme, name.span),
                            },
                            span: first.span,
                        },
                    ),
                    p1,
                )
            },
        }
    }
}

/// The parser of variable declarations.
pub struct VariableDeclParser {
    pub(crate) pos: usize,
    pub(crate) tokens: Vec<Token>,
    pub(crate) src: String,
    pub(crate) path: String,
}

impl VariableDeclParser {
    /// The tokens, the source and the path.
    pub closed spec fn context(&self) -> ParseContext {
        ParseContext { tokens: models(self.tokens@), src: self.src@, path: self.path@ }
    }

    /// The index of the next token.
    pub closed spec fn position(&self) -> int {
        self.pos as int
    }

    /// A plugin at the state of the parser.
    pub fn new(parser: &Parser) -> (r: VariableDeclParser)
        ensures
            r.context() == parser.context(),
            r.position() == parser.position(),
    {
        let (pos, tokens, src, path) = parser.state();
        VariableDeclParser { pos, tokens, src, path }
    }

    fn error(&self, code: ECode, details: String, span: Span) -> (e: Error)
        ensures
            e@ == parse_error(self.context(), code, details@, span, None),
    {
        Error {
            code,
            details,
            span,
            src: self.src.clone(),
            path: self.path.clone(),
            note: None,
            help: None,
        }
    }

    /// The span that stands for the end of the input.
    fn end_span(&self) -> (r: Span)
        ensures
            r == previous_span(self.context(), self.position()),
    {
        if self.pos >= 1 && self.tokens.len() >= 1 {
            if self.pos - 1 < self.tokens.len() {
                self.tokens[self.pos - 1].span
            } else {
                self.tokens[self.tokens.len() - 1].span
            }
        } else {
            Span { line: 0, column: 0, start_pos: 0, end_pos: 0 }
        }
    }

    /// Takes the next token if it has the kind expected, and hands it out.
    fn take(&mut self, expected: &TokenType) -> (r: Result<Token, Error>)
        ensures
            (token_outcome(r), final(self).position()) == plugin_expect_model(
                old(self).context(),
                old(self).position(),
                *expected,
            ),
            final(self).context() == old(self).context(),
    {
        if self.pos < self.tokens.len() {
            let token = self.tokens[self.pos].clone();
            if token.token_type == *expected {
                self.pos = self.pos + 1;
                Ok(token)
            } else {
                let wanted = expected.to_error_repr();
                let found = token.to_string();
                Err(
                    self.error(
                        ECode::ExpectedToken,
                        join4("expected ", wanted.as_str(), ", found ", found.as_str()),
                        token.span,
                    ),
                )
            }
        } else {
            let wanted = expected.to_error_repr();
            let span = self.end_span();
            Err(
                self.error(
                    ECode::UnexpectedEOF,
                    join2("unexpected end of input, expected ", wanted.as_str()),
                    span,
                ),
            )
        }
    }

    /// Parses a declaration without value.
    fn parse_declaration(&mut self) -> (r: Result<Node, Error>)
        ensures
            outcome(r) == declaration_model(old(self).context(), old(self).position()).0,
            final(self).position() == declaration_model(
                old(self).context(),
                old(self).position(),
            ).1,
            final(self).context() == old(self).context(),
    {
        if self.pos >= self.tokens.len() {
            let span = self.end_span();
            return Err(
                self.error(
                    ECode::UnexpectedEOF,
                    "unexpected end of input, expected expression".to_owned(),
                    span,
                ),
            );
        }
        let first_span = self.tokens[self.pos].span;
        let mutability = self.tokens[self.pos].token_type == TokenType::Keyword && same_text(
            self.tokens[self.pos].lexeme.as_str(),
            "mut",
        );
        if mutability {
            self.pos = self.pos + 1;
        }
        let name = match self.take(&TokenType::Identifier) {
            Ok(t) => t,
            Err(e) => {
                return Err(e);
            },
        };
        if self.pos < self.tokens.len() && self.tokens[self.pos].token_type == TokenType::Colon {
            self.pos = self.pos + 1;
            let ty = match self.take(&TokenType::Identifier) {
                Ok(t) => t,
                Err(e) => {
                    return Err(e);
                },
            };
            Ok(
                Node {
                    ast_repr: ASTNode::Declaration {
                        type_: (ParseType::Determined(ty.lexeme), Some(ty.span)),
                        mutability,
                        name: (name.lexeme, name.span),
                    },
                    span: first_span,
                },
            )
        } else {
            Ok(
                Node {
                    ast_repr: ASTNode::Declaration {
                        type_: (ParseType::Inferred, None),
                        mutability,
                        name: (name.lexeme, name.span),
                    },
                    span: first_span,
                },
            )
        }
    }

    /// The token `offset` places from the next one, if there is one.
    fn token_at(&self, offset: i32) -> (r: Option<&Token>)
        ensures
            match r {
                Some(t) => 0 <= self.position() + offset < self.context().tokens.len() && t@
                    == self.context().tokens[self.position() + offset],
                None => !(0 <= self.position() + offset < self.context().tokens.len()),
            },
    {
        if offset >= 0 {
            let forward = offset as usize;
            if forward < self.tokens.len() && self.pos < self.tokens.len() - forward {
                Some(&self.tokens[self.pos + forward])
            } else {
                None
            }
        } else {
            let back: usize = if offset == i32::MIN {
                2147483648
            } else {
                (0 - offset) as usize
            };
            if back <= self.pos && self.pos - back < self.tokens.len() {
                Some(&self.tokens[self.pos - back])
            } else {
                None
            }
        }
    }
}

impl ParserPlugin for VariableDeclParser {
    fn try_parse(&mut self) -> (r: Result<Node, Error>)
        ensures
            outcome(r) == declaration_model(old(self).context(), old(self).position()).0,
            final(self).position() == declaration_model(
                old(self).context(),
                old(self).position(),
            ).1,
            final(self).context() == old(self).context(),
    {
        self.parse_declaration()
    }

    fn get(&self, offset: i32) -> (r: Option<&Token>)
        ensures
            match r {
                Some(t) => 0 <= self.position() + offset < self.context().tokens.len() && t@
                    == self.context().tokens[self.position() + offset],
                None => !(0 <= self.position() + offset < self.context().tokens.len()),
            },
    {
        self.token_at(offset)
    }

    fn expect(&mut self, expected: &TokenType) -> (r: Result<(), Error>)
        ensures
            match r {
                Ok(_) => plugin_expect_model(
                    old(self).context(),
                    old(self).position(),
                    *expected,
                ).0 is Ok,
                Err(e) => plugin_expect_model(
                    old(self).context(),
                    old(self).position(),
                    *expected,
                ).0 == Err::<TokenModel, ErrorModel>(e@),
            },
            final(self).position() == plugin_expect_model(
                old(self).context(),
                old(self).position(),
                *expected,
            ).1,
            final(self).context() == old(self).context(),
    {
        match self.take(expected) {
            Ok(_) => Ok(()),
            Err(e) => Err(e),
        }
    }

    fn expect_and_take(&mut self, expected: &TokenType) -> (r: Result<Token, Error>)
        ensures
            (token_outcome(r), final(self).position()) == plugin_expect_model(
                old(self).context(),
                old(self).position(),
                *expected,
            ),
            final(self).context() == old(self).context(),
    {
        self.take(expected)
    }

    fn eof(&self) -> (r: Span)
        ensures
            r == previous_span(self.context(), self.position()),
    {
        self.end_span()
    }
}
} // verus!
