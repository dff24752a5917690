//! The lexer: turns source text into tokens, each with the region of the
//! source it came from.
//!
//! A span's positions are byte offsets into the source as UTF-8; its
//! column counts characters.

use crate::global::{is_combined_symbol, is_keyword, Span};
use crate::text::{
    byte_offset, char_width, chars_of, float_text, i64_of_text, is_digit, is_float_text, join3,
    lemma_byte_offset_grows, lemma_byte_offset_step, lemma_encode_subrange, parse_i64, push_char,
    same_text,
};
use vstd::utf8::encode_utf8;
use vstd::prelude::*;

verus! {
/// The kinds of token.
#[derive(Clone, Copy, Debug, PartialEq, Eq, Structural)]
pub enum TokenType {
    Int,
    Float,
    String,
    Bool,
    Identifier,
    Keyword,
    Operator,
    LParen,
    RParen,
    LBrace,
    RBrace,
    Equals,
    Semicolon,
    ColonEquals,
    Colon,
}

/// How a kind of token reads in running text: a word and a space for the
/// kinds that carry a lexeme of their own, nothing for punctuation.
pub open spec fn kind_text(t: TokenType) -> Seq<char> {
    match t {
        TokenType::Int => "integer "@,
        TokenType::Float => "float "@,
        TokenType::String => "string "@,
        TokenType::Bool => "boolean "@,
        TokenType::Identifier => "identifier "@,
        TokenType::Keyword => "keyword "@,
        TokenType::Operator => "operator "@,
        _ => ""@,
    }
}

/// How a kind of token is named in a diagnostic: punctuation by its symbol
/// between backticks, the others as in running text.
pub open spec fn kind_error_text(t: TokenType) -> Seq<char> {
    match t {
        TokenType::LParen => "`(`"@,
        TokenType::RParen => "`)`"@,
        TokenType::LBrace => "`{`"@,
        TokenType::RBrace => "`}`"@,
        TokenType::Semicolon => "`;`"@,
        TokenType::Colon => "`:`"@,
        TokenType::ColonEquals => "`:=`"@,
        TokenType::Equals => "`=`"@,
        _ => kind_text(t),
    }
}

impl TokenType {
    /// The kind as it reads in running text.
    pub fn to_string(&self) -> (r: String)
        ensures
            r@ == kind_text(*self),
    {
        match self {
            TokenType::Int => "integer ".to_owned(),
            TokenType::Float => "float ".to_owned(),
            TokenType::String => "string ".to_owned(),
            TokenType::Bool => "boolean ".to_owned(),
            TokenType::Identifier => "identifier ".to_owned(),
            TokenType::Keyword => "keyword ".to_owned(),
            TokenType::Operator => "operator ".to_owned(),
            _ => "".to_owned(),
        }
    }

    /// The kind as a diagnostic names it.
    pub fn to_error_repr(&self) -> (r: String)
        ensures
            r@ == kind_error_text(*self),
    {
        match self {
            TokenType::LParen => "`(`".to_owned(),
            TokenType::RParen => "`)`".to_owned(),
            TokenType::LBrace => "`{`".to_owned(),
            TokenType::RBrace => "`}`".to_owned(),
            TokenType::Semicolon => "`;`".to_owned(),
            TokenType::Colon => "`:`".to_owned(),
            TokenType::ColonEquals => "`:=`".to_owned(),
            TokenType::Equals => "`=`".to_owned(),
            _ => self.to_string(),
        }
    }
}

/// A token: its kind, where it stood, and its text.
#[derive(Debug, PartialEq)]
pub struct Token {
    pub token_type: TokenType,
    pub span: Span,
    pub lexeme: String,
}

pub struct TokenModel {
    pub token_type: TokenType,
    pub span: Span,
    pub lexeme: Seq<char>,
}

impl View for Token {
    type V = TokenModel;

    open spec fn view(&self) -> TokenModel {
        TokenModel { token_type: self.token_type, span: self.span, lexeme: self.lexeme@ }
    }
}

impl Clone for Token {
    fn clone(&self) -> (r: Token)
        ensures
            r@ == self@,
    {
        Token { token_type: self.token_type, span: self.span, lexeme: self.lexeme.clone() }
    }
}

/// A token as a diagnostic shows it: its kind, then its text between
/// backticks.
pub open spec fn token_text(t: TokenModel) -> Seq<char> {
    kind_text(t.token_type) + "`"@ + t.lexeme + "`"@
}

impl Token {
    /// The token as a diagnostic shows it.
    pub fn to_string(&self) -> (r: String)
        ensures
            r@ == token_text(self@),
    {
        let kind = self.token_type.to_string();
        let mut out = join3(kind.as_str(), "`", self.lexeme.as_str());
        out.append("`");
        out
    }
}

/// The operator symbols.
pub open spec fn is_operator(s: Seq<char>) -> bool {
    s == "+"@ || s == "-"@ || s == "*"@ || s == "/"@ || s == "=="@ || s == ">"@ || s == "<"@ || s
        == ">="@ || s == "<="@ || s == "!="@ || s == "++"@ || s == "!"@
}

/// The kind of a lexeme that is not a string literal: reserved words first,
/// then operators and punctuation, then numbers, then `true` and `false`;
/// anything else is an identifier.
pub open spec fn classify(lexeme: Seq<char>) -> TokenType {
    if is_keyword(lexeme) {
        TokenType::Keyword
    } else if is_operator(lexeme) {
        TokenType::Operator
    } else if lexeme == "="@ {
        TokenType::Equals
    } else if lexeme == "("@ {
        TokenType::LParen
    } else if lexeme == ")"@ {
        TokenType::RParen
    } else if lexeme == "{"@ {
        TokenType::LBrace
    } else if lexeme == "}"@ {
        TokenType::RBrace
    } else if lexeme == ";"@ {
        TokenType::Semicolon
    } else if lexeme == ":"@ {
        TokenType::Colon
    } else if lexeme == ":="@ {
        TokenType::ColonEquals
    } else if i64_of_text(lexeme) is Some {
        TokenType::Int
    } else if is_float_text(lexeme) {
        TokenType::Float
    } else if lexeme == "true"@ || lexeme == "false"@ {
        TokenType::Bool
    } else {
        TokenType::Identifier
    }
}

fn keyword(s: &str) -> (r: bool)
    ensures
        r == is_keyword(s@),
{
    same_text(s, "if") || same_text(s, "else") || same_text(s, "mut") || same_text(s, "struct")
        || same_text(s, "enum") || same_text(s, "func")
}

fn operator(s: &str) -> (r: bool)
    ensures
        r == is_operator(s@),
{
    same_text(s, "+") || same_text(s, "-") || same_text(s, "*") || same_text(s, "/") || same_text(
        s,
        "==",
    ) || same_text(s, ">") || same_text(s, "<") || same_text(s, ">=") || same_text(s, "<=")
        || same_text(s, "!=") || same_text(s, "++") || same_text(s, "!")
}

fn combined_symbol(s: &str) -> (r: bool)
    ensures
        r == is_combined_symbol(s@),
{
    same_text(s, "==") || same_text(s, ">=") || same_text(s, "<=") || same_text(s, "++")
        || same_text(s, ":=")
}

/// Whether a lexeme reads as a number, whole or floating.
pub open spec fn is_numeric_text(s: Seq<char>) -> bool {
    i64_of_text(s) is Some || is_float_text(s)
}

fn numeric_text(s: &str) -> (r: bool)
    ensures
        r == is_numeric_text(s@),
{
    parse_i64(s).is_some() || float_text(s)
}

/// The kind of a lexeme that is not a string literal.
pub fn kind_of(lexeme: &str) -> (r: TokenType)
    ensures
        r == classify(lexeme@),
{
    if keyword(lexeme) {
        TokenType::Keyword
    } else if operator(lexeme) {
        TokenType::Operator
    } else if same_text(lexeme, "=") {
        TokenType::Equals
    } else if same_text(lexeme, "(") {
        TokenType::LParen
    } else if same_text(lexeme, ")") {
        TokenType::RParen
    } else if same_text(lexeme, "{") {
        TokenType::LBrace
    } else if same_text(lexeme, "}") {
        TokenType::RBrace
    } else if same_text(lexeme, ";") {
        TokenType::Semicolon
    } else if same_text(lexeme, ":") {
        TokenType::Colon
    } else if same_text(lexeme, ":=") {
        TokenType::ColonEquals
    } else if parse_i64(lexeme).is_some() {
        TokenType::Int
    } else if float_text(lexeme) {
        TokenType::Float
    } else if same_text(lexeme, "true") || same_text(lexeme, "false") {
        TokenType::Bool
    } else {
        TokenType::Identifier
    }
}

/// The token of a lexeme that is not a string literal.
pub fn sel_token(lexeme: &String, span: &Span) -> (t: Token)
    ensures
        t@ == (TokenModel { token_type: classify(lexeme@), span: *span, lexeme: lexeme@ }),
{
    Token { token_type: kind_of(lexeme.as_str()), span: *span, lexeme: lexeme.clone() }
}

/// The token of a string literal's content.
pub fn into_string_token(lexeme: &String, span: &Span) -> (t: Token)
    ensures
        t@ == (TokenModel { token_type: TokenType::String, span: *span, lexeme: lexeme@ }),
{
    Token { token_type: TokenType::String, span: *span, lexeme: lexeme.clone() }
}

/// The state of a scan: the position reached, the lexeme being gathered
/// and where it began, whether a string literal is open, and the tokens
/// made so far.
pub struct LexState {
    pub pos: int,
    pub start: int,
    pub current: Seq<char>,
    pub in_string: bool,
    pub tokens: Seq<TokenModel>,
}

/// The zero-based line of position `p`: the newlines before it.
pub open spec fn line_of(chars: Seq<char>, p: int) -> int
    decreases p,
{
    if p <= 0 {
        0
    } else if p <= chars.len() && chars[p - 1] == '\n' {
        line_of(chars, p - 1) + 1
    } else {
        line_of(chars, p - 1)
    }
}

/// The zero-based column of position `p`: the characters between it and the
/// newline before it.
pub open spec fn column_of(chars: Seq<char>, p: int) -> int
    decreases p,
{
    if p <= 0 {
        0
    } else if p <= chars.len() && chars[p - 1] == '\n' {
        0
    } else {
        column_of(chars, p - 1) + 1
    }
}

/// A byte offset as the machine counts it: an offset past the largest
/// number counts as that number.
pub open spec fn clipped(n: int) -> usize {
    if n < 0 {
        0
    } else if n > usize::MAX {
        usize::MAX
    } else {
        n as usize
    }
}

/// The span of the characters from index `start` to index `end`: located
/// at `start`, from the first byte of the one to the last byte of the
/// other.
pub open spec fn span_at(chars: Seq<char>, start: int, end: int) -> Span {
    let after = clipped(byte_offset(chars, end + 1));
    Span {
        line: line_of(chars, start) as usize,
        column: column_of(chars, start) as usize,
        start_pos: clipped(byte_offset(chars, start)),
        end_pos: if after > 0 {
            (after - 1) as usize
        } else {
            0
        },
    }
}

/// The tokens once the gathered lexeme, if there is one, has become a
/// token ending just before the position reached.
pub open spec fn flushed(chars: Seq<char>, st: LexState) -> Seq<TokenModel> {
    if st.current.len() > 0 {
        st.tokens.push(
            TokenModel {
                token_type: classify(st.current),
                span: span_at(chars, st.start, st.pos - 1),
                lexeme: st.current,
            },
        )
    } else {
        st.tokens
    }
}

/// Where a line comment that begins at `i` ends: at the next newline, or at
/// the end of the source.
pub open spec fn line_comment_end(chars: Seq<char>, i: int) -> int
    decreases chars.len() - i,
{
    if i < 0 || i >= chars.len() || chars[i] == '\n' {
        i
    } else {
        line_comment_end(chars, i + 1)
    }
}

/// Where a block comment ends when the search for its closing `*/` begins
/// at `j`: just past the first `*/`, or at the end of the source.
pub open spec fn block_comment_end(chars: Seq<char>, j: int) -> int
    decreases chars.len() - j,
{
    if j < 0 || j + 1 >= chars.len() {
        chars.len() as int
    } else if chars[j] == '*' && chars[j + 1] == '/' {
        j + 2
    } else {
        block_comment_end(chars, j + 1)
    }
}

/// Reads the symbol at `i`: two characters where they form a combined
/// symbol, else one.
pub open spec fn symbol_step(chars: Seq<char>, st: LexState, i: int) -> LexState {
    let pair = seq![chars[i], chars[i + 1]];
    let single = seq![chars[i]];
    if i + 1 < chars.len() && is_combined_symbol(pair) {
        LexState {
            pos: i + 2,
            tokens: st.tokens.push(
                TokenModel {
                    token_type: classify(pair),
                    span: span_at(chars, i, i + 1),
                    lexeme: pair,
                },
            ),
            ..st
        }
    } else {
        LexState {
            pos: i + 1,
            tokens: st.tokens.push(
                TokenModel { token_type: classify(single), span: span_at(chars, i, i), lexeme: single },
            ),
            ..st
        }
    }
}

pub open spec fn is_word_start(c: char) -> bool {
    ('a' <= c && c <= 'z') || ('A' <= c && c <= 'Z') || c == '_'
}

/// Whether a point at `st.pos` extends the gathered lexeme: there must be
/// one, and it must read as an integer or a digit must follow.
pub open spec fn point_extends(chars: Seq<char>, st: LexState) -> bool {
    st.current.len() > 0 && (i64_of_text(st.current) is Some || (st.pos + 1 < chars.len()
        && is_digit(chars[st.pos + 1])))
}

/// One step of the scan, at a position inside the source.
///
/// Inside a string literal every character but the closing quote is
/// gathered; the quote ends the literal, which becomes a token unless it is
/// empty. Outside, a quote, a slash, a blank, a newline and every character
/// that is no digit, letter, underscore or point end the gathered lexeme.
/// `//` skips to the end of the line and `/*` to just past the next `*/`.
/// A point that does not extend the lexeme is skipped. A letter after a
/// number begins a new lexeme.
pub open spec fn step(chars: Seq<char>, st: LexState) -> LexState {
    let i = st.pos;
    let c = chars[i];
    let cleared = LexState { current: Seq::empty(), tokens: flushed(chars, st), ..st };
    if st.in_string {
        if c == '"' {
            LexState {
                pos: i + 1,
                current: Seq::empty(),
                in_string: false,
                tokens: if st.current.len() > 0 {
                    st.tokens.push(
                        TokenModel {
                            token_type: TokenType::String,
                            span: span_at(chars, st.start, i - 1),
                            lexeme: st.current,
                        },
                    )
                } else {
                    st.tokens
                },
                ..st
            }
        } else {
            LexState { pos: i + 1, current: st.current.push(c), ..st }
        }
    } else if c == '"' {
        LexState { pos: i + 1, start: i + 1, in_string: true, ..cleared }
    } else if c == '/' {
        if i + 1 < chars.len() && chars[i + 1] == '/' {
            LexState { pos: line_comment_end(chars, i), ..cleared }
        } else if i + 1 < chars.len() && chars[i + 1] == '*' {
            LexState { pos: block_comment_end(chars, i), ..cleared }
        } else {
            symbol_step(chars, cleared, i)
        }
    } else if c == ' ' || c == '\t' || c == '\n' {
        LexState { pos: i + 1, ..cleared }
    } else if c == '.' {
        if point_extends(chars, st) {
            LexState { pos: i + 1, current: st.current.push(c), ..st }
        } else {
            LexState { pos: i + 1, ..st }
        }
    } else if is_digit(c) {
        LexState {
            pos: i + 1,
            start: if st.current.len() == 0 {
                i
            } else {
                st.start
            },
            current: st.current.push(c),
            ..st
        }
    } else if is_word_start(c) {
        if st.current.len() > 0 && is_numeric_text(st.current) {
            LexState { pos: i + 1, start: i, current: seq![c], ..cleared }
        } else {
            LexState {
                pos: i + 1,
                start: if st.current.len() == 0 {
                    i
                } else {
                    st.start
                },
                current: st.current.push(c),
                ..st
            }
        }
    } else {
        symbol_step(chars, cleared, i)
    }
}

pub proof fn lemma_line_comment_end(chars: Seq<char>, i: int)
    requires
        0 <= i <= chars.len(),
    ensures
        i <= line_comment_end(chars, i) <= chars.len(),
        forall|k: int| i <= k < line_comment_end(chars, i) ==> chars[k] != '\n',
    decreases chars.len() - i,
{
    if i < chars.len() && chars[i] != '\n' {
        lemma_line_comment_end(chars, i + 1);
    }
}

pub proof fn lemma_block_comment_end(chars: Seq<char>, j: int)
    requires
        0 <= j <= chars.len(),
    ensures
        j <= block_comment_end(chars, j) <= chars.len(),
        j + 1 < chars.len() ==> j + 2 <= block_comment_end(chars, j),
    decreases chars.len() - j,
{
    if j + 1 < chars.len() && !(chars[j] == '*' && chars[j + 1] == '/') {
        lemma_block_comment_end(chars, j + 1);
    }
}

/// Every step moves on.
pub proof fn lemma_step_advances(chars: Seq<char>, st: LexState)
    requires
        0 <= st.pos < chars.len(),
    ensures
        st.pos < step(chars, st).pos <= chars.len(),
{
    let i = st.pos;
    if !st.in_string && chars[i] == '/' {
        if i + 1 < chars.len() && chars[i + 1] == '/' {
            lemma_line_comment_end(chars, i + 1);
        } else if i + 1 < chars.len() && chars[i + 1] == '*' {
            lemma_block_comment_end(chars, i);
        }
    }
}

/// The tokens that the scan ends with when it goes on from `st`: at the end
/// of the source what is left of a lexeme becomes the last token.
pub open spec fn lex_from(chars: Seq<char>, st: LexState) -> Seq<TokenModel>
    decreases chars.len() - st.pos,
{
    if st.pos < 0 || st.pos >= chars.len() {
        flushed(chars, st)
    } else {
        proof {
            lemma_step_advances(chars, st);
        }
        lex_from(chars, step(chars, st))
    }
}

/// The state in which a scan begins.
pub open spec fn initial_state() -> LexState {
    LexState { pos: 0, start: 0, current: Seq::empty(), in_string: false, tokens: Seq::empty() }
}

/// The tokens of a source.
pub open spec fn lex(chars: Seq<char>) -> Seq<TokenModel> {
    lex_from(chars, initial_state())
}

proof fn lemma_position_bounds(chars: Seq<char>, p: int)
    requires
        0 <= p,
    ensures
        0 <= line_of(chars, p) <= p,
        0 <= column_of(chars, p) <= p,
    decreases p,
{
    if p > 0 {
        lemma_position_bounds(chars, p - 1);
    }
}

/// A scan in progress.
struct Scanner {
    pos: usize,
    byte_pos: usize,
    line: usize,
    column: usize,
    start: usize,
    start_byte: usize,
    start_line: usize,
    start_column: usize,
    current: String,
    in_string: bool,
    tokens: Vec<Token>,
}

impl View for Scanner {
    type V = LexState;

    closed spec fn view(&self) -> LexState {
        LexState {
            pos: self.pos as int,
            start: self.start as int,
            current: self.current@,
            in_string: self.in_string,
            tokens: crate::text::models(self.tokens@),
        }
    }
}

impl Scanner {
    /// The line and column kept are those of the positions kept, and a
    /// gathered lexeme began before the position reached.
    spec fn wf(&self, chars: Seq<char>) -> bool {
        &&& self.pos <= chars.len()
        &&& self.start <= chars.len()
        &&& self.line == line_of(chars, self.pos as int)
        &&& self.column == column_of(chars, self.pos as int)
        &&& self.byte_pos == clipped(byte_offset(chars, self.pos as int))
        &&& self.start_byte == clipped(byte_offset(chars, self.start as int))
        &&& self.start_line == line_of(chars, self.start as int)
        &&& self.start_column == column_of(chars, self.start as int)
        &&& self.current@.len() > 0 ==> self.start < self.pos
        &&& self.in_string ==> self.start <= self.pos
    }

    fn new() -> (r: Scanner)
        ensures
            r@ == initial_state(),
            forall|chars: Seq<char>| r.wf(chars),
    {
        let r = Scanner {
            pos: 0,
            byte_pos: 0,
            line: 0,
            column: 0,
            start: 0,
            start_byte: 0,
            start_line: 0,
            start_column: 0,
            current: String::new(),
            in_string: false,
            tokens: Vec::new(),
        };
        assert(r@.tokens =~= Seq::<TokenModel>::empty());
        r
    }

    /// Moves past one character.
    fn advance(&mut self, chars: &Vec<char>)
        requires
            old(self).wf(chars@),
            old(self).pos < chars.len(),
        ensures
            final(self)@ == (LexState { pos: old(self).pos + 1, ..old(self)@ }),
            final(self).wf(chars@),
    {
        proof {
            lemma_position_bounds(chars@, self.pos as int);
            lemma_byte_offset_step(chars@, self.pos as int);
        }
        let width = char_width(chars[self.pos]);
        self.byte_pos = if self.byte_pos <= usize::MAX - width {
            self.byte_pos + width
        } else {
            usize::MAX
        };
        if chars[self.pos] == '\n' {
            self.line = self.line + 1;
            self.column = 0;
        } else {
            self.column = self.column + 1;
        }
        self.pos = self.pos + 1;
    }

    /// Lets the lexeme to come begin at the position reached.
    fn mark_start(&mut self, chars: &Vec<char>)
        requires
            old(self).wf(chars@),
            old(self).current@.len() == 0,
        ensures
            final(self)@ == (LexState { start: old(self).pos as int, ..old(self)@ }),
            final(self).wf(chars@),
    {
        self.start = self.pos;
        self.start_byte = self.byte_pos;
        self.start_line = self.line;
        self.start_column = self.column;
    }

    fn emit(&mut self, token: Token)
        ensures
            final(self)@ == (LexState { tokens: old(self)@.tokens.push(token@), ..old(self)@ }),
            forall|chars: Seq<char>| old(self).wf(chars) ==> final(self).wf(chars),
    {
        self.tokens.push(token);
        assert(self@.tokens =~= old(self)@.tokens.push(token@));
    }

    /// The offset of the last byte before the position reached.
    fn last_byte(&self) -> (r: usize)
        ensures
            r == if self.byte_pos > 0 {
                (self.byte_pos - 1) as usize
            } else {
                0
            },
    {
        if self.byte_pos > 0 {
            self.byte_pos - 1
        } else {
            0
        }
    }

    /// Turns the gathered lexeme, if there is one, into a token.
    fn flush(&mut self, chars: &Vec<char>)
        requires
            old(self).wf(chars@),
        ensures
            final(self)@ == (LexState {
                current: Seq::empty(),
                tokens: flushed(chars@, old(self)@),
                ..old(self)@
            }),
            final(self).wf(chars@),
    {
        if !self.current.as_str().is_empty() {
            let span = Span {
                line: self.start_line,
                column: self.start_column,
                start_pos: self.start_byte,
                end_pos: self.last_byte(),
            };
            let token = sel_token(&self.current, &span);
            self.emit(token);
            self.current = String::new();
        } else {
            assert(self.current@ =~= Seq::<char>::empty());
        }
    }

    /// Gathers the character at the position reached and moves past it.
    fn gather(&mut self, chars: &Vec<char>)
        requires
            old(self).wf(chars@),
            old(self).pos < chars.len(),
            old(self).current@.len() > 0 ==> old(self).start <= old(self).pos,
            old(self).current@.len() == 0 ==> old(self).start == old(self).pos,
        ensures
            final(self)@ == (LexState {
                pos: old(self).pos + 1,
                current: old(self)@.current.push(chars[old(self).pos as int]),
                ..old(self)@
            }),
            final(self).wf(chars@),
    {
        let c = chars[self.pos];
        self.advance(chars);
        push_char(&mut self.current, c);
    }

    /// Reads the symbol at the position reached.
    fn symbol(&mut self, chars: &Vec<char>)
        requires
            old(self).wf(chars@),
            old(self).pos < chars.len(),
            old(self).current@.len() == 0,
        ensures
            final(self)@ == symbol_step(chars@, old(self)@, old(self).pos as int),
            final(self).wf(chars@),
    {
        let i = self.pos;
        let line = self.line;
        let column = self.column;
        let start_pos = self.byte_pos;
        if i + 1 < chars.len() {
            let mut pair = String::new();
            push_char(&mut pair, chars[i]);
            push_char(&mut pair, chars[i + 1]);
            assert(pair@ =~= seq![chars[i as int], chars[i + 1]]);
            if combined_symbol(pair.as_str()) {
                self.advance(chars);
                self.advance(chars);
                let span = Span { line, column, start_pos, end_pos: self.last_byte() };
                let token = sel_token(&pair, &span);
                self.emit(token);
                return ;
            }
        }
        let mut single = String::new();
        push_char(&mut single, chars[i]);
        self.advance(chars);
        let span = Span { line, column, start_pos, end_pos: self.last_byte() };
        let token = sel_token(&single, &span);
        self.emit(token);
    }

    /// Moves to `end`, which lies ahead.
    fn skip_to(&mut self, chars: &Vec<char>, end: usize)
        requires
            old(self).wf(chars@),
            old(self).pos <= end <= chars.len(),
            old(self).current@.len() == 0,
        ensures
            final(self)@ == (LexState { pos: end as int, ..old(self)@ }),
            final(self).wf(chars@),
    {
        while self.pos < end
            invariant
                self.wf(chars@),
                self.pos <= end <= chars.len(),
                self@ == (LexState { pos: self.pos as int, ..old(self)@ }),
            decreases end - self.pos,
        {
            self.advance(chars);
        }
    }

    /// One step of the scan.
    fn step(&mut self, chars: &Vec<char>)
        requires
            old(self).wf(chars@),
            old(self).pos < chars.len(),
        ensures
            final(self)@ == step(chars@, old(self)@),
            final(self).wf(chars@),
    {
        let i = self.pos;
        let c = chars[i];
        if self.in_string {
            if c == '"' {
                if !self.current.as_str().is_empty() {
                    let span = Span {
                        line: self.start_line,
                        column: self.start_column,
                        start_pos: self.start_byte,
                        end_pos: self.last_byte(),
                    };
                    let token = into_string_token(&self.current, &span);
                    self.emit(token);
                    self.current = String::new();
                } else {
                    assert(self.current@ =~= Seq::<char>::empty());
                }
                self.in_string = false;
                self.advance(chars);
            } else {
                self.gather_in_string(chars);
            }
        } else if c == '"' {
            self.flush(chars);
            self.advance(chars);
            self.mark_start(chars);
            self.in_string = true;
        } else if c == '/' {
            self.flush(chars);
            if i + 1 < chars.len() && chars[i + 1] == '/' {
                let end = find_line_end(chars, i);
                self.skip_to(chars, end);
            } else if i + 1 < chars.len() && chars[i + 1] == '*' {
                let end = find_comment_end(chars, i);
                self.skip_to(chars, end);
            } else {
                self.symbol(chars);
            }
        } else if c == ' ' || c == '\t' || c == '\n' {
            self.flush(chars);
            self.advance(chars);
        } else if c == '.' {
            if !self.current.as_str().is_empty() && (parse_i64(self.current.as_str()).is_some() || (i + 1
                < chars.len() && digit(chars[i + 1]))) {
                self.gather(chars);
            } else {
                self.advance(chars);
            }
        } else if digit(c) {
            if self.current.as_str().is_empty() {
                self.mark_start(chars);
            }
            self.gather(chars);
        } else if word_start(c) {
            if !self.current.as_str().is_empty() && numeric_text(self.current.as_str()) {
                self.flush(chars);
            }
            if self.current.as_str().is_empty() {
                self.mark_start(chars);
            }
            self.gather(chars);
        } else {
            self.flush(chars);
            self.symbol(chars);
        }
    }

    /// Gathers a character of a string literal.
    fn gather_in_string(&mut self, chars: &Vec<char>)
        requires
            old(self).wf(chars@),
            old(self).pos < chars.len(),
            old(self).in_string,
        ensures
            final(self)@ == (LexState {
                pos: old(self).pos + 1,
                current: old(self)@.current.push(chars[old(self).pos as int]),
                ..old(self)@
            }),
            final(self).wf(chars@),
    {
        let c = chars[self.pos];
        self.advance(chars);
        push_char(&mut self.current, c);
    }
}

fn digit(c: char) -> (r: bool)
    ensures
        r == is_digit(c),
{
    c >= '0' && c <= '9'
}

fn word_start(c: char) -> (r: bool)
    ensures
        r == is_word_start(c),
{
    (c >= 'a' && c <= 'z') || (c >= 'A' && c <= 'Z') || c == '_'
}

fn find_line_end(chars: &Vec<char>, i: usize) -> (end: usize)
    requires
        i <= chars.len(),
    ensures
        end == line_comment_end(chars@, i as int),
        i <= end <= chars.len(),
{
    let mut j: usize = i;
    while j < chars.len() && chars[j] != '\n'
        invariant
            i <= j <= chars.len(),
            line_comment_end(chars@, i as int) == line_comment_end(chars@, j as int),
        decreases chars.len() - j,
    {
        j = j + 1;
    }
    j
}

fn find_comment_end(chars: &Vec<char>, i: usize) -> (end: usize)
    requires
        i <= chars.len(),
    ensures
        end == block_comment_end(chars@, i as int),
        i <= end <= chars.len(),
{
    let mut j: usize = i;
    while j < chars.len() && j + 1 < chars.len()
        invariant
            i <= j <= chars.len(),
            block_comment_end(chars@, i as int) == block_comment_end(chars@, j as int),
        decreases chars.len() - j,
    {
        if chars[j] == '*' && chars[j + 1] == '/' {
            return j + 2;
        }
        j = j + 1;
    }
    chars.len()
}

/// Splits a source into tokens. Every source has tokens: what fits no
/// other kind is an identifier.
pub fn tokenize(source: &String) -> (tokens: Vec<Token>)
    ensures
        crate::text::models(tokens@) == lex(source@),
{
    let chars = chars_of(source.as_str());
    let mut scanner = Scanner::new();
    while scanner.pos < chars.len()
        invariant
            scanner.wf(chars@),
            chars@ == source@,
            lex_from(chars@, scanner@) == lex(source@),
        decreases chars.len() - scanner.pos,
    {
        proof {
            lemma_step_advances(chars@, scanner@);
        }
        scanner.step(&chars);
    }
    scanner.flush(&chars);
    scanner.tokens
}

/// Whether the scan from `st` on skips a point while a lexeme is being
/// gathered: the point then lies inside the token's span and not in its
/// lexeme.
pub open spec fn skips_point_in_lexeme(chars: Seq<char>, st: LexState) -> bool
    decreases chars.len() - st.pos,
{
    if st.pos < 0 || st.pos >= chars.len() {
        false
    } else {
        proof {
            lemma_step_advances(chars, st);
        }
        (!st.in_string && chars[st.pos] == '.' && st.current.len() > 0 && !point_extends(chars, st))
            || skips_point_in_lexeme(chars, step(chars, st))
    }
}

/// Whether the span of a token covers exactly its lexeme in the source:
/// the bytes of the source from `start_pos` to `end_pos`, both included,
/// are the bytes of the lexeme.
pub open spec fn reproduces(chars: Seq<char>, t: TokenModel) -> bool {
    &&& t.span.start_pos <= t.span.end_pos < encode_utf8(chars).len()
    &&& encode_utf8(chars).subrange(t.span.start_pos as int, t.span.end_pos + 1) == encode_utf8(
        t.lexeme,
    )
}

spec fn coherent(chars: Seq<char>, st: LexState) -> bool {
    &&& 0 <= st.pos <= chars.len()
    &&& (st.current.len() > 0 || st.in_string) ==> 0 <= st.start <= st.pos && st.current
        == chars.subrange(st.start, st.pos)
    &&& forall|k: int| 0 <= k < st.tokens.len() ==> reproduces(chars, #[trigger] st.tokens[k])
}

/// The span of a run of characters covers the bytes that encode it.
proof fn lemma_span_covers(chars: Seq<char>, start: int, end: int)
    requires
        encode_utf8(chars).len() <= usize::MAX,
        0 <= start <= end < chars.len(),
    ensures
        span_at(chars, start, end).start_pos <= span_at(chars, start, end).end_pos < encode_utf8(
            chars,
        ).len(),
        encode_utf8(chars).subrange(
            span_at(chars, start, end).start_pos as int,
            span_at(chars, start, end).end_pos + 1,
        ) == encode_utf8(chars.subrange(start, end + 1)),
{
    lemma_encode_subrange(chars, start, end + 1);
    let run = chars.subrange(start, end + 1);
    lemma_byte_offset_step(run, run.len() - 1);
}

proof fn lemma_flushed_coherent(chars: Seq<char>, st: LexState)
    requires
        encode_utf8(chars).len() <= usize::MAX,
        coherent(chars, st),
    ensures
        forall|k: int|
            0 <= k < flushed(chars, st).len() ==> reproduces(chars, #[trigger] flushed(chars, st)[k]),
{
    if st.current.len() > 0 {
        lemma_span_covers(chars, st.start, st.pos - 1);
    }
}

proof fn lemma_symbol_coherent(chars: Seq<char>, st: LexState, i: int)
    requires
        encode_utf8(chars).len() <= usize::MAX,
        coherent(chars, st),
        0 <= i < chars.len(),
        st.current.len() == 0,
        !st.in_string,
    ensures
        coherent(chars, symbol_step(chars, st, i)),
{
    let pair = seq![chars[i], chars[i + 1]];
    let single = seq![chars[i]];
    if i + 1 < chars.len() {
        assert(chars.subrange(i, i + 2) =~= pair);
        lemma_span_covers(chars, i, i + 1);
    }
    assert(chars.subrange(i, i + 1) =~= single);
    lemma_span_covers(chars, i, i);
}

proof fn lemma_step_coherent(chars: Seq<char>, st: LexState)
    requires
        encode_utf8(chars).len() <= usize::MAX,
        coherent(chars, st),
        0 <= st.pos < chars.len(),
        !(!st.in_string && chars[st.pos] == '.' && st.current.len() > 0 && !point_extends(chars, st)),
    ensures
        coherent(chars, step(chars, st)),
{
    let i = st.pos;
    let c = chars[i];
    let cleared = LexState { current: Seq::empty(), tokens: flushed(chars, st), ..st };
    lemma_step_advances(chars, st);
    if st.current.len() > 0 || st.in_string {
        assert(chars.subrange(st.start, i).push(c) =~= chars.subrange(st.start, i + 1));
        if st.current.len() > 0 {
            lemma_span_covers(chars, st.start, i - 1);
        }
    }
    assert(Seq::<char>::empty().push(c) =~= chars.subrange(i, i + 1));
    if st.current.len() == 0 {
        assert(st.current =~= Seq::<char>::empty());
    }
    assert(Seq::<char>::empty() =~= chars.subrange(i + 1, i + 1));
    if !st.in_string {
        lemma_symbol_coherent(chars, cleared, i);
    }
}

proof fn lemma_lex_from_reproduces(chars: Seq<char>, st: LexState)
    requires
        encode_utf8(chars).len() <= usize::MAX,
        coherent(chars, st),
        !skips_point_in_lexeme(chars, st),
    ensures
        forall|k: int|
            0 <= k < lex_from(chars, st).len() ==> reproduces(
                chars,
                #[trigger] lex_from(chars, st)[k],
            ),
    decreases chars.len() - st.pos,
{
    if st.pos >= chars.len() {
        lemma_flushed_coherent(chars, st);
    } else {
        lemma_step_advances(chars, st);
        lemma_step_coherent(chars, st);
        lemma_lex_from_reproduces(chars, step(chars, st));
        assert(lex_from(chars, st) == lex_from(chars, step(chars, st)));
    }
}

/// The span of every token covers exactly its lexeme in the source: the
/// bytes from `start_pos` to `end_pos`, both included, are the lexeme's.
/// This holds of every source in which no point is skipped inside a lexeme
/// (and whose length in bytes the machine can count, as that of every
/// string is).
pub proof fn lemma_spans_reproduce_lexemes(source: Seq<char>, k: int)
    requires
        encode_utf8(source).len() <= usize::MAX,
        !skips_point_in_lexeme(source, initial_state()),
        0 <= k < lex(source).len(),
    ensures
        reproduces(source, lex(source)[k]),
{
    lemma_lex_from_reproduces(source, initial_state());
}

/// Whether a token is as the lexer makes them: not empty, and either the
/// content of a string literal or of the kind that its lexeme has.
pub open spec fn well_classified(t: TokenModel) -> bool {
    t.lexeme.len() > 0 && (t.token_type == TokenType::String || t.token_type == classify(t.lexeme))
}

proof fn lemma_lex_from_classified(chars: Seq<char>, st: LexState)
    requires
        0 <= st.pos <= chars.len(),
        forall|k: int| 0 <= k < st.tokens.len() ==> well_classified(#[trigger] st.tokens[k]),
    ensures
        forall|k: int|
            0 <= k < lex_from(chars, st).len() ==> well_classified(
                #[trigger] lex_from(chars, st)[k],
            ),
    decreases chars.len() - st.pos,
{
    if st.pos < chars.len() {
        lemma_step_advances(chars, st);
        let next = step(chars, st);
        lemma_lex_from_classified(chars, next);
        assert(lex_from(chars, st) == lex_from(chars, next));
    }
}

/// Every token of a source is well classified. An integer token therefore
/// reads as a 64-bit integer and a boolean token is `true` or `false`.
pub proof fn lemma_tokens_are_classified(source: Seq<char>, k: int)
    requires
        0 <= k < lex(source).len(),
    ensures
        well_classified(lex(source)[k]),
        lex(source)[k].token_type == TokenType::Int ==> i64_of_text(lex(source)[k].lexeme) is Some,
        lex(source)[k].token_type == TokenType::Bool ==> lex(source)[k].lexeme == "true"@
            || lex(source)[k].lexeme == "false"@,
{
    lemma_lex_from_classified(source, initial_state());
}

/// Where the next token of a scan may begin at the earliest: where the
/// gathered lexeme or the open string literal began, else the position
/// reached.
spec fn frontier(st: LexState) -> int {
    if st.current.len() > 0 || st.in_string {
        st.start
    } else {
        st.pos
    }
}

/// Whether tokens stand in source order: each ends before those after it
/// begin.
pub open spec fn in_order(tokens: Seq<TokenModel>) -> bool {
    forall|i: int, j: int|
        0 <= i < j < tokens.len() ==> (#[trigger] tokens[i]).span.end_pos < (
        #[trigger] tokens[j]).span.start_pos
}

spec fn ordered(chars: Seq<char>, st: LexState) -> bool {
    &&& 0 <= st.pos <= chars.len()
    &&& 0 <= frontier(st) <= st.pos
    &&& st.current.len() > 0 ==> st.start < st.pos
    &&& in_order(st.tokens)
    &&& forall|k: int|
        0 <= k < st.tokens.len() ==> (#[trigger] st.tokens[k]).span.start_pos
            <= st.tokens[k].span.end_pos < byte_offset(chars, frontier(st))
}

proof fn lemma_span_bounds(chars: Seq<char>, start: int, end: int)
    requires
        encode_utf8(chars).len() <= usize::MAX,
        0 <= start <= end < chars.len(),
    ensures
        span_at(chars, start, end).start_pos == byte_offset(chars, start),
        span_at(chars, start, end).end_pos == byte_offset(chars, end + 1) - 1,
        byte_offset(chars, start) <= byte_offset(chars, end + 1) - 1,
{
    lemma_byte_offset_grows(chars, start, end + 1);
    lemma_byte_offset_grows(chars, 0, start);
    lemma_byte_offset_grows(chars, end + 1, chars.len() as int);
}

proof fn lemma_pushed_in_order(chars: Seq<char>, tokens: Seq<TokenModel>, bound: int, t: TokenModel)
    requires
        in_order(tokens),
        forall|k: int|
            0 <= k < tokens.len() ==> (#[trigger] tokens[k]).span.start_pos
                <= tokens[k].span.end_pos < bound,
        bound <= t.span.start_pos <= t.span.end_pos,
    ensures
        in_order(tokens.push(t)),
        forall|k: int|
            0 <= k < tokens.push(t).len() ==> (#[trigger] tokens.push(t)[k]).span.start_pos
                <= tokens.push(t)[k].span.end_pos <= t.span.end_pos,
{
    let after = tokens.push(t);
    assert forall|i: int, j: int| 0 <= i < j < after.len() implies (#[trigger] after[i]).span.end_pos
        < (#[trigger] after[j]).span.start_pos by {
        if j < tokens.len() {
            assert(tokens[i].span.end_pos < tokens[j].span.start_pos);
        } else {
            assert(tokens[i].span.end_pos < bound);
        }
    }
    assert forall|k: int| 0 <= k < after.len() implies (#[trigger] after[k]).span.start_pos
        <= after[k].span.end_pos <= t.span.end_pos by {
        if k < tokens.len() {
            assert(tokens[k].span.end_pos < bound);
        }
    }
}

proof fn lemma_flushed_ordered(chars: Seq<char>, st: LexState)
    requires
        encode_utf8(chars).len() <= usize::MAX,
        ordered(chars, st),
        !st.in_string || st.pos >= chars.len() || st.current.len() > 0,
    ensures
        in_order(flushed(chars, st)),
        forall|k: int|
            0 <= k < flushed(chars, st).len() ==> (#[trigger] flushed(chars, st)[k]).span.start_pos
                <= flushed(chars, st)[k].span.end_pos < byte_offset(chars, st.pos),
{
    lemma_byte_offset_grows(chars, frontier(st), st.pos);
    if st.current.len() > 0 {
        lemma_span_bounds(chars, st.start, st.pos - 1);
        lemma_pushed_in_order(
            chars,
            st.tokens,
            byte_offset(chars, st.start),
            TokenModel {
                token_type: classify(st.current),
                span: span_at(chars, st.start, st.pos - 1),
                lexeme: st.current,
            },
        );
    }
}

proof fn lemma_symbol_ordered(chars: Seq<char>, st: LexState, i: int)
    requires
        encode_utf8(chars).len() <= usize::MAX,
        ordered(chars, st),
        st.pos == i,
        0 <= i < chars.len(),
        st.current.len() == 0,
        !st.in_string,
    ensures
        ordered(chars, symbol_step(chars, st, i)),
{
    let pair = seq![chars[i], chars[i + 1]];
    let single = seq![chars[i]];
    let bound = byte_offset(chars, i);
    if i + 1 < chars.len() && is_combined_symbol(pair) {
        lemma_span_bounds(chars, i, i + 1);
        lemma_pushed_in_order(
            chars,
            st.tokens,
            bound,
            TokenModel { token_type: classify(pair), span: span_at(chars, i, i + 1), lexeme: pair },
        );
    } else {
        lemma_span_bounds(chars, i, i);
        lemma_pushed_in_order(
            chars,
            st.tokens,
            bound,
            TokenModel { token_type: classify(single), span: span_at(chars, i, i), lexeme: single },
        );
    }
}

proof fn lemma_step_ordered(chars: Seq<char>, st: LexState)
    requires
        encode_utf8(chars).len() <= usize::MAX,
        ordered(chars, st),
        0 <= st.pos < chars.len(),
    ensures
        ordered(chars, step(chars, st)),
{
    let i = st.pos;
    let c = chars[i];
    let next = step(chars, st);
    lemma_step_advances(chars, st);
    lemma_byte_offset_grows(chars, frontier(st), i);
    lemma_byte_offset_grows(chars, i, next.pos);
    lemma_byte_offset_grows(chars, i, i + 1);
    if st.in_string {
        if c == '"' && st.current.len() > 0 {
            lemma_span_bounds(chars, st.start, i - 1);
            lemma_pushed_in_order(
                chars,
                st.tokens,
                byte_offset(chars, st.start),
                TokenModel {
                    token_type: TokenType::String,
                    span: span_at(chars, st.start, i - 1),
                    lexeme: st.current,
                },
            );
        }
    } else {
        let cleared = LexState { current: Seq::empty(), tokens: flushed(chars, st), ..st };
        lemma_flushed_ordered(chars, st);
        assert(ordered(chars, cleared));
        lemma_symbol_ordered(chars, cleared, i);
    }
}

proof fn lemma_lex_from_ordered(chars: Seq<char>, st: LexState)
    requires
        encode_utf8(chars).len() <= usize::MAX,
        ordered(chars, st),
    ensures
        in_order(lex_from(chars, st)),
    decreases chars.len() - st.pos,
{
    if st.pos < chars.len() {
        lemma_step_advances(chars, st);
        lemma_step_ordered(chars, st);
        lemma_lex_from_ordered(chars, step(chars, st));
    } else {
        lemma_flushed_ordered(chars, st);
    }
}

/// The tokens of a source stand in source order and do not overlap: each
/// ends before those after it begin.
pub proof fn lemma_tokens_in_order(source: Seq<char>)
    requires
        encode_utf8(source).len() <= usize::MAX,
    ensures
        in_order(lex(source)),
{
    lemma_lex_from_ordered(source, initial_state());
}
} // verus!
