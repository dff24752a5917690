//! The vocabulary every stage shares: source spans, diagnostic codes and
//! diagnostics, the language's types and symbols, and operator precedence.

use crate::text::{
    chars_of, count_digits, decimal, decimal_text, digit_count, repeat_char, repeated, same_text,
    text_of,
};
use vstd::prelude::*;

verus! {
/// The binding powers of a binary operator: left, then right.
pub open spec fn binding_power(op: Seq<char>) -> Option<(i32, i32)> {
    if op == "+"@ || op == "-"@ {
        Some((20i32, 21i32))
    } else if op == "*"@ || op == "/"@ {
        Some((30i32, 31i32))
    } else if op == "=="@ || op == ">"@ || op == "<"@ || op == ">="@ || op == "<="@ || op == "!="@ {
        Some((10i32, 11i32))
    } else if op == "++"@ {
        Some((40i32, 41i32))
    } else if op == ":="@ {
        Some((50i32, 51i32))
    } else {
        None
    }
}

/// Looks up the binding powers of a binary operator; `None` for any other text.
pub fn prec(op: &String) -> (r: Option<(i32, i32)>)
    ensures
        r == binding_power(op@),
{
    let s = op.as_str();
    if same_text(s, "+") || same_text(s, "-") {
        Some((20, 21))
    } else if same_text(s, "*") || same_text(s, "/") {
        Some((30, 31))
    } else if same_text(s, "==") || same_text(s, ">") || same_text(s, "<") || same_text(s, ">=")
        || same_text(s, "<=") || same_text(s, "!=") {
        Some((10, 11))
    } else if same_text(s, "++") {
        Some((40, 41))
    } else if same_text(s, ":=") {
        Some((50, 51))
    } else {
        None
    }
}

/// The two-character symbols that the lexer reads as one token.
pub open spec fn is_combined_symbol(s: Seq<char>) -> bool {
    s == "=="@ || s == ">="@ || s == "<="@ || s == "++"@ || s == ":="@
}

/// The reserved words.
pub open spec fn is_keyword(s: Seq<char>) -> bool {
    s == "if"@ || s == "else"@ || s == "mut"@ || s == "struct"@ || s == "enum"@ || s == "func"@
}

/// A region of the source. `line` and `column` are zero-based and locate
/// the region's first character; `start_pos` and `end_pos` are the byte
/// offsets of its first and of its last byte.
#[derive(Clone, Copy, Debug, PartialEq, Eq, Structural)]
pub struct Span {
    pub line: usize,
    pub column: usize,
    pub start_pos: usize,
    pub end_pos: usize,
}

/// The kinds of diagnostic.
#[derive(Clone, Copy, Debug, Hash, PartialEq, Eq, Structural)]
pub enum ECode {
    UnexpectedEOF,
    UnexpectedToken,
    ExpectedToken,
    UndefinedIdentifier,
    MismatchedTypes,
    MutationError,
}

/// The registered code of each kind of diagnostic.
pub open spec fn code_text(c: ECode) -> Seq<char> {
    match c {
        ECode::UnexpectedEOF => "E1000"@,
        ECode::UnexpectedToken => "E1001"@,
        ECode::ExpectedToken => "E1002"@,
        ECode::UndefinedIdentifier => "E1003"@,
        ECode::MismatchedTypes => "E1004"@,
        ECode::MutationError => "E1005"@,
    }
}

impl ECode {
    /// The code as it is printed.
    pub fn to_string(&self) -> (r: String)
        ensures
            r@ == code_text(*self),
    {
        match self {
            ECode::UnexpectedEOF => "E1000".to_owned(),
            ECode::UnexpectedToken => "E1001".to_owned(),
            ECode::ExpectedToken => "E1002".to_owned(),
            ECode::UndefinedIdentifier => "E1003".to_owned(),
            ECode::MismatchedTypes => "E1004".to_owned(),
            ECode::MutationError => "E1005".to_owned(),
        }
    }
}

/// A type annotation as written: a name, or none.
#[derive(Debug, PartialEq)]
pub enum ParseType {
    Determined(String),
    Inferred,
}

pub enum ParseTypeModel {
    Determined(Seq<char>),
    Inferred,
}

impl View for ParseType {
    type V = ParseTypeModel;

    open spec fn view(&self) -> ParseTypeModel {
        match self {
            ParseType::Determined(s) => ParseTypeModel::Determined(s@),
            ParseType::Inferred => ParseTypeModel::Inferred,
        }
    }
}

impl Clone for ParseType {
    fn clone(&self) -> (r: ParseType)
        ensures
            r@ == self@,
    {
        match self {
            ParseType::Determined(s) => ParseType::Determined(s.clone()),
            ParseType::Inferred => ParseType::Inferred,
        }
    }
}

/// The language's types.
#[derive(Debug, Hash, PartialEq, Eq)]
pub enum Type {
    Int8,
    Int16,
    Int32,
    Int64,
    Float32,
    Float64,
    UInt8,
    UInt16,
    UInt32,
    UInt64,
    String,
    Char,
    Boolean,
    Alias(String),
    Void,
    Unit,
    Undetermined,
}

pub enum TypeModel {
    Int8,
    Int16,
    Int32,
    Int64,
    Float32,
    Float64,
    UInt8,
    UInt16,
    UInt32,
    UInt64,
    String,
    Char,
    Boolean,
    Alias(Seq<char>),
    Void,
    Unit,
    Undetermined,
}

impl View for Type {
    type V = TypeModel;

    open spec fn view(&self) -> TypeModel {
        match self {
            Type::Int8 => TypeModel::Int8,
            Type::Int16 => TypeModel::Int16,
            Type::Int32 => TypeModel::Int32,
            Type::Int64 => TypeModel::Int64,
            Type::Float32 => TypeModel::Float32,
            Type::Float64 => TypeModel::Float64,
            Type::UInt8 => TypeModel::UInt8,
            Type::UInt16 => TypeModel::UInt16,
            Type::UInt32 => TypeModel::UInt32,
            Type::UInt64 => TypeModel::UInt64,
            Type::String => TypeModel::String,
            Type::Char => TypeModel::Char,
            Type::Boolean => TypeModel::Boolean,
            Type::Alias(s) => TypeModel::Alias(s@),
            Type::Void => TypeModel::Void,
            Type::Unit => TypeModel::Unit,
            Type::Undetermined => TypeModel::Undetermined,
        }
    }
}

/// The name of a type as diagnostics print it.
pub open spec fn type_text(t: TypeModel) -> Seq<char> {
    match t {
        TypeModel::Int8 => "i8"@,
        TypeModel::Int16 => "i16"@,
        TypeModel::Int32 => "i32"@,
        TypeModel::Int64 => "i64"@,
        TypeModel::Float32 => "f32"@,
        TypeModel::Float64 => "f64"@,
        TypeModel::UInt8 => "u8"@,
        TypeModel::UInt16 => "u16"@,
        TypeModel::UInt32 => "u32"@,
        TypeModel::UInt64 => "u64"@,
        TypeModel::String => "string"@,
        TypeModel::Char => "char"@,
        TypeModel::Boolean => "bool"@,
        TypeModel::Alias(s) => s,
        TypeModel::Void => "void"@,
        TypeModel::Unit => "unit"@,
        TypeModel::Undetermined => "{undetermined}"@,
    }
}

impl TypeModel {
    pub open spec fn is_signed_int(self) -> bool {
        self is Int8 || self is Int16 || self is Int32 || self is Int64
    }

    pub open spec fn is_unsigned_int(self) -> bool {
        self is UInt8 || self is UInt16 || self is UInt32 || self is UInt64
    }

    pub open spec fn is_float(self) -> bool {
        self is Float32 || self is Float64
    }

    /// The numeric family: signed and unsigned integers and floats.
    pub open spec fn is_numeric(self) -> bool {
        self.is_signed_int() || self.is_unsigned_int() || self.is_float()
    }
}

impl Clone for Type {
    fn clone(&self) -> (r: Type)
        ensures
            r@ == self@,
    {
        match self {
            Type::Int8 => Type::Int8,
            Type::Int16 => Type::Int16,
            Type::Int32 => Type::Int32,
            Type::Int64 => Type::Int64,
            Type::Float32 => Type::Float32,
            Type::Float64 => Type::Float64,
            Type::UInt8 => Type::UInt8,
            Type::UInt16 => Type::UInt16,
            Type::UInt32 => Type::UInt32,
            Type::UInt64 => Type::UInt64,
            Type::String => Type::String,
            Type::Char => Type::Char,
            Type::Boolean => Type::Boolean,
            Type::Alias(s) => Type::Alias(s.clone()),
            Type::Void => Type::Void,
            Type::Unit => Type::Unit,
            Type::Undetermined => Type::Undetermined,
        }
    }
}

impl Type {
    /// Whether two types are the same type.
    pub fn same(&self, other: &Type) -> (r: bool)
        ensures
            r == (self@ == other@),
    {
        match (self, other) {
            (Type::Int8, Type::Int8) => true,
            (Type::Int16, Type::Int16) => true,
            (Type::Int32, Type::Int32) => true,
            (Type::Int64, Type::Int64) => true,
            (Type::Float32, Type::Float32) => true,
            (Type::Float64, Type::Float64) => true,
            (Type::UInt8, Type::UInt8) => true,
            (Type::UInt16, Type::UInt16) => true,
            (Type::UInt32, Type::UInt32) => true,
            (Type::UInt64, Type::UInt64) => true,
            (Type::String, Type::String) => true,
            (Type::Char, Type::Char) => true,
            (Type::Boolean, Type::Boolean) => true,
            (Type::Alias(a), Type::Alias(b)) => *a == *b,
            (Type::Void, Type::Void) => true,
            (Type::Unit, Type::Unit) => true,
            (Type::Undetermined, Type::Undetermined) => true,
            _ => false,
        }
    }

    pub fn is_signed_int(&self) -> (r: bool)
        ensures
            r == self@.is_signed_int(),
    {
        match self {
            Type::Int8 | Type::Int16 | Type::Int32 | Type::Int64 => true,
            _ => false,
        }
    }

    pub fn is_unsigned_int(&self) -> (r: bool)
        ensures
            r == self@.is_unsigned_int(),
    {
        match self {
            Type::UInt8 | Type::UInt16 | Type::UInt32 | Type::UInt64 => true,
            _ => false,
        }
    }

    pub fn is_float(&self) -> (r: bool)
        ensures
            r == self@.is_float(),
    {
        match self {
            Type::Float32 | Type::Float64 => true,
            _ => false,
        }
    }

    pub fn is_numeric(&self) -> (r: bool)
        ensures
            r == self@.is_numeric(),
    {
        self.is_signed_int() || self.is_unsigned_int() || self.is_float()
    }

    /// The name of the type as diagnostics print it.
    pub fn to_string(&self) -> (r: String)
        ensures
            r@ == type_text(self@),
    {
        match self {
            Type::Int8 => "i8".to_owned(),
            Type::Int16 => "i16".to_owned(),
            Type::Int32 => "i32".to_owned(),
            Type::Int64 => "i64".to_owned(),
            Type::Float32 => "f32".to_owned(),
            Type::Float64 => "f64".to_owned(),
            Type::UInt8 => "u8".to_owned(),
            Type::UInt16 => "u16".to_owned(),
            Type::UInt32 => "u32".to_owned(),
            Type::UInt64 => "u64".to_owned(),
            Type::String => "string".to_owned(),
            Type::Char => "char".to_owned(),
            Type::Boolean => "bool".to_owned(),
            Type::Alias(s) => s.clone(),
            Type::Void => "void".to_owned(),
            Type::Unit => "unit".to_owned(),
            Type::Undetermined => "{undetermined}".to_owned(),
        }
    }
}

/// What a name stands for.
#[derive(Debug, Hash, PartialEq, Eq)]
pub enum Symbol {
    Variable { name: String, type_: Type, mutability: bool },
}

pub struct SymbolModel {
    pub name: Seq<char>,
    pub type_: TypeModel,
    pub mutability: bool,
}

impl View for Symbol {
    type V = SymbolModel;

    open spec fn view(&self) -> SymbolModel {
        match self {
            Symbol::Variable { name, type_, mutability } => SymbolModel {
                name: name@,
                type_: type_@,
                mutability: *mutability,
            },
        }
    }
}

impl Symbol {
    pub fn name(&self) -> (r: &String)
        ensures
            r@ == self@.name,
    {
        match self {
            Symbol::Variable { name, .. } => name,
        }
    }

    pub fn type_(&self) -> (r: &Type)
        ensures
            r@ == self@.type_,
    {
        match self {
            Symbol::Variable { type_, .. } => type_,
        }
    }

    pub fn mutability(&self) -> (r: bool)
        ensures
            r == self@.mutability,
    {
        match self {
            Symbol::Variable { mutability, .. } => *mutability,
        }
    }
}

impl Clone for Symbol {
    fn clone(&self) -> (r: Symbol)
        ensures
            r@ == self@,
    {
        match self {
            Symbol::Variable { name, type_, mutability } => Symbol::Variable {
                name: name.clone(),
                type_: type_.clone(),
                mutability: *mutability,
            },
        }
    }
}

/// A diagnostic: what went wrong, where, and in which source.
#[derive(Debug, PartialEq)]
pub struct Error {
    pub code: ECode,
    pub details: String,
    pub span: Span,
    pub src: String,
    pub path: String,
    pub note: Option<String>,
    pub help: Option<String>,
}

pub struct ErrorModel {
    pub code: ECode,
    pub details: Seq<char>,
    pub span: Span,
    pub src: Seq<char>,
    pub path: Seq<char>,
    pub note: Option<Seq<char>>,
    pub help: Option<Seq<char>>,
}

pub open spec fn opt_text(o: Option<String>) -> Option<Seq<char>> {
    match o {
        Some(s) => Some(s@),
        None => None,
    }
}

impl View for Error {
    type V = ErrorModel;

    open spec fn view(&self) -> ErrorModel {
        ErrorModel {
            code: self.code,
            details: self.details@,
            span: self.span,
            src: self.src@,
            path: self.path@,
            note: opt_text(self.note),
            help: opt_text(self.help),
        }
    }
}

pub fn clone_opt_text(o: &Option<String>) -> (r: Option<String>)
    ensures
        opt_text(r) == opt_text(*o),
{
    match o {
        Some(s) => Some(s.clone()),
        None => None,
    }
}

impl Clone for Error {
    fn clone(&self) -> (r: Error)
        ensures
            r@ == self@,
    {
        Error {
            code: self.code,
            details: self.details.clone(),
            span: self.span,
            src: self.src.clone(),
            path: self.path.clone(),
            note: clone_opt_text(&self.note),
            help: clone_opt_text(&self.help),
        }
    }
}

/// The lines of a text: what stands between its newlines. A text without
/// newline is one line, and a text that ends in a newline ends in an empty
/// line.
pub open spec fn lines_of(src: Seq<char>) -> Seq<Seq<char>>
    decreases src.len(),
{
    if src.len() == 0 {
        seq![Seq::empty()]
    } else {
        let before = lines_of(src.drop_last());
        if src.last() == '\n' {
            before.push(Seq::empty())
        } else {
            before.update(before.len() - 1, before.last().push(src.last()))
        }
    }
}

/// The lines of a text.
pub fn split_lines(src: &str) -> (r: Vec<String>)
    ensures
        crate::text::models(r@) == lines_of(src@),
{
    let chars = chars_of(src);
    let mut lines: Vec<Vec<char>> = Vec::new();
    lines.push(Vec::new());
    let mut i: usize = 0;
    while i < chars.len()
        invariant
            i <= chars.len(),
            lines.len() >= 1,
            crate::text::models(lines@) == lines_of(chars@.take(i as int)),
        decreases chars.len() - i,
    {
        proof {
            assert(chars@.take(i as int + 1).drop_last() =~= chars@.take(i as int));
        }
        if chars[i] == '\n' {
            lines.push(Vec::new());
        } else {
            let mut last = lines.pop().unwrap();
            last.push(chars[i]);
            lines.push(last);
        }
        i = i + 1;
    }
    proof {
        assert(chars@.take(chars.len() as int) =~= chars@);
    }
    let mut out: Vec<String> = Vec::new();
    let mut k: usize = 0;
    while k < lines.len()
        invariant
            k <= lines.len(),
            out.len() == k,
            forall|j: int| 0 <= j < k ==> out[j]@ == lines[j]@,
        decreases lines.len() - k,
    {
        out.push(text_of(&lines[k]));
        k = k + 1;
    }
    out
}

/// A text followed by the blanks that bring it to `width` characters.
pub open spec fn padded(text: Seq<char>, width: nat) -> Seq<char> {
    if text.len() < width {
        text + repeated(' ', (width - text.len()) as nat)
    } else {
        text
    }
}

/// The line number that a zero-based line shows: one more, as far as the
/// machine counts.
pub open spec fn shown_line(line: usize) -> nat {
    if line < usize::MAX {
        (line + 1) as nat
    } else {
        usize::MAX as nat
    }
}

/// The width of the line-number gutter of a diagnostic at `line` that
/// shows `spread` lines on either side: the digits of `line + spread`, as
/// far as the machine counts.
pub open spec fn gutter_width(line: usize, spread: usize) -> nat {
    digit_count(
        if line + spread <= usize::MAX {
            (line + spread) as nat
        } else {
            usize::MAX as nat
        },
    )
}

/// The lines that a diagnostic shows on either side of the offending one.
pub const SPREAD: usize = 2;

/// One line of source as a diagnostic shows it: its number, a bar, its text.
pub open spec fn source_line(lines: Seq<Seq<char>>, index: int, width: nat) -> Seq<char> {
    " "@ + padded(decimal_text(shown_line(index as usize)), width) + " │ "@ + (if 0 <= index
        < lines.len() {
        lines[index]
    } else {
        Seq::empty()
    })
}

/// The lines shown around line `current`: `spread` lines before it, nearest
/// last, each followed by a newline; or, with `is_after`, `spread` lines
/// after it, nearest first, each preceded by a newline. Lines that the
/// source lacks are left out.
pub open spec fn context_lines(
    lines: Seq<Seq<char>>,
    current: usize,
    spread: nat,
    is_after: bool,
    width: nat,
    done: nat,
) -> Seq<char>
    decreases spread - done,
{
    if done >= spread {
        Seq::empty()
    } else {
        let distance: int = if is_after {
            done as int + 1
        } else {
            spread - done
        };
        let target: int = if is_after {
            current + distance
        } else {
            current - distance
        };
        let here = if 0 <= target < lines.len() && target <= usize::MAX {
            if is_after {
                "\n"@ + source_line(lines, target, width)
            } else {
                source_line(lines, target, width) + "\n"@
            }
        } else {
            Seq::empty()
        };
        here + context_lines(lines, current, spread, is_after, width, done + 1)
    }
}

/// How many characters the underline of a span takes.
pub open spec fn underline_len(span: Span) -> nat {
    if span.end_pos >= span.start_pos {
        if span.end_pos - span.start_pos < usize::MAX {
            (span.end_pos - span.start_pos + 1) as nat
        } else {
            usize::MAX as nat
        }
    } else {
        0
    }
}

impl ErrorModel {
    /// The line that says where: the path, the one-based line and the
    /// column.
    pub open spec fn location_text(self, spread: usize) -> Seq<char> {
        repeated(' ', gutter_width(self.span.line, spread) + 2) + "┌─ "@ + self.path + ":"@ + decimal_text(
            shown_line(self.span.line),
        ) + ":"@ + decimal_text(self.span.column as nat) + "\n"@
    }

    /// The offending line between its neighbours, underlined from the
    /// span's start to its end.
    pub open spec fn error_line_text(self, spread: usize) -> Seq<char> {
        let lines = lines_of(self.src);
        let width = gutter_width(self.span.line, spread);
        context_lines(lines, self.span.line, spread as nat, false, width, 0) + source_line(
            lines,
            self.span.line as int,
            width,
        ) + "\n"@ + " "@ + repeated(' ', width) + " │ "@ + repeated(' ', self.span.column as nat)
            + repeated('¯', underline_len(self.span)) + " "@ + self.details + context_lines(
            lines,
            self.span.line,
            spread as nat,
            true,
            width,
            0,
        )
    }

    /// An empty line of the gutter.
    pub open spec fn bar_text(self) -> Seq<char> {
        " "@ + repeated(' ', gutter_width(self.span.line, SPREAD)) + " │"@
    }

    /// The whole diagnostic: a header with the code and the details, the
    /// location, the source lines, and the note and the hint where there
    /// are any.
    pub open spec fn rendered(self) -> Seq<char> {
        let width = gutter_width(self.span.line, SPREAD);
        "error["@ + code_text(self.code) + "]: "@ + self.details + "\n"@ + self.location_text(
            SPREAD,
        ) + self.bar_text() + "\n"@ + self.error_line_text(SPREAD) + "\n"@ + self.bar_text() + (
        match self.note {
            Some(note) => "\n "@ + repeated(' ', width) + " = note: "@ + note,
            None => Seq::empty(),
        }) + (match self.help {
            Some(help) => "\n "@ + repeated(' ', width) + " > hint: "@ + help,
            None => Seq::empty(),
        })
    }
}

/// A text brought to `width` characters by blanks after it.
fn pad(text: String, width: usize) -> (r: String)
    ensures
        r@ == padded(text@, width as nat),
{
    let n = text.as_str().unicode_len();
    if n < width {
        let blanks = repeat_char(' ', width - n);
        let mut out = text;
        out.append(blanks.as_str());
        out
    } else {
        text
    }
}

fn shown(line: usize) -> (r: u64)
    ensures
        r as nat == shown_line(line),
{
    if line < usize::MAX {
        (line + 1) as u64
    } else {
        usize::MAX as u64
    }
}

fn source_line_text(lines: &Vec<String>, index: usize, width: usize) -> (r: String)
    ensures
        r@ == source_line(crate::text::models(lines@), index as int, width as nat),
{
    let mut out = " ".to_owned();
    let number = pad(decimal(shown(index)), width);
    out.append(number.as_str());
    out.append(" │ ");
    if index < lines.len() {
        out.append(lines[index].as_str());
    }
    out
}

impl Error {
    /// The digits that a line number takes: one for zero.
    pub fn calculate_max_digits(&self, max_line_num: usize) -> (r: usize)
        ensures
            r == digit_count(max_line_num as nat),
            1 <= r <= 20,
    {
        count_digits(max_line_num)
    }

    fn width(&self, spread: usize) -> (r: usize)
        ensures
            r == gutter_width(self.span.line, spread),
            1 <= r <= 20,
    {
        let last = match self.span.line.checked_add(spread) {
            Some(n) => n,
            None => usize::MAX,
        };
        self.calculate_max_digits(last)
    }

    /// The lines around `current_line`, before it or after it.
    pub fn format_context_lines(
        &self,
        current_line: usize,
        spread: usize,
        is_after: bool,
        lines: &Vec<String>,
        digits: usize,
    ) -> (r: String)
        ensures
            r@ == context_lines(
                crate::text::models(lines@),
                current_line,
                spread as nat,
                is_after,
                digits as nat,
                0,
            ),
    {
        let ghost lm = crate::text::models(lines@);
        let ghost whole = context_lines(lm, current_line, spread as nat, is_after, digits as nat, 0);
        let mut out = String::new();
        let mut done: usize = 0;
        while done < spread
            invariant
                done <= spread,
                lm == crate::text::models(lines@),
                out@ + context_lines(
                    lm,
                    current_line,
                    spread as nat,
                    is_after,
                    digits as nat,
                    done as nat,
                ) == whole,
            decreases spread - done,
        {
            let distance: usize = if is_after {
                done + 1
            } else {
                spread - done
            };
            let target: Option<usize> = if is_after {
                current_line.checked_add(distance)
            } else {
                current_line.checked_sub(distance)
            };
            match target {
                Some(index) => {
                    if index < lines.len() {
                        let text = source_line_text(lines, index, digits);
                        if is_after {
                            out.append("\n");
                            out.append(text.as_str());
                        } else {
                            out.append(text.as_str());
                            out.append("\n");
                        }
                    }
                },
                None => {},
            }
            done = done + 1;
        }
        out
    }

    /// The line that says where.
    pub fn format_location(&self, spread: usize) -> (r: String)
        ensures
            r@ == self@.location_text(spread),
    {
        let width = self.width(spread);
        let mut out = repeat_char(' ', width + 2);
        out.append("┌─ ");
        out.append(self.path.as_str());
        out.append(":");
        let line = decimal(shown(self.span.line));
        out.append(line.as_str());
        out.append(":");
        let column = decimal(self.span.column as u64);
        out.append(column.as_str());
        out.append("\n");
        out
    }

    fn underline(&self) -> (r: String)
        ensures
            r@ == repeated('¯', underline_len(self.span)),
    {
        if self.span.end_pos >= self.span.start_pos {
            let n = self.span.end_pos - self.span.start_pos;
            if n < usize::MAX {
                repeat_char('¯', n + 1)
            } else {
                repeat_char('¯', usize::MAX)
            }
        } else {
            repeat_char('¯', 0)
        }
    }

    /// The offending line between its neighbours, underlined.
    pub fn format_error_line(&self, spread: usize) -> (r: String)
        ensures
            r@ == self@.error_line_text(spread),
    {
        let lines = split_lines(self.src.as_str());
        let width = self.width(spread);
        let mut out = self.format_context_lines(self.span.line, spread, false, &lines, width);
        let main = source_line_text(&lines, self.span.line, width);
        out.append(main.as_str());
        out.append("\n");
        out.append(" ");
        let blanks = repeat_char(' ', width);
        out.append(blanks.as_str());
        out.append(" │ ");
        let indent = repeat_char(' ', self.span.column);
        out.append(indent.as_str());
        let marks = self.underline();
        out.append(marks.as_str());
        out.append(" ");
        out.append(self.details.as_str());
        let after = self.format_context_lines(self.span.line, spread, true, &lines, width);
        out.append(after.as_str());
        out
    }

    fn bar(&self) -> (r: String)
        ensures
            r@ == self@.bar_text(),
    {
        let mut out = " ".to_owned();
        let blanks = repeat_char(' ', self.width(SPREAD));
        out.append(blanks.as_str());
        out.append(" │");
        out
    }

    /// The diagnostic as it is printed, without colour.
    pub fn format(&self) -> (r: String)
        ensures
            r@ == self@.rendered(),
    {
        let mut out = "error[".to_owned();
        let code = self.code.to_string();
        out.append(code.as_str());
        out.append("]: ");
        out.append(self.details.as_str());
        out.append("\n");
        let location = self.format_location(SPREAD);
        out.append(location.as_str());
        let bar = self.bar();
        out.append(bar.as_str());
        out.append("\n");
        let lines = self.format_error_line(SPREAD);
        out.append(lines.as_str());
        out.append("\n");
        out.append(bar.as_str());
        let blanks = repeat_char(' ', self.width(SPREAD));
        match &self.note {
            Some(note) => {
                out.append("\n ");
                out.append(blanks.as_str());
                out.append(" = note: ");
                out.append(note.as_str());
            },
            None => {},
        }
        match &self.help {
            Some(help) => {
                out.append("\n ");
                out.append(blanks.as_str());
                out.append(" > hint: ");
                out.append(help.as_str());
            },
            None => {},
        }
        out
    }

    /// The diagnostic as it is printed.
    pub fn to_string(&self) -> (r: String)
        ensures
            r@ == self@.rendered(),
    {
        self.format()
    }
}
} // verus!
