//! The stages in order, and the text handling around them.

use crate::frontend::lexer::{lex, tokenize};
use crate::frontend::parser::{parse_program_model, Module, NodeModel, ParseContext, Parser};
use crate::frontend::typechecker::{check_program_model, CheckContext, TypeChecker};
use crate::frontend::typeregistry::primitive_types;
use crate::global::{Error, ErrorModel, SymbolModel};
use crate::text::{chars_of, models, text_of};
use vstd::prelude::*;

verus! {
/// A text with every carriage return that a newline follows taken out.
pub open spec fn normalized(text: Seq<char>) -> Seq<char>
    decreases text.len(),
{
    if text.len() == 0 {
        Seq::empty()
    } else {
        let before = normalized(text.drop_last());
        if text.last() == '\n' && before.len() > 0 && text.len() >= 2 && text[text.len() - 2]
            == '\r' {
            before.drop_last().push('\n')
        } else {
            before.push(text.last())
        }
    }
}

/// Turns every CRLF line ending into LF.
pub fn normalize_newlines(text: &str) -> (r: String)
    ensures
        r@ == normalized(text@),
{
    let chars = chars_of(text);
    let mut out: Vec<char> = Vec::new();
    let mut i: usize = 0;
    while i < chars.len()
        invariant
            i <= chars.len(),
            out@ == normalized(chars@.take(i as int)),
        decreases chars.len() - i,
    {
        proof {
            assert(chars@.take(i as int + 1).drop_last() =~= chars@.take(i as int));
        }
        if chars[i] == '\n' && out.len() > 0 && i >= 1 && chars[i - 1] == '\r' {
            out.pop();
            out.push('\n');
        } else {
            out.push(chars[i]);
        }
        i = i + 1;
    }
    proof {
        assert(chars@.take(chars.len() as int) =~= chars@);
    }
    text_of(&out)
}

/// Whether a text ends in `.exe`.
pub open spec fn ends_in_exe(name: Seq<char>) -> bool {
    name.len() >= 4 && name.subrange(name.len() - 4, name.len() as int) == seq!['.', 'e', 'x', 'e']
}

/// The name of the executable: the name asked for, with `.exe` after it
/// unless it ends so; `main.exe` where none was asked for.
pub open spec fn executable_name(output: Option<Seq<char>>) -> Seq<char> {
    match output {
        Some(name) => if ends_in_exe(name) {
            name
        } else {
            name + ".exe"@
        },
        None => "main.exe"@,
    }
}

/// The name of the executable.
pub fn output_name(output: Option<String>) -> (r: String)
    ensures
        r@ == executable_name(crate::global::opt_text(output)),
{
    match output {
        Some(name) => {
            let chars = chars_of(name.as_str());
            let n = chars.len();
            if n >= 4 && chars[n - 4] == '.' && chars[n - 3] == 'e' && chars[n - 2] == 'x'
                && chars[n - 1] == 'e' {
                assert(chars@.subrange(n - 4, n as int) =~= seq!['.', 'e', 'x', 'e']);
                name
            } else {
                proof {
                    if n >= 4 {
                        let tail = chars@.subrange(n - 4, n as int);
                    }
                }
                let mut out = name;
                out.append(".exe");
                out
            }
        },
        None => "main.exe".to_owned(),
    }
}

/// What the front end makes of a source: the program, or the diagnostics
/// of the first stage that has any. The parser's diagnostics keep the type
/// checker from running.
pub open spec fn front_end_model(contents: Seq<char>, path: Seq<char>) -> Result<
    Seq<NodeModel>,
    Seq<ErrorModel>,
> {
    let tokens = lex(contents);
    let (nodes, errors) = parse_program_model(ParseContext { tokens, src: contents, path }, 0);
    if errors.len() > 0 {
        Err(errors)
    } else {
        let found = check_program_model(
            nodes,
            0,
            seq![Seq::<SymbolModel>::empty()],
            CheckContext { registry: primitive_types(), src: contents, path },
        ).0;
        if found.len() > 0 {
            Err(found)
        } else {
            Ok(nodes)
        }
    }
}

pub open spec fn front_end_outcome(r: Result<Module, Vec<Error>>) -> Result<
    Seq<NodeModel>,
    Seq<ErrorModel>,
> {
    match r {
        Ok(m) => Ok(m@),
        Err(errors) => Err(models(errors@)),
    }
}

/// Runs the lexer, the parser and the type checker on a source.
pub fn front_end(contents: &String, path: &String) -> (r: Result<Module, Vec<Error>>)
    ensures
        front_end_outcome(r) == front_end_model(contents@, path@),
{
    let tokens = tokenize(contents);
    let mut parser = Parser::new(tokens, contents, path);
    let (module, errors) = parser.parse_program();
    if errors.len() > 0 {
        return Err(errors);
    }
    let mut checker = TypeChecker::new(module.clone(), contents.clone(), path.clone());
    let found = checker.check();
    if found.len() > 0 {
        Err(found)
    } else {
        Ok(module)
    }
}

/// The length in bytes of the longest of the texts; zero where there is
/// none.
pub fn longest_string_length<const N: usize>(strings: &[&str; N]) -> (r: usize)
    ensures
        forall|i: int| 0 <= i < N ==> strings[i].len() <= r,
        N == 0 ==> r == 0,
        N > 0 ==> exists|i: int| 0 <= i < N && strings[i].len() == r,
{
    let mut max_len: usize = 0;
    let mut i: usize = 0;
    while i < N
        invariant
            i <= N,
            forall|k: int| 0 <= k < i ==> strings[k].len() <= max_len,
            i == 0 ==> max_len == 0,
            i > 0 ==> exists|k: int| 0 <= k < i && strings[k].len() == max_len,
        decreases N - i,
    {
        if strings[i].len() > max_len {
            max_len = strings[i].len();
        }
        i = i + 1;
    }
    max_len
}
} // verus!
