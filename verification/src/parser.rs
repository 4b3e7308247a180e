//! Command parser: a tokenized line becomes one `Command`. The first token
//! picks the variant — one of the builtin names, or the external fallback —
//! and the remaining tokens become the payload.

use vstd::prelude::*;

use crate::command::Command;
use crate::command::SpecCommand;
use crate::command::spec_is_builtin;
use crate::text::str_eq;
use crate::tokenizer::spec_tokenize;
use crate::tokenizer::tokenize;

verus! {

/// The second token, or the empty string where the line has only one.
pub open spec fn spec_second_or_empty(toks: Seq<Seq<char>>) -> Seq<char> {
    if toks.len() >= 2 {
        toks[1]
    } else {
        Seq::<char>::empty()
    }
}

/// The tokens from position `n` on, or nothing where there are fewer.
pub open spec fn spec_tail(toks: Seq<Seq<char>>, n: int) -> Seq<Seq<char>> {
    if n <= toks.len() {
        toks.skip(n)
    } else {
        Seq::<Seq<char>>::empty()
    }
}

/// The command of a non-empty token sequence. `exit` always carries status
/// zero: the grammar reads no custom exit code.
pub open spec fn spec_parse_tokens(toks: Seq<Seq<char>>) -> SpecCommand
    recommends
        toks.len() > 0,
{
    let head = toks[0];
    if head == "exit"@ {
        SpecCommand::Exit(0)
    } else if head == "echo"@ {
        SpecCommand::Echo(spec_tail(toks, 1))
    } else if head == "type"@ {
        SpecCommand::Type(spec_second_or_empty(toks))
    } else if head == "cd"@ {
        SpecCommand::ChangeDirectory(spec_second_or_empty(toks))
    } else if head == "shell"@ {
        SpecCommand::ShellLocation
    } else if head == "exec"@ {
        SpecCommand::RunScript(spec_second_or_empty(toks), spec_tail(toks, 2))
    } else {
        SpecCommand::External(head, spec_tail(toks, 1))
    }
}

/// The command of a raw line, or nothing where the line has no tokens.
pub open spec fn spec_parse_line(line: Seq<char>) -> Option<SpecCommand> {
    let toks = spec_tokenize(line);
    if toks.len() == 0 {
        Option::None
    } else {
        Option::Some(spec_parse_tokens(toks))
    }
}

/// The parser's dispatch and the builtin set agree: a token line falls to
/// the external fallback exactly when its first token is not a builtin name.
pub proof fn lemma_external_iff_not_builtin(toks: Seq<Seq<char>>)
    requires
        toks.len() > 0,
    ensures
        spec_is_builtin(toks[0]) <==> !(spec_parse_tokens(toks) is External),
{
}

fn second_or_empty(tokens: &Vec<String>) -> (r: String)
    ensures
        r@ == spec_second_or_empty(tokens.deep_view()),
{
    if tokens.len() >= 2 {
        tokens[1].clone()
    } else {
        String::new()
    }
}

fn tail_from(tokens: &Vec<String>, start: usize) -> (r: Vec<String>)
    ensures
        r.deep_view() == spec_tail(tokens.deep_view(), start as int),
{
    let ghost dv = tokens.deep_view();
    let mut r: Vec<String> = Vec::new();
    if start >= tokens.len() {
        proof {
            if start as int <= dv.len() {
                assert(r.deep_view() =~= dv.skip(start as int));
            } else {
                assert(r.deep_view() =~= Seq::<Seq<char>>::empty());
            }
        }
        return r;
    }
    let mut i: usize = start;
    while i < tokens.len()
        invariant
            start <= i <= tokens.len(),
            dv == tokens.deep_view(),
            dv.len() == tokens@.len(),
            r.deep_view() =~= dv.subrange(start as int, i as int),
        decreases tokens.len() - i,
    {
        let ghost prev = r.deep_view();
        r.push(tokens[i].clone());
        proof {
            assert(r.deep_view() =~= prev.push(dv[i as int]));
            assert(prev.push(dv[i as int]) =~= dv.subrange(start as int, i as int + 1));
        }
        i = i + 1;
    }
    proof {
        assert(dv.subrange(start as int, dv.len() as int) =~= dv.skip(start as int));
    }
    r
}

/// Parses a non-empty token sequence into its command.
pub fn parse_tokens(tokens: &Vec<String>) -> (r: Command)
    requires
        tokens@.len() > 0,
    ensures
        r@ == spec_parse_tokens(tokens.deep_view()),
{
    let head = tokens[0].as_str();
    if str_eq(head, "exit") {
        Command::Exit(0)
    } else if str_eq(head, "echo") {
        Command::Echo(tail_from(tokens, 1))
    } else if str_eq(head, "type") {
        Command::Type(second_or_empty(tokens))
    } else if str_eq(head, "cd") {
        Command::ChangeDirectory(second_or_empty(tokens))
    } else if str_eq(head, "shell") {
        Command::ShellLocation
    } else if str_eq(head, "exec") {
        Command::RunScript(second_or_empty(tokens), tail_from(tokens, 2))
    } else {
        Command::External(tokens[0].clone(), tail_from(tokens, 1))
    }
}

/// Parses a raw input line. A blank line — one without tokens — gives
/// nothing rather than a command, so a caller can simply read on.
pub fn parse_line(line: &str) -> (r: Option<Command>)
    ensures
        r.deep_view() == spec_parse_line(line@),
{
    let tokens = tokenize(line);
    if tokens.len() == 0 {
        Option::None
    } else {
        Option::Some(parse_tokens(&tokens))
    }
}

} // verus!
