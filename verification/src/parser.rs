//! The command language: whitespace-tokenized commands and a minimal
//! expression reader.

use vstd::prelude::*;

use crate::errors::CliError;
use crate::syntax::{Expr, ExprV, Name};

verus! {

/// Whitespace for tokenization.
pub open spec fn is_ws(c: char) -> bool {
    c == ' ' || c == '\t' || c == '\r' || c == '\n'
}

/// The length of the leading token: characters up to the first whitespace.
pub open spec fn token_end(s: Seq<char>) -> nat
    decreases s.len(),
{
    if s.len() == 0 {
        0
    } else if is_ws(s[0]) {
        0
    } else {
        1 + token_end(s.skip(1))
    }
}

/// The leading token is within the text.
pub proof fn lemma_token_end(s: Seq<char>)
    ensures
        0 <= token_end(s) <= s.len(),
        s.len() > 0 && !is_ws(s[0]) ==> token_end(s) >= 1,
    decreases s.len(),
{
    if s.len() > 0 && !is_ws(s[0]) {
        lemma_token_end(s.skip(1));
    }
}

/// Whitespace splitting: leading whitespace is dropped, the leading token is
/// taken, and the rest is split in turn.
pub open spec fn split_ws(s: Seq<char>) -> Seq<Seq<char>>
    decreases s.len(),
    via split_ws_decreases
{
    if s.len() == 0 {
        Seq::empty()
    } else if is_ws(s[0]) {
        split_ws(s.skip(1))
    } else {
        let k = token_end(s) as int;
        seq![s.subrange(0, k)] + split_ws(s.skip(k))
    }
}

#[via_fn]
proof fn split_ws_decreases(s: Seq<char>) {
    if s.len() > 0 && !is_ws(s[0]) {
        lemma_token_end(s);
    }
}

/// View of a list of strings.
pub open spec fn strings_view(s: Seq<String>) -> Seq<Seq<char>>
    decreases s,
{
    if s.len() == 0 {
        Seq::empty()
    } else {
        strings_view(s.drop_last()).push(s.last()@)
    }
}

/// Index characterisation of `strings_view`.
pub proof fn lemma_strings_view(s: Seq<String>)
    ensures
        strings_view(s).len() == s.len(),
        forall|i: int| 0 <= i < s.len() ==> #[trigger] strings_view(s)[i] == s[i]@,
    decreases s,
{
    if s.len() > 0 {
        lemma_strings_view(s.drop_last());
    }
}

/// Splits text on whitespace.
#[verifier::rlimit(100)]
pub fn split_whitespace_vec(s: &str) -> (r: Vec<String>)
    ensures
        strings_view(r@) == split_ws(s@),
{
    let len = s.unicode_len();
    let mut out: Vec<String> = Vec::new();
    let mut i: usize = 0;
    proof {
        lemma_strings_view(out@);
        assert(s@.skip(0) =~= s@);
        assert(strings_view(out@) + split_ws(s@.skip(0)) =~= split_ws(s@));
    }
    while i < len
        invariant
            i <= len,
            len == s@.len(),
            split_ws(s@) =~= strings_view(out@) + split_ws(s@.skip(i as int)),
        decreases len - i,
    {
        let c = s.get_char(i);
        if c == ' ' || c == '\t' || c == '\r' || c == '\n' {
            proof {
                assert(s@.skip(i as int)[0] == s@[i as int]);
                assert(s@.skip(i as int).skip(1) =~= s@.skip(i + 1));
                assert(split_ws(s@.skip(i as int)) == split_ws(s@.skip(i + 1)));
            }
            i = i + 1;
        } else {
            let ghost rest = s@.skip(i as int);
            let start = i;
            let mut j = i + 1;
            proof {
                lemma_token_end(rest);
                assert(rest.skip(1) =~= s@.skip(i + 1));
                assert(token_end(rest) == 1 + token_end(s@.skip(i + 1)));
            }
            while j < len
                invariant
                    start < j <= len,
                    len == s@.len(),
                    rest == s@.skip(start as int),
                    token_end(rest) == (j - start) + token_end(s@.skip(j as int)),
                ensures
                    start < j <= len,
                    token_end(rest) == j - start,
                decreases len - j,
            {
                let c2 = s.get_char(j);
                if c2 == ' ' || c2 == '\t' || c2 == '\r' || c2 == '\n' {
                    proof {
                        assert(s@.skip(j as int)[0] == s@[j as int]);
                        assert(token_end(s@.skip(j as int)) == 0);
                        assert(token_end(rest) == j - start);
                    }
                    break;
                }
                proof {
                    assert(s@.skip(j as int)[0] == s@[j as int]);
                    assert(s@.skip(j as int).skip(1) =~= s@.skip(j + 1));
                    assert(token_end(s@.skip(j as int)) == 1 + token_end(s@.skip(j + 1)));
                }
                j = j + 1;
            }
            proof {
                assert(token_end(rest) == j - start);
            }
            let token = s.substring_char(start, j).to_owned();
            let ghost pre = out@;
            out.push(token);
            proof {
                assert(out@.drop_last() =~= pre);
                assert(rest.subrange(0, (j - start) as int) =~= s@.subrange(
                    start as int,
                    j as int,
                ));
                assert(rest.skip((j - start) as int) =~= s@.skip(j as int));
                assert(split_ws(rest) == seq![rest.subrange(0, (j - start) as int)] + split_ws(
                    s@.skip(j as int),
                ));
                assert(strings_view(out@) =~= strings_view(pre).push(
                    s@.subrange(start as int, j as int),
                ));
                assert(split_ws(s@) =~= strings_view(out@) + split_ws(s@.skip(j as int)));
            }
            i = j;
        }
    }
    proof {
        assert(s@.skip(i as int).len() == 0);
        assert(split_ws(s@.skip(i as int)) =~= Seq::<Seq<char>>::empty());
        assert(strings_view(out@) =~= split_ws(s@));
    }
    out
}

/// A parsed command.
#[derive(Debug)]
pub enum Command {
    /// Introduce a hypothesis; the name is optional.
    Intro { name: Option<String> },
    /// Close the goal with the given term text.
    Exact { term: String },
    /// Apply the given function text.
    Apply { func: String },
    /// Close the goal with a hypothesis.
    Assumption,
    /// Close a reflexive path goal.
    Refl,
    /// Undo the last action.
    Undo,
    /// Redo the last undone action.
    Redo,
    /// Show the current goal.
    Show,
    /// Show the help text.
    Help,
    /// Leave the session.
    Quit,
    /// Start a construction with the given name.
    Construct { name: String },
    /// Verify the current construction.
    Verify,
}

/// View of a command.
#[verifier::ext_equal]
pub enum CommandV {
    Intro { name: Option<Seq<char>> },
    Exact { term: Seq<char> },
    Apply { func: Seq<char> },
    Assumption,
    Refl,
    Undo,
    Redo,
    Show,
    Help,
    Quit,
    Construct { name: Seq<char> },
    Verify,
}

impl DeepView for Command {
    type V = CommandV;

    open spec fn deep_view(&self) -> CommandV {
        match self {
            Command::Intro { name } => CommandV::Intro {
                name: match name {
                    Some(n) => Some(n@),
                    None => None,
                },
            },
            Command::Exact { term } => CommandV::Exact { term: term@ },
            Command::Apply { func } => CommandV::Apply { func: func@ },
            Command::Assumption => CommandV::Assumption,
            Command::Refl => CommandV::Refl,
            Command::Undo => CommandV::Undo,
            Command::Redo => CommandV::Redo,
            Command::Show => CommandV::Show,
            Command::Help => CommandV::Help,
            Command::Quit => CommandV::Quit,
            Command::Construct { name } => CommandV::Construct { name: name@ },
            Command::Verify => CommandV::Verify,
        }
    }
}

/// What a token list parses to: the leading keyword decides, and `exact`,
/// `apply` and `construct` need an argument.
pub open spec fn parse_command_s(parts: Seq<Seq<char>>) -> Option<CommandV> {
    if parts.len() == 0 {
        None
    } else if parts[0] == "intro"@ {
        Some(CommandV::Intro { name: None })
    } else if parts[0] == "exact"@ {
        if parts.len() < 2 {
            None
        } else {
            Some(CommandV::Exact { term: parts[1] })
        }
    } else if parts[0] == "apply"@ {
        if parts.len() < 2 {
            None
        } else {
            Some(CommandV::Apply { func: parts[1] })
        }
    } else if parts[0] == "assumption"@ {
        Some(CommandV::Assumption)
    } else if parts[0] == "refl"@ {
        Some(CommandV::Refl)
    } else if parts[0] == "undo"@ {
        Some(CommandV::Undo)
    } else if parts[0] == "redo"@ {
        Some(CommandV::Redo)
    } else if parts[0] == "show"@ {
        Some(CommandV::Show)
    } else if parts[0] == "help"@ {
        Some(CommandV::Help)
    } else if parts[0] == "quit"@ {
        Some(CommandV::Quit)
    } else if parts[0] == "construct"@ {
        if parts.len() < 2 {
            None
        } else {
            Some(CommandV::Construct { name: parts[1] })
        }
    } else if parts[0] == "verify"@ {
        Some(CommandV::Verify)
    } else {
        None
    }
}

/// The command parser.
#[derive(Debug)]
pub struct CommandParser {
}

impl CommandParser {
    /// A parser.
    pub fn new() -> (r: Self) {
        CommandParser {  }
    }

    /// Parses a command line: the first whitespace token names the command,
    /// the second is its argument where one is needed.
    pub fn parse_command(&self, input: &str) -> (r: Result<Command, CliError>)
        ensures
            match r {
                Ok(c) => parse_command_s(split_ws(input@)) == Some(c.deep_view()),
                Err(_) => parse_command_s(split_ws(input@)) is None,
            },
    {
        let parts = split_whitespace_vec(input);
        proof {
            lemma_strings_view(parts@);
        }
        if parts.len() == 0 {
            let mut m = String::new();
            m.append("empty command");
            return Err(CliError::ParseError(m));
        }
        let head = parts[0].as_str();
        if crate::text::str_eq(head, "intro") {
            Ok(Command::Intro { name: None })
        } else if crate::text::str_eq(head, "exact") {
            if parts.len() < 2 {
                let mut m = String::new();
                m.append("exact requires an argument");
                return Err(CliError::ParseError(m));
            }
            Ok(Command::Exact { term: parts[1].clone() })
        } else if crate::text::str_eq(head, "apply") {
            if parts.len() < 2 {
                let mut m = String::new();
                m.append("apply requires an argument");
                return Err(CliError::ParseError(m));
            }
            Ok(Command::Apply { func: parts[1].clone() })
        } else if crate::text::str_eq(head, "assumption") {
            Ok(Command::Assumption)
        } else if crate::text::str_eq(head, "refl") {
            Ok(Command::Refl)
        } else if crate::text::str_eq(head, "undo") {
            Ok(Command::Undo)
        } else if crate::text::str_eq(head, "redo") {
            Ok(Command::Redo)
        } else if crate::text::str_eq(head, "show") {
            Ok(Command::Show)
        } else if crate::text::str_eq(head, "help") {
            Ok(Command::Help)
        } else if crate::text::str_eq(head, "quit") {
            Ok(Command::Quit)
        } else if crate::text::str_eq(head, "construct") {
            if parts.len() < 2 {
                let mut m = String::new();
                m.append("construct requires a name");
                return Err(CliError::ParseError(m));
            }
            Ok(Command::Construct { name: parts[1].clone() })
        } else if crate::text::str_eq(head, "verify") {
            Ok(Command::Verify)
        } else {
            let mut m = String::new();
            m.append("unknown command: ");
            m.append(head);
            Err(CliError::ParseError(m))
        }
    }

    /// Reads an expression: the universes by name, anything else as a free
    /// variable; blank input is refused.
    pub fn parse_expr(&self, input: &str) -> (r: Result<Expr, CliError>)
        ensures
            match r {
                Ok(e) => split_ws(input@).len() > 0 && (if split_ws(input@)[0] == "Type"@
                    || split_ws(input@)[0] == "Type0"@ {
                    e.deep_view() == ExprV::Type(0)
                } else if split_ws(input@)[0] == "Type1"@ {
                    e.deep_view() == ExprV::Type(1)
                } else {
                    e.deep_view() == ExprV::Var(split_ws(input@)[0], 0)
                }),
                Err(_) => split_ws(input@).len() == 0,
            },
    {
        proof {
            reveal_with_fuel(crate::syntax::expr_view, 2);
        }
        let parts = split_whitespace_vec(input);
        proof {
            lemma_strings_view(parts@);
        }
        if parts.len() == 0 {
            let mut m = String::new();
            m.append("cannot parse an empty expression");
            return Err(CliError::ParseError(m));
        }
        let head = parts[0].as_str();
        if crate::text::str_eq(head, "Type") || crate::text::str_eq(head, "Type0") {
            Ok(Expr::Type(0))
        } else if crate::text::str_eq(head, "Type1") {
            Ok(Expr::Type(1))
        } else {
            Ok(Expr::Var(Name(parts[0].clone()), 0))
        }
    }
}

} // verus!
