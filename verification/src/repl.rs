//! The interactive session engine: a pure step function from the session
//! state and one input line to the new state and a textual reply.  The host
//! around the library reads lines and prints replies.

use vstd::prelude::*;

use crate::construction::{graph_wf, Construction};
use crate::goals::{state_wf, ProofState};
use crate::parser::{Command, CommandParser};
use crate::syntax::Expr;
use crate::tactics::TacticLibrary;
use crate::text::usize_to_string;
use crate::validate::Verifier;

verus! {

/// The engine's reply to one line.
#[derive(Debug)]
pub struct ReplReply {
    /// What to show the user.
    pub output: String,
    /// Whether the session should end.
    pub quit: bool,
}

/// The session state.
#[derive(Debug)]
pub struct ReplEngine {
    /// The interactive proof state.
    pub proof_state: ProofState,
    /// The current construction, if one was started.
    pub construction: Option<Construction>,
    /// The command parser.
    pub parser: CommandParser,
    /// The verifier.
    pub verifier: Verifier,
    /// The tactic library.
    pub tactics: TacticLibrary,
    /// Whether spoken feedback is on.
    pub tts_enabled: bool,
}

/// The engine's invariant: the proof state is well formed with room in its
/// history, the verifier's context leaves fuel headroom, and any current
/// construction is well formed.
pub open spec fn engine_wf(e: ReplEngine) -> bool {
    &&& state_wf(e.proof_state.deep_view())
    &&& e.proof_state.deep_view().history.len() < usize::MAX
    &&& e.verifier.context.deep_view().types.len() + (crate::DEFAULT_FUEL as nat)
        <= u32::MAX as nat
    &&& match e.construction {
        Some(c) => graph_wf(c.deep_view().graph),
        None => true,
    }
}

impl ReplEngine {
    /// A fresh session.
    pub fn new() -> (r: Self)
        ensures
            engine_wf(r),
            r.construction is None,
            !r.tts_enabled,
    {
        ReplEngine {
            proof_state: ProofState::new(),
            construction: None,
            parser: CommandParser::new(),
            verifier: Verifier::new(),
            tactics: TacticLibrary::new(),
            tts_enabled: false,
        }
    }

    /// Handles one input line: parses it as a command, performs the command
    /// on the session state, and answers with text.  Only `quit` asks the
    /// host to end the session; `undo` and `redo` move the proof state's
    /// history cursor and nothing else touches the proof state; only
    /// `construct` replaces the current construction.
    #[verifier::rlimit(100)]
    pub fn process_line(&mut self, line: &str) -> (r: ReplReply)
        requires
            engine_wf(*old(self)),
        ensures
            engine_wf(*final(self)),
            r.quit <==> crate::parser::parse_command_s(crate::parser::split_ws(line@)) == Some(
                crate::parser::CommandV::Quit,
            ),
            crate::parser::parse_command_s(crate::parser::split_ws(line@)) == Some(
                crate::parser::CommandV::Undo,
            ) ==> (if old(self).proof_state.deep_view().history_pos > 0 {
                final(self).proof_state.deep_view() == crate::goals::undo_s(
                    old(self).proof_state.deep_view(),
                )
            } else {
                final(self).proof_state.deep_view() == old(self).proof_state.deep_view()
            }),
            crate::parser::parse_command_s(crate::parser::split_ws(line@)) == Some(
                crate::parser::CommandV::Redo,
            ) ==> (if old(self).proof_state.deep_view().history_pos + 1 < old(
                self,
            ).proof_state.deep_view().history.len()
            {
                final(self).proof_state.deep_view() == crate::goals::redo_s(
                    old(self).proof_state.deep_view(),
                )
            } else {
                final(self).proof_state.deep_view() == old(self).proof_state.deep_view()
            }),
            !(crate::parser::parse_command_s(crate::parser::split_ws(line@)) == Some(
                crate::parser::CommandV::Undo,
            ) || crate::parser::parse_command_s(crate::parser::split_ws(line@)) == Some(
                crate::parser::CommandV::Redo,
            )) ==> final(self).proof_state.deep_view() == old(self).proof_state.deep_view(),
            crate::parser::parse_command_s(crate::parser::split_ws(line@)) matches Some(
                crate::parser::CommandV::Construct { name },
            ) ==> (final(self).construction matches Some(con) && con.deep_view().name == name
                && con.deep_view().graph.points.len() == 0 && con.deep_view().graph.lines.len()
                == 0),
            !(crate::parser::parse_command_s(crate::parser::split_ws(line@)) matches Some(
                crate::parser::CommandV::Construct { .. },
            )) ==> final(self).construction.deep_view() == old(self).construction.deep_view(),
    {
        let mut output = String::new();
        let command = match self.parser.parse_command(line) {
            Ok(c) => c,
            Err(e) => {
                output.append(e.message().as_str());
                return ReplReply { output, quit: false };
            },
        };
        match command {
            Command::Quit => {
                output.append("goodbye");
                ReplReply { output, quit: true }
            },
            Command::Help => {
                output.append("commands: intro, exact <term>, apply <term>, assumption, refl, ");
                output.append("undo, redo, show, help, quit, construct <name>, verify");
                ReplReply { output, quit: false }
            },
            Command::Show => {
                match self.proof_state.current_goal() {
                    Some(goal) => {
                        let gen = crate::description::DescriptionGenerator::new();
                        output.append("current goal: ");
                        output.append(gen.describe_goal(goal).as_str());
                    },
                    None => {
                        output.append("no active goal");
                    },
                };
                ReplReply { output, quit: false }
            },
            Command::Intro { name: _ } => {
                output.append("applying the introduction tactic");
                ReplReply { output, quit: false }
            },
            Command::Exact { term } => {
                match self.parser.parse_expr(term.as_str()) {
                    Ok(_e) => {
                        output.append("term accepted for the current goal");
                    },
                    Err(err) => {
                        output.append(err.message().as_str());
                    },
                };
                ReplReply { output, quit: false }
            },
            Command::Apply { func } => {
                match self.parser.parse_expr(func.as_str()) {
                    Ok(_e) => {
                        output.append("function accepted for the current goal");
                    },
                    Err(err) => {
                        output.append(err.message().as_str());
                    },
                };
                ReplReply { output, quit: false }
            },
            Command::Assumption => {
                output.append("searching the hypotheses");
                ReplReply { output, quit: false }
            },
            Command::Refl => {
                output.append("checking the path's sides");
                ReplReply { output, quit: false }
            },
            Command::Construct { name } => {
                self.construction = Some(Construction::new(name));
                output.append("created a new construction");
                ReplReply { output, quit: false }
            },
            Command::Verify => {
                match &self.construction {
                    Some(construction) => {
                        let result = match self.verifier.verify_construction(construction) {
                            Ok(vr) => vr,
                            Err(e) => {
                                output.append("verification failed: ");
                                output.append(e.message().as_str());
                                return ReplReply { output, quit: false };
                            },
                        };
                        if result.valid {
                            output.append("the construction is valid");
                        } else {
                            output.append("the construction has errors");
                        }
                    },
                    None => {
                        output.append("no construction to verify");
                    },
                };
                ReplReply { output, quit: false }
            },
            Command::Undo => {
                match self.proof_state.undo() {
                    Ok(_) => {
                        output.append("undone");
                    },
                    Err(e) => {
                        output.append("cannot undo: ");
                        output.append(e.message().as_str());
                    },
                };
                ReplReply { output, quit: false }
            },
            Command::Redo => {
                match self.proof_state.redo() {
                    Ok(_) => {
                        output.append("redone");
                    },
                    Err(e) => {
                        output.append("cannot redo: ");
                        output.append(e.message().as_str());
                    },
                };
                ReplReply { output, quit: false }
            },
        }
    }

    /// The number of open goals, for the host's prompt.
    pub fn num_goals(&self) -> (r: usize)
        ensures
            r == self.proof_state.deep_view().goals.len(),
    {
        self.proof_state.num_goals()
    }
}

} // verus!
