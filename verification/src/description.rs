//! Natural-language description of expressions, goals and proof states, with
//! a verbosity level and a technical-language switch.

use vstd::prelude::*;

use crate::construction::{graph_wf, Construction};
use crate::goals::{Goal, ProofState};
use crate::syntax::{Expr, ExprV};
use crate::text::{dec_digits, u32_to_string, usize_to_string};

verus! {

/// What an expression reads as, at a verbosity level, in plain or technical
/// language.
pub open spec fn describe_expr_s(e: ExprV, verbosity: u8, technical: bool) -> Seq<char>
    decreases e,
{
    match e {
        ExprV::Var(name, _) => if verbosity >= 3 {
            "the variable "@ + name
        } else {
            name
        },
        ExprV::Type(level) => if technical {
            "Type level "@ + dec_digits(level as nat)
        } else if verbosity >= 3 {
            "a type at universe level "@ + dec_digits(level as nat)
        } else {
            "Type"@
        },
        ExprV::Pi { name, domain, codomain } => {
            let d = describe_expr_s(*domain, verbosity, technical);
            let c = describe_expr_s(*codomain, verbosity, technical);
            if technical {
                "Pi("@ + name + ": "@ + d + "). "@ + c
            } else if verbosity >= 4 {
                "a function that takes "@ + name + " of type "@ + d + " and returns "@ + c
            } else {
                "function from "@ + d + " to "@ + c
            }
        },
        ExprV::Lambda { name, body } => {
            let b = describe_expr_s(*body, verbosity, technical);
            if technical {
                "fn "@ + name + ". "@ + b
            } else if verbosity >= 3 {
                "a lambda taking "@ + name + " and returning "@ + b
            } else {
                "lambda with parameter "@ + name
            }
        },
        ExprV::App { func, arg } => {
            let f = describe_expr_s(*func, verbosity, technical);
            let a = describe_expr_s(*arg, verbosity, technical);
            if verbosity >= 3 {
                f + " applied to "@ + a
            } else {
                f + "("@ + a + ")"@
            }
        },
        ExprV::Path { left, right, .. } => {
            let l = describe_expr_s(*left, verbosity, technical);
            let r = describe_expr_s(*right, verbosity, technical);
            if technical {
                "Path("@ + l + ", "@ + r + ")"@
            } else if verbosity >= 3 {
                "a path showing "@ + l + " equals "@ + r
            } else {
                l + " = "@ + r
            }
        },
        ExprV::PathLam { dim, .. } => if technical {
            "path lambda over dimension "@ + dec_digits(dim.0 as nat)
        } else {
            "path lambda over dimension "@ + dec_digits(dim.0 as nat)
        },
        ExprV::PathApp { .. } => "path application"@,
        ExprV::Comp { .. } => if technical {
            "composition operation"@
        } else {
            "composed path"@
        },
        ExprV::Glue { .. } => if technical {
            "glue type for univalence"@
        } else {
            "glued types"@
        },
        ExprV::SmoothPath { .. } => if technical {
            "smooth path"@
        } else {
            "smoothly varying path"@
        },
        ExprV::Diff { .. } => if technical {
            "differential operator"@
        } else {
            "derivative"@
        },
        ExprV::Integral { .. } => if technical {
            "integral operator"@
        } else {
            "integral"@
        },
        ExprV::Coe { .. } => if technical {
            "coercion along type family"@
        } else {
            "type coercion"@
        },
        ExprV::HComp { .. } => "homogeneous composition"@,
        ExprV::Taylor { .. } => if technical {
            "Taylor expansion"@
        } else {
            "polynomial approximation"@
        },
    }
}

/// Generates natural-language descriptions of proofs.
#[derive(Debug, Clone)]
pub struct DescriptionGenerator {
    /// Verbosity, clamped between one and five.
    pub verbosity: u8,
    /// Whether to use technical language.
    pub technical: bool,
}

impl DescriptionGenerator {
    /// A generator at middle verbosity, in plain language.
    pub fn new() -> (r: Self)
        ensures
            r.verbosity == 3,
            !r.technical,
    {
        DescriptionGenerator { verbosity: 3, technical: false }
    }

    /// The generator at another verbosity, clamped between one and five.
    pub fn with_verbosity(self, level: u8) -> (r: Self)
        ensures
            r.verbosity == if level < 1 {
                1u8
            } else if level > 5 {
                5u8
            } else {
                level
            },
            r.technical == self.technical,
    {
        let v: u8 = if level < 1 {
            1
        } else if level > 5 {
            5
        } else {
            level
        };
        DescriptionGenerator { verbosity: v, technical: self.technical }
    }

    /// The generator with technical language switched.
    pub fn with_technical_language(self, technical: bool) -> (r: Self)
        ensures
            r.technical == technical,
            r.verbosity == self.verbosity,
    {
        DescriptionGenerator { verbosity: self.verbosity, technical }
    }

    /// Describes an expression.
    #[verifier::rlimit(100)]
    pub fn describe_expr(&self, expr: &Expr) -> (r: String)
        ensures
            r@ == describe_expr_s(expr.deep_view(), self.verbosity, self.technical),
        decreases expr,
    {
        proof {
            reveal_with_fuel(crate::syntax::expr_view, 2);
        }
        let mut s = String::new();
        match expr {
            Expr::Var(name, _) => {
                if self.verbosity >= 3 {
                    s.append("the variable ");
                    s.append(name.0.as_str());
                } else {
                    s.append(name.0.as_str());
                }
            },
            Expr::Type(level) => {
                if self.technical {
                    s.append("Type level ");
                    s.append(u32_to_string(*level).as_str());
                } else if self.verbosity >= 3 {
                    s.append("a type at universe level ");
                    s.append(u32_to_string(*level).as_str());
                } else {
                    s.append("Type");
                }
            },
            Expr::Pi { name, domain, codomain } => {
                let d = self.describe_expr(domain);
                let c = self.describe_expr(codomain);
                if self.technical {
                    s.append("Pi(");
                    s.append(name.0.as_str());
                    s.append(": ");
                    s.append(d.as_str());
                    s.append("). ");
                    s.append(c.as_str());
                } else if self.verbosity >= 4 {
                    s.append("a function that takes ");
                    s.append(name.0.as_str());
                    s.append(" of type ");
                    s.append(d.as_str());
                    s.append(" and returns ");
                    s.append(c.as_str());
                } else {
                    s.append("function from ");
                    s.append(d.as_str());
                    s.append(" to ");
                    s.append(c.as_str());
                }
            },
            Expr::Lambda { name, body } => {
                let b = self.describe_expr(body);
                if self.technical {
                    s.append("fn ");
                    s.append(name.0.as_str());
                    s.append(". ");
                    s.append(b.as_str());
                } else if self.verbosity >= 3 {
                    s.append("a lambda taking ");
                    s.append(name.0.as_str());
                    s.append(" and returning ");
                    s.append(b.as_str());
                } else {
                    s.append("lambda with parameter ");
                    s.append(name.0.as_str());
                }
            },
            Expr::App { func, arg } => {
                let f = self.describe_expr(func);
                let a = self.describe_expr(arg);
                if self.verbosity >= 3 {
                    s.append(f.as_str());
                    s.append(" applied to ");
                    s.append(a.as_str());
                } else {
                    s.append(f.as_str());
                    s.append("(");
                    s.append(a.as_str());
                    s.append(")");
                }
            },
            Expr::Path { ty: _, left, right } => {
                let l = self.describe_expr(left);
                let r2 = self.describe_expr(right);
                if self.technical {
                    s.append("Path(");
                    s.append(l.as_str());
                    s.append(", ");
                    s.append(r2.as_str());
                    s.append(")");
                } else if self.verbosity >= 3 {
                    s.append("a path showing ");
                    s.append(l.as_str());
                    s.append(" equals ");
                    s.append(r2.as_str());
                } else {
                    s.append(l.as_str());
                    s.append(" = ");
                    s.append(r2.as_str());
                }
            },
            Expr::PathLam { dim, body: _ } => {
                s.append("path lambda over dimension ");
                s.append(u32_to_string(dim.0).as_str());
            },
            Expr::PathApp { .. } => {
                s.append("path application");
            },
            Expr::Comp { .. } => {
                if self.technical {
                    s.append("composition operation");
                } else {
                    s.append("composed path");
                }
            },
            Expr::Glue { .. } => {
                if self.technical {
                    s.append("glue type for univalence");
                } else {
                    s.append("glued types");
                }
            },
            Expr::SmoothPath { .. } => {
                if self.technical {
                    s.append("smooth path");
                } else {
                    s.append("smoothly varying path");
                }
            },
            Expr::Diff { .. } => {
                if self.technical {
                    s.append("differential operator");
                } else {
                    s.append("derivative");
                }
            },
            Expr::Integral { .. } => {
                if self.technical {
                    s.append("integral operator");
                } else {
                    s.append("integral");
                }
            },
            Expr::Coe { .. } => {
                if self.technical {
                    s.append("coercion along type family");
                } else {
                    s.append("type coercion");
                }
            },
            Expr::HComp { .. } => {
                s.append("homogeneous composition");
            },
            Expr::Taylor { .. } => {
                if self.technical {
                    s.append("Taylor expansion");
                } else {
                    s.append("polynomial approximation");
                }
            },
        }
        s
    }

    /// Describes a goal: its proposition, and at high verbosity the number
    /// of hypotheses.
    pub fn describe_goal(&self, goal: &Goal) -> (r: String)
        ensures
            self.verbosity < 3 ==> r@ == describe_expr_s(
                goal.deep_view().proposition,
                self.verbosity,
                self.technical,
            ),
            3 <= self.verbosity < 4 ==> r@ == "Prove: "@ + describe_expr_s(
                goal.deep_view().proposition,
                self.verbosity,
                self.technical,
            ),
            self.verbosity >= 4 && goal.deep_view().hypotheses.len() == 0 ==> r@
                == "Goal: prove "@ + describe_expr_s(
                goal.deep_view().proposition,
                self.verbosity,
                self.technical,
            ),
            self.verbosity >= 4 && goal.deep_view().hypotheses.len() > 0 ==> r@
                == "Goal: prove "@ + describe_expr_s(
                goal.deep_view().proposition,
                self.verbosity,
                self.technical,
            ) + " using "@ + dec_digits(goal.deep_view().hypotheses.len()) + (
            if goal.deep_view().hypotheses.len() == 1 {
                " hypothesis"@
            } else {
                " hypotheses"@
            }),
            self.verbosity >= 3 ==> r@.len() > 0,
    {
        proof {
            crate::goals::lemma_hyps_view(goal.hypotheses@);
            reveal_strlit("Prove: ");
            reveal_strlit("Goal: prove ");
        }
        let prop_desc = self.describe_expr(&goal.proposition);
        let mut s = String::new();
        if self.verbosity >= 4 {
            if goal.hypotheses.len() == 0 {
                s.append("Goal: prove ");
                s.append(prop_desc.as_str());
            } else {
                s.append("Goal: prove ");
                s.append(prop_desc.as_str());
                s.append(" using ");
                s.append(usize_to_string(goal.hypotheses.len()).as_str());
                if goal.hypotheses.len() == 1 {
                    s.append(" hypothesis");
                } else {
                    s.append(" hypotheses");
                }
            }
        } else if self.verbosity >= 3 {
            s.append("Prove: ");
            s.append(prop_desc.as_str());
        } else {
            s.append(prop_desc.as_str());
        }
        s
    }

    /// Describes a point by its label and proposition.
    pub fn describe_point(&self, point: &crate::point::Point) -> (r: String)
        ensures
            self.verbosity >= 3 ==> r@ == "point "@ + point.deep_view().label + " representing "@
                + describe_expr_s(
                point.deep_view().proposition,
                self.verbosity,
                self.technical,
            ),
            self.verbosity < 3 ==> r@ == "point "@ + point.deep_view().label,
    {
        let mut s = String::new();
        s.append("point ");
        s.append(point.label.as_str());
        if self.verbosity >= 3 {
            let prop_desc = self.describe_expr(&point.proposition);
            s.append(" representing ");
            s.append(prop_desc.as_str());
        }
        s
    }

    /// Describes a line by its label and endpoints' labels.
    pub fn describe_line(
        &self,
        line: &crate::line::Line,
        from: &crate::point::Point,
        to: &crate::point::Point,
    ) -> (r: String)
        ensures
            self.verbosity >= 3 ==> r@ == "line "@ + line.deep_view().label + " from "@
                + from.deep_view().label + " to "@ + to.deep_view().label,
            self.verbosity < 3 ==> r@ == from.deep_view().label + " to "@ + to.deep_view().label,
    {
        let mut s = String::new();
        if self.verbosity >= 3 {
            s.append("line ");
            s.append(line.label.as_str());
            s.append(" from ");
            s.append(from.label.as_str());
            s.append(" to ");
            s.append(to.label.as_str());
        } else {
            s.append(from.label.as_str());
            s.append(" to ");
            s.append(to.label.as_str());
        }
        s
    }

    /// Describes a construction by its name and sizes.
    pub fn describe_construction(&self, construction: &Construction) -> (r: String)
        requires
            graph_wf(construction.deep_view().graph),
        ensures
            self.verbosity >= 3 ==> r@ == "construction "@ + construction.deep_view().name
                + " containing "@ + dec_digits(construction.deep_view().graph.points.len())
                + " propositions and "@ + dec_digits(construction.deep_view().graph.lines.len())
                + " implications"@,
    {
        let num_points = construction.graph.num_points();
        let num_lines = construction.graph.num_lines();
        let mut s = String::new();
        if self.verbosity >= 3 {
            s.append("construction ");
            s.append(construction.name.as_str());
            s.append(" containing ");
            s.append(usize_to_string(num_points).as_str());
            s.append(" propositions and ");
            s.append(usize_to_string(num_lines).as_str());
            s.append(" implications");
        } else {
            s.append("construction ");
            s.append(construction.name.as_str());
            s.append(" with ");
            s.append(usize_to_string(num_lines).as_str());
            s.append(" steps");
        }
        s
    }

    /// Describes the proof state: complete, or the number of open goals.
    pub fn describe_proof_state(&self, state: &ProofState) -> (r: String)
        ensures
            state.deep_view().goals.len() == 0 ==> (self.verbosity >= 3 ==> r@
                == "proof complete, no remaining goals"@),
            state.deep_view().goals.len() > 0 ==> (self.verbosity >= 3 ==> r@ == dec_digits(
                state.deep_view().goals.len(),
            ) + " goals remaining"@),
    {
        let num_goals = state.num_goals();
        let mut s = String::new();
        if num_goals == 0 {
            if self.verbosity >= 3 {
                s.append("proof complete, no remaining goals");
            } else {
                s.append("complete");
            }
        } else if self.verbosity >= 3 {
            s.append(usize_to_string(num_goals).as_str());
            s.append(" goals remaining");
        } else {
            s.append(usize_to_string(num_goals).as_str());
            s.append(" open");
        }
        s
    }
}

/// What an expression reads as when spoken: shorter and clearer.
pub open spec fn audio_expr_s(e: ExprV) -> Seq<char>
    decreases e,
{
    match e {
        ExprV::Var(name, _) => name,
        ExprV::Type(_) => "Type"@,
        ExprV::Pi { name, domain, codomain } => "Function from "@ + name + " "@ + audio_expr_s(
            *domain,
        ) + " to "@ + audio_expr_s(*codomain),
        ExprV::Lambda { name, .. } => "Lambda "@ + name,
        ExprV::App { func, arg } => audio_expr_s(*func) + " of "@ + audio_expr_s(*arg),
        ExprV::Path { left, right, .. } => audio_expr_s(*left) + " equals "@ + audio_expr_s(
            *right,
        ),
        _ => "complex expression"@,
    }
}

/// A narrator that renders proofs as spoken text.
#[derive(Debug, Clone)]
pub struct ProofNarrator {
    /// The generator the narrator speaks through.
    pub generator: DescriptionGenerator,
}

impl ProofNarrator {
    /// A narrator at a verbosity.
    pub fn new(verbosity: u8) -> (r: Self)
        ensures
            r.generator.verbosity == if verbosity < 1 {
                1u8
            } else if verbosity > 5 {
                5u8
            } else {
                verbosity
            },
            !r.generator.technical,
    {
        ProofNarrator { generator: DescriptionGenerator::new().with_verbosity(verbosity) }
    }

    /// A short spoken description of an expression.
    pub fn audio_description(&self, expr: &Expr) -> (r: String)
        ensures
            r@ == audio_expr_s(expr.deep_view()),
        decreases expr,
    {
        proof {
            reveal_with_fuel(crate::syntax::expr_view, 2);
        }
        let mut s = String::new();
        match expr {
            Expr::Var(name, _) => {
                s.append(name.0.as_str());
            },
            Expr::Type(_) => {
                s.append("Type");
            },
            Expr::Pi { name, domain, codomain } => {
                let d = self.audio_description(domain);
                let c = self.audio_description(codomain);
                s.append("Function from ");
                s.append(name.0.as_str());
                s.append(" ");
                s.append(d.as_str());
                s.append(" to ");
                s.append(c.as_str());
            },
            Expr::Lambda { name, .. } => {
                s.append("Lambda ");
                s.append(name.0.as_str());
            },
            Expr::App { func, arg } => {
                let f = self.audio_description(func);
                let a = self.audio_description(arg);
                s.append(f.as_str());
                s.append(" of ");
                s.append(a.as_str());
            },
            Expr::Path { ty: _, left, right } => {
                let l = self.audio_description(left);
                let r2 = self.audio_description(right);
                s.append(l.as_str());
                s.append(" equals ");
                s.append(r2.as_str());
            },
            _ => {
                s.append("complex expression");
            },
        }
        s
    }

    /// Narrates a construction: its summary, then each line in order.
    pub fn narrate_construction(&self, construction: &Construction) -> (r: Vec<String>)
        requires
            graph_wf(construction.deep_view().graph),
        ensures
            r@.len() >= 1,
    {
        let ghost cv = construction.deep_view();
        proof {
            crate::construction::lemma_points_view(construction.graph.points@);
            crate::line::lemma_lines_view(construction.graph.lines@);
        }
        let mut narration: Vec<String> = Vec::new();
        narration.push(self.generator.describe_construction(construction));
        let mut j: usize = 0;
        while j < construction.graph.lines.len()
            invariant
                cv == construction.deep_view(),
                graph_wf(cv.graph),
                narration@.len() >= 1,
                cv.graph.lines.len() == construction.graph.lines@.len(),
                cv.graph.points.len() == construction.graph.points@.len(),
                forall|k: int|
                    0 <= k < construction.graph.lines@.len() ==> #[trigger] cv.graph.lines[k]
                        == construction.graph.lines@[k].deep_view(),
            decreases construction.graph.lines@.len() - j,
        {
            let line = &construction.graph.lines[j];
            let n_pts = construction.graph.points.len();
            proof {
                assert(cv.graph.lines[j as int].from < cv.graph.points.len());
                assert(cv.graph.lines[j as int].to < cv.graph.points.len());
                assert(cv.graph.points.len() == n_pts);
                assert(line.from.0 as usize as u64 == line.from.0);
                assert(line.to.0 as usize as u64 == line.to.0);
            }
            let from = &construction.graph.points[line.from.0 as usize];
            let to = &construction.graph.points[line.to.0 as usize];
            narration.push(self.generator.describe_line(line, from, to));
            j = j + 1;
        }
        narration
    }

    /// Narrates the change between two proof states under an action.
    pub fn narrate_state_change(
        &self,
        before: &ProofState,
        after: &ProofState,
        action: &str,
    ) -> (r: String)
        ensures
            after.deep_view().goals.len() == 0 ==> r@ == "proof complete"@,
    {
        let before_goals = before.num_goals();
        let after_goals = after.num_goals();
        let mut s = String::new();
        if after_goals == 0 {
            s.append("proof complete");
        } else if after_goals < before_goals {
            s.append(action);
            s.append(": reduced from ");
            s.append(usize_to_string(before_goals).as_str());
            s.append(" to ");
            s.append(usize_to_string(after_goals).as_str());
            s.append(" goals");
        } else if after_goals > before_goals {
            s.append(action);
            s.append(": generated ");
            s.append(usize_to_string(after_goals - before_goals).as_str());
            s.append(" new subgoals");
        } else {
            s.append(action);
            s.append(": state unchanged");
        }
        s
    }
}

} // verus!
