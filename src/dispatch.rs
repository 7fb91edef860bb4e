//! From a segment's tokens to a command ready to run, and what the executor
//! does once it has run.
use vstd::prelude::*;

use crate::builtins::cat::{cat_options, Cat, CatError};
use crate::builtins::grep::{grep_options, Grep, GrepError};
use crate::builtins::head_tail::{head_tail_options, is_parse_error, HeadTail, HeadTailError};
use crate::builtins::ls::{ls_options, Ls, LsError};
use crate::builtins::mkdir::{mkdir_options, Mkdir, MkdirError};
use crate::builtins::rm::{rm_options, Rm, RmError};
use crate::command::{command_error_text, fails_as, CommandError, Describe};
use crate::redirect::{redirection_of, stderr_of, stdout_of, BuildError, CommandBackPack};
use crate::text::{same_text, texts};
use crate::tokenize::{split_args, tokens_of};

verus! {

/// The built-in commands.
pub enum CommandKind {
    Grep,
    Cat,
    HeadTail,
    Ls,
    Mkdir,
    Rm,
}

/// The command that a name stands for, if any.
pub open spec fn kind_of(name: Seq<char>) -> Option<CommandKind> {
    if name == "grep"@ {
        Some(CommandKind::Grep)
    } else if name == "cat"@ {
        Some(CommandKind::Cat)
    } else if name == "head-tail"@ {
        Some(CommandKind::HeadTail)
    } else if name == "ls"@ {
        Some(CommandKind::Ls)
    } else if name == "mkdir"@ {
        Some(CommandKind::Mkdir)
    } else if name == "rm"@ {
        Some(CommandKind::Rm)
    } else {
        None
    }
}

/// Looks a command name up in the registry.
pub fn command_kind(name: &str) -> (r: Option<CommandKind>)
    ensures
        r == kind_of(name@),
{
    if same_text(name, "grep") {
        Some(CommandKind::Grep)
    } else if same_text(name, "cat") {
        Some(CommandKind::Cat)
    } else if same_text(name, "head-tail") {
        Some(CommandKind::HeadTail)
    } else if same_text(name, "ls") {
        Some(CommandKind::Ls)
    } else if same_text(name, "mkdir") {
        Some(CommandKind::Mkdir)
    } else if same_text(name, "rm") {
        Some(CommandKind::Rm)
    } else {
        None
    }
}

/// A built command, ready to run once.
pub enum Command {
    Grep(Grep),
    Cat(Cat),
    HeadTail(HeadTail),
    Ls(Ls),
    Mkdir(Mkdir),
    Rm(Rm),
}

/// Why a command could not be built from its arguments.
pub enum CommandFailure {
    Grep(CommandError<GrepError>),
    Cat(CommandError<CatError>),
    HeadTail(CommandError<HeadTailError>),
    Ls(CommandError<LsError>),
    Mkdir(CommandError<MkdirError>),
    Rm(CommandError<RmError>),
}

impl CommandFailure {
    pub open spec fn text(&self) -> Seq<char> {
        match self {
            CommandFailure::Grep(e) => command_error_text(*e, |x: GrepError| x.described()),
            CommandFailure::Cat(e) => command_error_text(*e, |x: CatError| x.described()),
            CommandFailure::HeadTail(e) => command_error_text(*e, |x: HeadTailError| x.described()),
            CommandFailure::Ls(e) => command_error_text(*e, |x: LsError| x.described()),
            CommandFailure::Mkdir(e) => command_error_text(*e, |x: MkdirError| x.described()),
            CommandFailure::Rm(e) => command_error_text(*e, |x: RmError| x.described()),
        }
    }

    /// The message shown for this failure.
    pub fn describe(&self) -> (r: String)
        ensures
            r@ == self.text(),
    {
        match self {
            CommandFailure::Grep(e) => e.describe(),
            CommandFailure::Cat(e) => e.describe(),
            CommandFailure::HeadTail(e) => e.describe(),
            CommandFailure::Ls(e) => e.describe(),
            CommandFailure::Mkdir(e) => e.describe(),
            CommandFailure::Rm(e) => e.describe(),
        }
    }

    /// Whether help was asked for.
    pub fn is_help(&self) -> (r: bool)
        ensures
            r == match self {
                CommandFailure::Grep(e) => e is Help,
                CommandFailure::Cat(e) => e is Help,
                CommandFailure::HeadTail(e) => e is Help,
                CommandFailure::Ls(e) => e is Help,
                CommandFailure::Mkdir(e) => e is Help,
                CommandFailure::Rm(e) => e is Help,
            },
    {
        match self {
            CommandFailure::Grep(e) => matches!(e, CommandError::Help),
            CommandFailure::Cat(e) => matches!(e, CommandError::Help),
            CommandFailure::HeadTail(e) => matches!(e, CommandError::Help),
            CommandFailure::Ls(e) => matches!(e, CommandError::Help),
            CommandFailure::Mkdir(e) => matches!(e, CommandError::Help),
            CommandFailure::Rm(e) => matches!(e, CommandError::Help),
        }
    }
}

/// Whether `r` is what the builder of `kind` gives for the arguments `a`;
/// `pipe` tells whether a previous command pipes into it.
pub open spec fn built_as(
    r: Result<Command, CommandFailure>,
    kind: CommandKind,
    a: Seq<Seq<char>>,
    pipe: bool,
) -> bool {
    match kind {
        CommandKind::Grep => match grep_options(a, pipe) {
            Ok(o) => r matches Ok(Command::Grep(g)) && g.has_options(o),
            Err(f) => r matches Err(CommandFailure::Grep(e)) && fails_as(
                e,
                f,
                "grep"@,
                |x: GrepError, t: Seq<char>| x is NoPattern,
            ),
        },
        CommandKind::Cat => match cat_options(a, pipe) {
            Ok(o) => r matches Ok(Command::Cat(c)) && c.has_options(o),
            Err(f) => r matches Err(CommandFailure::Cat(e)) && fails_as(
                e,
                f,
                "cat"@,
                |x: CatError, t: Seq<char>| false,
            ),
        },
        CommandKind::HeadTail => match head_tail_options(a) {
            Ok(o) => r matches Ok(Command::HeadTail(h)) && h.has_options(o, pipe),
            Err(f) => r matches Err(CommandFailure::HeadTail(e)) && fails_as(
                e,
                f,
                "head-tail"@,
                |x: HeadTailError, t: Seq<char>| is_parse_error(x, t),
            ),
        },
        CommandKind::Ls => match ls_options(a) {
            Ok(o) => r matches Ok(Command::Ls(l)) && l.has_options(o),
            Err(f) => r matches Err(CommandFailure::Ls(e)) && fails_as(
                e,
                f,
                "ls"@,
                |x: LsError, t: Seq<char>| false,
            ),
        },
        CommandKind::Mkdir => match mkdir_options(a) {
            Ok(o) => r matches Ok(Command::Mkdir(m)) && m.has_options(o),
            Err(f) => r matches Err(CommandFailure::Mkdir(e)) && fails_as(
                e,
                f,
                "mkdir"@,
                |x: MkdirError, t: Seq<char>| false,
            ),
        },
        CommandKind::Rm => match rm_options(a) {
            Ok(o) => r matches Ok(Command::Rm(m)) && m.has_options(o),
            Err(f) => r matches Err(CommandFailure::Rm(e)) && fails_as(
                e,
                f,
                "rm"@,
                |x: RmError, t: Seq<char>| false,
            ),
        },
    }
}

/// Builds the command of kind `kind` from its arguments; `pipe` tells whether
/// a previous command pipes into it.
pub fn build(kind: CommandKind, args: &Vec<String>, pipe: bool) -> (r: Result<
    Command,
    CommandFailure,
>)
    ensures
        built_as(r, kind, texts(args@), pipe),
{
    match kind {
        CommandKind::Grep => match Grep::new_obj(args, pipe) {
            Ok(g) => Ok(Command::Grep(g)),
            Err(e) => Err(CommandFailure::Grep(e)),
        },
        CommandKind::Cat => match Cat::new_obj(args, pipe) {
            Ok(c) => Ok(Command::Cat(c)),
            Err(e) => Err(CommandFailure::Cat(e)),
        },
        CommandKind::HeadTail => match HeadTail::new_obj(args, pipe) {
            Ok(h) => Ok(Command::HeadTail(h)),
            Err(e) => Err(CommandFailure::HeadTail(e)),
        },
        CommandKind::Ls => match Ls::new_obj(args) {
            Ok(l) => Ok(Command::Ls(l)),
            Err(e) => Err(CommandFailure::Ls(e)),
        },
        CommandKind::Mkdir => match Mkdir::new_obj(args) {
            Ok(m) => Ok(Command::Mkdir(m)),
            Err(e) => Err(CommandFailure::Mkdir(e)),
        },
        CommandKind::Rm => match Rm::new_obj(args) {
            Ok(m) => Ok(Command::Rm(m)),
            Err(e) => Err(CommandFailure::Rm(e)),
        },
    }
}

/// A segment ready to run: its sinks, its command, and the tokens of the
/// command it pipes into, if any.
pub struct SegmentPlan {
    pub pack: CommandBackPack,
    pub command: Command,
    pub downstream: Option<Vec<String>>,
}

/// Why a segment cannot run.
pub enum SegmentError {
    /// The segment holds no token.
    Empty,
    /// No built-in has this name; nothing was resolved or built.
    UnknownCommand(String),
    /// The redirection could not be resolved.
    Redirect(BuildError),
    /// The command could not be built; the sinks its redirection resolved to
    /// come along, so that the failure can be reported on its error sink.
    Build(CommandBackPack, CommandFailure),
}

impl SegmentError {
    pub open spec fn text(&self) -> Seq<char> {
        match self {
            SegmentError::Empty => "shu: empty command"@,
            SegmentError::UnknownCommand(n) => "shu: unknown command: "@ + n@,
            SegmentError::Redirect(b) => b.described(),
            SegmentError::Build(_, f) => f.text(),
        }
    }

    /// The message shown for this error.
    pub fn describe(&self) -> (r: String)
        ensures
            r@ == self.text(),
    {
        match self {
            SegmentError::Empty => String::from_str("shu: empty command"),
            SegmentError::UnknownCommand(n) => {
                let mut r = String::from_str("shu: unknown command: ");
                r.append(n.as_str());
                r
            },
            SegmentError::Redirect(b) => b.describe(),
            SegmentError::Build(_, f) => f.describe(),
        }
    }
}

/// Whether `r` is the plan of the segment with tokens `a`; `pipe` tells
/// whether a previous command pipes into it. The command's name is looked up
/// first, then the redirection resolved, then the command built from the
/// tokens the redirection leaves.
pub open spec fn planned_as(r: Result<SegmentPlan, SegmentError>, a: Seq<Seq<char>>, pipe: bool) -> bool {
    if a.len() == 0 {
        r is Err && r->Err_0 is Empty
    } else {
        match kind_of(a[0]) {
            None => r matches Err(SegmentError::UnknownCommand(n)) && n@ == a[0],
            Some(kind) => match redirection_of(a) {
                Err(flag) => r matches Err(SegmentError::Redirect(BuildError::NoArgument(s))) && s@
                    == flag,
                Ok(red) => match r {
                    Ok(plan) => {
                        &&& built_as(Ok(plan.command), kind, red.residual, pipe)
                        &&& stdout_of(plan.pack.stdout, red)
                        &&& stderr_of(plan.pack.stderr, red)
                        &&& match red.downstream {
                            Some(d) => plan.downstream matches Some(dv) && texts(dv@) == d,
                            None => plan.downstream is None,
                        }
                    },
                    Err(SegmentError::Build(pack, f)) => {
                        &&& built_as(Err(f), kind, red.residual, pipe)
                        &&& stdout_of(pack.stdout, red)
                        &&& stderr_of(pack.stderr, red)
                    },
                    Err(_) => false,
                },
            },
        }
    }
}

/// Plans the segment with tokens `tokens`; `pipe` tells whether a previous
/// command pipes into it.
pub fn plan_segment(tokens: &Vec<String>, pipe: bool) -> (r: Result<SegmentPlan, SegmentError>)
    ensures
        planned_as(r, texts(tokens@), pipe),
{
    if tokens.len() == 0 {
        return Err(SegmentError::Empty);
    }
    let kind = match command_kind(tokens[0].as_str()) {
        Some(k) => k,
        None => return Err(SegmentError::UnknownCommand(tokens[0].clone())),
    };
    let (pack, rest, downstream) = match CommandBackPack::new(tokens) {
        Ok(resolved) => resolved,
        Err(e) => return Err(SegmentError::Redirect(e)),
    };
    match build(kind, &rest, pipe) {
        Ok(command) => Ok(SegmentPlan { pack, command, downstream }),
        Err(f) => Err(SegmentError::Build(pack, f)),
    }
}

/// Plans the command line `command`, which does not come from a pipe.
pub fn todo(command: &str) -> (r: Result<SegmentPlan, SegmentError>)
    ensures
        planned_as(r, tokens_of(command@), false),
{
    let tokens = split_args(command);
    plan_segment(&tokens, false)
}

/// What the executor does after a segment: stop with a status, or run the
/// next command of the pipe.
pub enum ChainStep {
    Done(bool),
    PipeInto(Vec<String>),
}

/// The step after a segment whose command ran with result `ran` (`None` when
/// it could not be built or failed while running). Only a command that ran
/// hands its pipe on; the status of a piped segment is the downstream one's.
pub fn next_step(ran: Option<bool>, downstream: Option<Vec<String>>) -> (r: ChainStep)
    ensures
        match ran {
            None => r == ChainStep::Done(false),
            Some(code) => match downstream {
                Some(d) => r == ChainStep::PipeInto(d),
                None => r == ChainStep::Done(code),
            },
        },
{
    match ran {
        None => ChainStep::Done(false),
        Some(code) => match downstream {
            Some(d) => ChainStep::PipeInto(d),
            None => ChainStep::Done(code),
        },
    }
}

} // verus!
