//! Tool invocations described as plain values: a program, an optional working
//! directory and an argument list.

use vstd::prelude::*;
use crate::error::NdkError;

verus! {

/// What a tool invocation is: the program, where it runs and its arguments.
pub struct CommandView {
    pub program: Seq<char>,
    pub current_dir: Option<Seq<char>>,
    pub args: Seq<Seq<char>>,
}

impl CommandView {
    pub open spec fn push_arg(self, a: Seq<char>) -> CommandView {
        CommandView { args: self.args.push(a), ..self }
    }

    pub open spec fn push_args(self, more: Seq<Seq<char>>) -> CommandView {
        CommandView { args: self.args + more, ..self }
    }

    pub open spec fn in_dir(self, dir: Seq<char>) -> CommandView {
        CommandView { current_dir: Some(dir), ..self }
    }
}

/// A command line to be run by the caller.
#[derive(Debug)]
pub struct CommandLine {
    pub program: String,
    pub current_dir: Option<String>,
    pub args: Vec<String>,
}

pub open spec fn opt_view(o: Option<String>) -> Option<Seq<char>> {
    match o {
        Some(s) => Some(s@),
        None => None,
    }
}

pub open spec fn strings_view(v: Seq<String>) -> Seq<Seq<char>> {
    v.map_values(|s: String| s@)
}

impl View for CommandLine {
    type V = CommandView;

    open spec fn view(&self) -> CommandView {
        CommandView {
            program: self.program@,
            current_dir: opt_view(self.current_dir),
            args: strings_view(self.args@),
        }
    }
}

impl CommandLine {
    /// A command that runs `program` with no arguments in the caller's directory.
    pub fn new(program: &str) -> (res: CommandLine)
        ensures
            res@ == (CommandView { program: program@, current_dir: None, args: Seq::empty() }),
    {
        let res = CommandLine { program: program.to_owned(), current_dir: None, args: Vec::new() };
        proof {
            assert(strings_view(res.args@) =~= Seq::<Seq<char>>::empty());
        }
        res
    }

    /// Appends one argument.
    pub fn arg(&mut self, a: &str)
        ensures
            final(self)@ == old(self)@.push_arg(a@),
    {
        self.args.push(a.to_owned());
        proof {
            assert(strings_view(self.args@) =~= strings_view(old(self).args@).push(a@));
        }
    }

    /// Sets the directory the command runs in.
    pub fn set_current_dir(&mut self, dir: &str)
        ensures
            final(self)@ == old(self)@.in_dir(dir@),
    {
        self.current_dir = Some(dir.to_owned());
    }

    /// An equal, independent copy of this command.
    pub fn duplicate(&self) -> (res: CommandLine)
        ensures
            res@ == self@,
    {
        let mut args: Vec<String> = Vec::new();
        for i in 0..self.args.len()
            invariant
                args@ =~= self.args@.take(i as int),
        {
            args.push(self.args[i].clone());
            proof {
                assert(self.args@.take(i + 1) =~= self.args@.take(i as int).push(self.args@[i as int]));
            }
        }
        proof {
            assert(self.args@.take(self.args@.len() as int) =~= self.args@);
        }
        let current_dir = match &self.current_dir {
            Some(d) => Some(d.clone()),
            None => None,
        };
        CommandLine { program: self.program.clone(), current_dir, args }
    }
}

/// The outcome of running `cmd`: success, or `CmdFailed` with the command.
pub fn check_status(cmd: CommandLine, succeeded: bool) -> (res: Result<(), NdkError>)
    ensures
        succeeded <==> res is Ok,
        !succeeded ==> (res matches Err(NdkError::CmdFailed(c)) && c@ == cmd@),
{
    if succeeded {
        Ok(())
    } else {
        Err(NdkError::CmdFailed(cmd))
    }
}

pub open spec fn commands_view(v: Seq<CommandLine>) -> Seq<CommandView> {
    v.map_values(|c: CommandLine| c@)
}

/// Commands to run one after the other, and what a step hands on once all of
/// them have succeeded. The caller runs [`Chain::current`], reports its outcome
/// to [`Chain::advance`], and takes the product with [`Chain::finish`] once no
/// command is left: a failure ends the chain with `CmdFailed`, no later
/// command runs, and the product is never handed on.
pub struct Chain<S> {
    cmds: Vec<CommandLine>,
    done: usize,
    product: S,
}

impl<S> Chain<S> {
    #[verifier::type_invariant]
    spec fn inv(self) -> bool {
        self.done <= self.cmds.len()
    }

    /// The commands, in the order they run.
    pub closed spec fn commands(self) -> Seq<CommandView> {
        commands_view(self.cmds@)
    }

    /// How many of them have succeeded.
    pub closed spec fn succeeded(self) -> nat {
        self.done as nat
    }

    /// What the chain hands on at its end.
    pub closed spec fn product(self) -> S {
        self.product
    }

    pub(crate) fn new(cmds: Vec<CommandLine>, product: S) -> (res: Chain<S>)
        ensures
            res.commands() == commands_view(cmds@),
            res.succeeded() == 0,
            res.product() == product,
    {
        Chain { cmds, done: 0, product }
    }

    /// A chain of one command.
    pub(crate) fn single(cmd: CommandLine, product: S) -> (res: Chain<S>)
        ensures
            res.commands() == seq![cmd@],
            res.succeeded() == 0,
            res.product() == product,
    {
        let ghost cv = cmd@;
        let mut cmds: Vec<CommandLine> = Vec::new();
        cmds.push(cmd);
        proof {
            assert(commands_view(cmds@) =~= seq![cv]);
        }
        Chain { cmds, done: 0, product }
    }

    /// The command to run next, if any is left.
    pub fn current(&self) -> (res: Option<CommandLine>)
        ensures
            self.succeeded() <= self.commands().len(),
            self.succeeded() < self.commands().len() ==> (res matches Some(c) && c@
                == self.commands()[self.succeeded() as int]),
            self.succeeded() == self.commands().len() ==> res is None,
    {
        proof {
            use_type_invariant(self);
        }
        if self.done < self.cmds.len() {
            Some(self.cmds[self.done].duplicate())
        } else {
            None
        }
    }

    /// Reports the outcome of the current command: the chain goes on after a
    /// success, and ends with `CmdFailed` and that command after a failure.
    pub fn advance(self, succeeded: bool) -> (res: Result<Chain<S>, NdkError>)
        requires
            self.succeeded() < self.commands().len(),
        ensures
            succeeded ==> (res matches Ok(c) && c.commands() == self.commands() && c.succeeded()
                == self.succeeded() + 1 && c.product() == self.product()),
            !succeeded ==> (res matches Err(NdkError::CmdFailed(c)) && c@
                == self.commands()[self.succeeded() as int]),
    {
        proof {
            use_type_invariant(&self);
        }
        if succeeded {
            Ok(Chain { cmds: self.cmds, done: self.done + 1, product: self.product })
        } else {
            let failed = self.cmds[self.done].duplicate();
            Err(NdkError::CmdFailed(failed))
        }
    }

    /// The product, once every command has succeeded.
    pub fn finish(self) -> (res: S)
        requires
            self.succeeded() == self.commands().len(),
        ensures
            res == self.product(),
    {
        self.product
    }
}

} // verus!
