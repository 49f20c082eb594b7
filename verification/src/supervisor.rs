//! How a command line is handed to the operating system.

use crate::text::copy_str;
use vstd::prelude::*;

verus! {

/// A program and the arguments it is started with.
#[derive(Debug, PartialEq, Eq)]
pub struct Invocation {
    pub program: String,
    pub args: Vec<String>,
}

/// Mathematical model of [`Invocation`].
pub struct InvocationView {
    pub program: Seq<char>,
    pub args: Seq<Seq<char>>,
}

impl View for Invocation {
    type V = InvocationView;

    open spec fn view(&self) -> InvocationView {
        InvocationView { program: self.program@, args: self.args.deep_view() }
    }
}

/// How `command` is invoked. Through the shell, the whole command line goes
/// to `cmd /C`. Directly, its first word is the program and the rest are the
/// arguments; an empty command line cannot be invoked that way.
pub open spec fn invocation_of(command: Seq<Seq<char>>, shell: bool) -> Option<InvocationView> {
    if shell {
        Some(InvocationView { program: "cmd"@, args: seq!["/C"@] + command })
    } else if command.len() > 0 {
        Some(
            InvocationView {
                program: command[0],
                args: command.subrange(1, command.len() as int),
            },
        )
    } else {
        None
    }
}

/// Works out how `command` is invoked; `shell` says whether the platform
/// wants it to go through its command interpreter.
pub fn invocation(command: &Vec<String>, shell: bool) -> (result: Option<Invocation>)
    ensures
        result is Some <==> invocation_of(command.deep_view(), shell) is Some,
        result matches Some(found) ==> Some(found@) == invocation_of(command.deep_view(), shell),
{
    if shell {
        let mut args: Vec<String> = Vec::new();
        args.push(copy_str("/C"));
        let mut i: usize = 0;
        while i < command.len()
            invariant
                i <= command.len(),
                args.len() == i + 1,
                args[0]@ == "/C"@,
                forall|j: int| 0 <= j < i ==> args[j + 1]@ == command[j]@,
            decreases command.len() - i,
        {
            args.push(command[i].clone());
            i = i + 1;
        }
        assert(args.deep_view() =~= seq!["/C"@] + command.deep_view());
        Some(Invocation { program: copy_str("cmd"), args })
    } else if command.len() > 0 {
        let mut args: Vec<String> = Vec::new();
        let mut i: usize = 1;
        while i < command.len()
            invariant
                1 <= i <= command.len(),
                args.len() == i - 1,
                forall|j: int| 0 <= j < i - 1 ==> args[j]@ == command[j + 1]@,
            decreases command.len() - i,
        {
            args.push(command[i].clone());
            i = i + 1;
        }
        assert(args.deep_view() =~= command.deep_view().subrange(1, command.len() as int));
        Some(Invocation { program: command[0].clone(), args })
    } else {
        None
    }
}

} // verus!
