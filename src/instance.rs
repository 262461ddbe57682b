use vstd::prelude::*;
use crate::argument::{ArgValue, EvaluatedArg};
use crate::shell::Shell;

verus! {

pub open spec fn arg_views(v: Seq<EvaluatedArg>) -> Seq<ArgValue> {
    v.map_values(|a: EvaluatedArg| a@)
}

/// A callback bound to fully evaluated arguments, ready to run against its shell.
pub struct CommandInstance<'a, F> {
    shell: &'a Shell<F>,
    arg_list: Vec<EvaluatedArg>,
    flags: Vec<String>,
    callback: &'a F,
}

impl<'a, F> CommandInstance<'a, F> {
    pub fn new(
        shell: &'a Shell<F>,
        arg_list: Vec<EvaluatedArg>,
        flags: Vec<String>,
        callback: &'a F,
    ) -> (r: Self)
        ensures
            r.spec_shell() == shell,
            r.spec_args() == arg_views(arg_list@),
            r.spec_flags() == flags@.map_values(|f: String| f@),
            r.spec_callback() == callback,
    {
        CommandInstance { shell, arg_list, flags, callback }
    }

    pub closed spec fn spec_flags(&self) -> Seq<Seq<char>> {
        self.flags@.map_values(|f: String| f@)
    }

    /// The names of the flags given, in order.
    pub fn flags(&self) -> (r: &Vec<String>)
        ensures
            r@.map_values(|f: String| f@) == self.spec_flags(),
    {
        &self.flags
    }

    pub closed spec fn spec_shell(&self) -> &'a Shell<F> {
        self.shell
    }

    pub closed spec fn spec_args(&self) -> Seq<ArgValue> {
        arg_views(self.arg_list@)
    }

    pub closed spec fn spec_callback(&self) -> &'a F {
        self.callback
    }

    pub fn shell(&self) -> (r: &'a Shell<F>)
        ensures
            r == self.spec_shell(),
    {
        self.shell
    }

    pub fn args(&self) -> (r: &Vec<EvaluatedArg>)
        ensures
            arg_views(r@) == self.spec_args(),
    {
        &self.arg_list
    }

    pub fn callback(&self) -> (r: &'a F)
        ensures
            r == self.spec_callback(),
    {
        self.callback
    }
}

} // verus!
