use vstd::prelude::*;
use crate::argument::{ArgType, ArgValue, evaluation, is_int_literal, is_bool_literal, parse_int, signed_value};
use crate::definition::{CommandDefinition, DefinitionModel, evaluate_all, flag_names, instantiation, positional};
use crate::env::{Environment, assignment_parts, is_assignment_line, parse_assignment, replace_masks, substituted, trimmed};
use crate::error::{CommandError, CommandErrorModel, EnvVarError, EnvVarErrorModel, InputError, InputErrorModel};
use crate::instance::CommandInstance;
use crate::read::{argument_tokens, get_tokens, is_identifier, raw_tokens, tokenizes};
use crate::text::chars_of;

verus! {

/// The model of a command registry: its definitions in registration order.
pub open spec fn definition_views<F>(v: Seq<CommandDefinition<F>>) -> Seq<DefinitionModel<F>> {
    v.map_values(|d: CommandDefinition<F>| d@)
}

pub open spec fn has_command<F>(reg: Seq<DefinitionModel<F>>, name: Seq<char>) -> bool {
    exists|i: int| 0 <= i < reg.len() && #[trigger] reg[i].name == name
}

/// The definition registered under `name`, if any.
pub open spec fn find_command<F>(reg: Seq<DefinitionModel<F>>, name: Seq<char>) -> Option<
    DefinitionModel<F>,
> {
    if has_command(reg, name) {
        Some(reg[choose|i: int| 0 <= i < reg.len() && #[trigger] reg[i].name == name])
    } else {
        None
    }
}

/// Registration: a definition is added only when its name is not taken yet.
pub open spec fn with_registered<F>(reg: Seq<DefinitionModel<F>>, d: DefinitionModel<F>) -> Seq<
    DefinitionModel<F>,
> {
    if has_command(reg, d.name) {
        reg
    } else {
        reg.push(d)
    }
}

pub open spec fn names_unique<F>(reg: Seq<DefinitionModel<F>>) -> bool {
    forall|i: int, j: int|
        0 <= i < reg.len() && 0 <= j < reg.len() && #[trigger] reg[i].name == #[trigger] reg[j].name
            ==> i == j
}

pub open spec fn all_built<F>(reg: Seq<DefinitionModel<F>>) -> bool {
    forall|i: int| 0 <= i < reg.len() ==> (#[trigger] reg[i]).callback is Some
}

/// What one line leads to.
pub ghost enum DispatchModel {
    Assign(Seq<char>, Seq<char>),
    Invoke(Seq<char>, Seq<ArgValue>),
    InputFailed(InputErrorModel),
    CommandFailed(CommandErrorModel),
}

/// The pipeline for one line: an assignment line sets a variable; any other line is tokenized,
/// resolved in the registry, checked for arity and evaluated, and the first failure ends it.
pub open spec fn dispatch_model<F>(reg: Seq<DefinitionModel<F>>, line: Seq<char>) -> DispatchModel {
    let raw = raw_tokens(line);
    if is_assignment_line(line) {
        match assignment_parts(line) {
            Some((name, value)) => DispatchModel::Assign(name, value),
            None => DispatchModel::InputFailed(InputErrorModel::NotAEnvVarAttrib(trimmed(line))),
        }
    } else if raw.len() == 0 {
        DispatchModel::InputFailed(InputErrorModel::EmptyInput)
    } else if !is_identifier(raw[0]) {
        DispatchModel::InputFailed(InputErrorModel::NotACommand(raw[0]))
    } else {
        match find_command(reg, raw[0]) {
            None => DispatchModel::CommandFailed(CommandErrorModel::UnknownCommand(raw[0])),
            Some(d) => match instantiation(d.name, d.args, d.opts, argument_tokens(line)) {
                Ok(values) => DispatchModel::Invoke(raw[0], values),
                Err(e) => DispatchModel::CommandFailed(e),
            },
        }
    }
}

/// What a line leads to that the host carries out.
pub enum Dispatch<'a, F> {
    /// Set the variable to the value.
    Assign(String, String),
    /// Run the instance.
    Invoke(CommandInstance<'a, F>),
}

/// Why a line led to nothing.
#[derive(Debug)]
pub enum DispatchError {
    Input(InputError),
    Command(CommandError),
}

pub open spec fn outcome_model<'a, F>(r: Result<Dispatch<'a, F>, DispatchError>, name: Seq<char>) -> DispatchModel {
    match r {
        Ok(Dispatch::Assign(n, v)) => DispatchModel::Assign(n@, v@),
        Ok(Dispatch::Invoke(inst)) => DispatchModel::Invoke(name, inst.spec_args()),
        Err(DispatchError::Input(e)) => DispatchModel::InputFailed(e@),
        Err(DispatchError::Command(e)) => DispatchModel::CommandFailed(e@),
    }
}

/// The name under which the prompt is stored in the environment.
pub const PROMPT_VARIABLE: &'static str = "SYSTEM_PROMPT_DEFINITION";

/// The model of a shell.
pub ghost struct ShellModel<F> {
    pub commands: Seq<DefinitionModel<F>>,
    pub env: Map<Seq<char>, Seq<char>>,
    pub history: Seq<Seq<char>>,
    pub sparse: bool,
    pub log_file: Option<Seq<char>>,
}

/// A command shell: its registry of commands, its environment, and the lines it has run.
pub struct Shell<F> {
    command_registry: Vec<CommandDefinition<F>>,
    environment_registry: Environment,
    history: Vec<String>,
    do_sparse: bool,
    log_file: Option<String>,
}

impl<F> View for Shell<F> {
    type V = ShellModel<F>;

    closed spec fn view(&self) -> ShellModel<F> {
        ShellModel {
            commands: definition_views(self.command_registry@),
            env: self.environment_registry@,
            history: self.history@.map_values(|l: String| l@),
            sparse: self.do_sparse,
            log_file: match self.log_file {
                Some(f) => Some(f@),
                None => None,
            },
        }
    }
}

impl<F> Shell<F> {
    /// Command names are unique, every registered command has a callback, and the
    /// environment is well formed.
    pub closed spec fn wf(&self) -> bool {
        &&& names_unique(definition_views(self.command_registry@))
        &&& all_built(definition_views(self.command_registry@))
        &&& self.environment_registry.wf()
    }

    pub fn new() -> (r: Self)
        ensures
            r.wf(),
            r@.commands == Seq::<DefinitionModel<F>>::empty(),
            r@.env == Map::<Seq<char>, Seq<char>>::empty(),
            r@.history == Seq::<Seq<char>>::empty(),
            !r@.sparse,
            r@.log_file is None,
    {
        let r = Shell {
            command_registry: Vec::new(),
            environment_registry: Environment::new(),
            history: Vec::new(),
            do_sparse: false,
            log_file: None,
        };
        assert(definition_views(r.command_registry@) =~= Seq::<DefinitionModel<F>>::empty());
        assert(r@.history =~= Seq::<Seq<char>>::empty());
        r
    }

    /// Whether an empty line is printed after each command.
    pub fn set_sparse(&mut self, do_sparse: bool)
        requires
            old(self).wf(),
        ensures
            final(self).wf(),
            final(self)@ == (ShellModel { sparse: do_sparse, ..old(self)@ }),
    {
        self.do_sparse = do_sparse;
    }

    pub fn is_sparse(&self) -> (r: bool)
        ensures
            r == self@.sparse,
    {
        self.do_sparse
    }

    /// The file that log lines are appended to, if any.
    pub fn set_log_file(&mut self, file: Option<String>)
        requires
            old(self).wf(),
        ensures
            final(self).wf(),
            final(self)@ == (ShellModel {
                log_file: match file {
                    Some(f) => Some(f@),
                    None => None,
                },
                ..old(self)@
            }),
    {
        self.log_file = file;
    }

    pub fn log_file(&self) -> (r: Option<&String>)
        ensures
            match r {
                Some(f) => self@.log_file == Some(f@),
                None => self@.log_file is None,
            },
    {
        match &self.log_file {
            Some(f) => Some(f),
            None => None,
        }
    }

    /// Stores the prompt text; masks in it are substituted each time it is shown.
    pub fn set_prompt(&mut self, p: &str)
        requires
            old(self).wf(),
        ensures
            final(self).wf(),
            final(self)@ == (ShellModel {
                env: old(self)@.env.insert(PROMPT_VARIABLE@, p@),
                ..old(self)@
            }),
    {
        self.set_env(PROMPT_VARIABLE, p);
    }

    /// The prompt to show, its masks substituted; empty when none was set.
    pub fn prompt(&self) -> (r: String)
        requires
            self.wf(),
        ensures
            self@.env.contains_key(PROMPT_VARIABLE@) ==> r@ == substituted(
                self@.env[PROMPT_VARIABLE@],
                self@.env,
            ),
            !self@.env.contains_key(PROMPT_VARIABLE@) ==> r@ == Seq::<char>::empty(),
    {
        match self.environment_registry.get(PROMPT_VARIABLE) {
            Some(p) => replace_masks(p.as_str(), &self.environment_registry),
            None => String::new(),
        }
    }

    /// The position of the command called `name`, if one is registered.
    fn position(&self, name: &str) -> (r: Option<usize>)
        requires
            self.wf(),
        ensures
            match r {
                Some(i) => i < self@.commands.len() && self@.commands[i as int].name == name@
                    && find_command(self@.commands, name@) == Some(self@.commands[i as int]),
                None => !has_command(self@.commands, name@),
            },
    {
        let ghost reg = self@.commands;
        let key = name.to_owned();
        let mut i: usize = 0;
        while i < self.command_registry.len()
            invariant
                i <= self.command_registry@.len(),
                reg == definition_views(self.command_registry@),
                names_unique(reg),
                key@ == name@,
                forall|j: int| 0 <= j < i ==> #[trigger] reg[j].name != name@,
            decreases self.command_registry@.len() - i,
        {
            if self.command_registry[i].name().to_owned() == key {
                proof {
                    assert(reg[i as int].name == name@);
                    let c = choose|c: int| 0 <= c < reg.len() && #[trigger] reg[c].name == name@;
                    assert(reg[c].name == reg[i as int].name);
                }
                return Some(i);
            }
            assert(reg[i as int] == self.command_registry@[i as int]@);
            i = i + 1;
        }
        None
    }

    /// The definition registered under `name`.
    pub fn lookup(&self, name: &str) -> (r: Option<&CommandDefinition<F>>)
        requires
            self.wf(),
        ensures
            match r {
                Some(d) => find_command(self@.commands, name@) == Some(d@),
                None => find_command(self@.commands, name@) is None,
            },
    {
        match self.position(name) {
            Some(i) => Some(&self.command_registry[i]),
            None => None,
        }
    }

    /// The registered definitions, in registration order.
    pub fn commands(&self) -> (r: &Vec<CommandDefinition<F>>)
        ensures
            definition_views(r@) == self@.commands,
    {
        &self.command_registry
    }

    /// Registers a built definition, unless its name is taken: the first registration wins.
    pub fn register_command(&mut self, definition: CommandDefinition<F>)
        requires
            old(self).wf(),
            definition@.callback is Some,
        ensures
            final(self).wf(),
            final(self)@ == (ShellModel {
                commands: with_registered(old(self)@.commands, definition@),
                ..old(self)@
            }),
    {
        let ghost reg = self@.commands;
        let ghost d = definition@;
        match self.position(definition.name()) {
            Some(_) => {},
            None => {
                self.command_registry.push(definition);
                assert(definition_views(self.command_registry@) =~= reg.push(d));
            },
        }
    }

    /// Registers `help`, which lists the commands.
    pub fn register_help(&mut self, callback: F)
        requires
            old(self).wf(),
        ensures
            final(self).wf(),
            final(self)@.commands == with_registered(
                old(self)@.commands,
                DefinitionModel {
                    name: "help"@,
                    args: Seq::empty(),
                    opts: Map::empty(),
                    description: "- Shows this page"@,
                    callback: Some(callback),
                },
            ),
            final(self)@.env == old(self)@.env,
            final(self)@.history == old(self)@.history,
    {
        let d = CommandDefinition::new("help").set_description("- Shows this page").set_callback(
            callback,
        );
        self.register_command(d);
    }

    /// Registers `history`, which shows the last lines run; it takes their number.
    pub fn register_history(&mut self, callback: F)
        requires
            old(self).wf(),
        ensures
            final(self).wf(),
            final(self)@.commands == with_registered(
                old(self)@.commands,
                DefinitionModel {
                    name: "history"@,
                    args: seq![ArgType::Int],
                    opts: Map::empty(),
                    description: "len:int - Shows the list of the last len-th commands ran"@,
                    callback: Some(callback),
                },
            ),
            final(self)@.env == old(self)@.env,
            final(self)@.history == old(self)@.history,
    {
        let d = CommandDefinition::new("history").add_arg(ArgType::Int).set_description(
            "len:int - Shows the list of the last len-th commands ran",
        ).set_callback(callback);
        assert(d@.args =~= seq![ArgType::Int]);
        self.register_command(d);
    }

    /// Registers `exit`, which ends the program.
    pub fn register_exit(&mut self, callback: F)
        requires
            old(self).wf(),
        ensures
            final(self).wf(),
            final(self)@.commands == with_registered(
                old(self)@.commands,
                DefinitionModel {
                    name: "exit"@,
                    args: Seq::empty(),
                    opts: Map::empty(),
                    description: "- Exits the program"@,
                    callback: Some(callback),
                },
            ),
            final(self)@.env == old(self)@.env,
            final(self)@.history == old(self)@.history,
    {
        let d = CommandDefinition::new("exit").set_description("- Exits the program").set_callback(
            callback,
        );
        self.register_command(d);
    }

    fn set_env(&mut self, name: &str, value: &str)
        requires
            old(self).wf(),
        ensures
            final(self).wf(),
            final(self)@ == (ShellModel { env: old(self)@.env.insert(name@, value@), ..old(self)@ }),
    {
        self.environment_registry.set(name, value);
    }

    /// Sets a variable; a later value replaces an earlier one.
    pub fn register_env_var(&mut self, name: &str, value: &str)
        requires
            old(self).wf(),
        ensures
            final(self).wf(),
            final(self)@ == (ShellModel { env: old(self)@.env.insert(name@, value@), ..old(self)@ }),
    {
        self.set_env(name, value);
    }

    /// The text stored under `name`.
    pub fn get_env_var(&self, name: &str) -> (r: Result<String, EnvVarError>)
        requires
            self.wf(),
        ensures
            match r {
                Ok(v) => self@.env.contains_key(name@) && v@ == self@.env[name@],
                Err(e) => !self@.env.contains_key(name@) && e@ == EnvVarErrorModel::Unset(name@),
            },
    {
        match self.environment_registry.get(name) {
            Some(v) => Ok(v),
            None => Err(EnvVarError::Unset(name.to_owned())),
        }
    }

    /// The value stored under `name`, read as a signed 32-bit integer.
    pub fn get_env_int(&self, name: &str) -> (r: Result<i32, EnvVarError>)
        requires
            self.wf(),
        ensures
            match r {
                Ok(v) => self@.env.contains_key(name@) && is_int_literal(self@.env[name@])
                    && v as int == signed_value(self@.env[name@]),
                Err(e) => if self@.env.contains_key(name@) {
                    !is_int_literal(self@.env[name@]) && e@ == EnvVarErrorModel::Mismatch(
                        name@,
                        self@.env[name@],
                    )
                } else {
                    e@ == EnvVarErrorModel::Unset(name@)
                },
            },
    {
        let raw = self.get_env_var(name)?;
        match parse_int(&chars_of(raw.as_str())) {
            Some(v) => Ok(v),
            None => Err(EnvVarError::Mismatch(name.to_owned(), raw)),
        }
    }

    /// The value stored under `name`, read as `true` or `false`.
    pub fn get_env_bool(&self, name: &str) -> (r: Result<bool, EnvVarError>)
        requires
            self.wf(),
        ensures
            match r {
                Ok(v) => self@.env.contains_key(name@) && evaluation(ArgType::Bool, self@.env[name@])
                    == Some(ArgValue::Bool(v)),
                Err(e) => if self@.env.contains_key(name@) {
                    !is_bool_literal(self@.env[name@]) && e@ == EnvVarErrorModel::Mismatch(
                        name@,
                        self@.env[name@],
                    )
                } else {
                    e@ == EnvVarErrorModel::Unset(name@)
                },
            },
    {
        let raw = self.get_env_var(name)?;
        let token = crate::read::ArgToken::Literal(raw.clone());
        match ArgType::Bool.evaluate(&token) {
            Ok(crate::argument::EvaluatedArg::Bool(b)) => Ok(b),
            _ => Err(EnvVarError::Mismatch(name.to_owned(), raw)),
        }
    }

    /// `text` with its masks substituted from this shell's environment.
    pub fn substitute(&self, text: &str) -> (r: String)
        requires
            self.wf(),
        ensures
            r@ == substituted(text@, self@.env),
    {
        replace_masks(text, &self.environment_registry)
    }

    /// Decides what one line leads to: an assignment, an instance to run, or the error that
    /// ended the pipeline. Nothing is changed; the host carries out the outcome.
    pub fn dispatch<'a>(&'a self, line: &str) -> (r: Result<Dispatch<'a, F>, DispatchError>)
        requires
            self.wf(),
        ensures
            outcome_model(r, raw_tokens(line@)[0]) == dispatch_model(self@.commands, line@),
            r matches Ok(Dispatch::Invoke(inst)) ==> inst.spec_shell() == self && Some(
                *inst.spec_callback(),
            ) == find_command(self@.commands, raw_tokens(line@)[0])->0.callback
                && inst.spec_flags() == flag_names(argument_tokens(line@)),
    {
        if self.is_assignment(line) {
            return match parse_assignment(line) {
                Ok((name, value)) => Ok(Dispatch::Assign(name, value)),
                Err(e) => Err(DispatchError::Input(e)),
            };
        }
        let (identifier, args) = match get_tokens(line) {
            Ok(t) => t,
            Err(e) => return Err(DispatchError::Input(e)),
        };
        match self.lookup(identifier.0.as_str()) {
            Some(def) => {
                proof {
                    let reg = self@.commands;
                    let c = choose|c: int| 0 <= c < reg.len() && #[trigger] reg[c].name == identifier.0@;
                    assert(reg[c] == self.command_registry@[c]@);
                }
                match def.instantiate(self, args) {
                    Ok(inst) => Ok(Dispatch::Invoke(inst)),
                    Err(e) => Err(DispatchError::Command(e)),
                }
            },
            None => Err(DispatchError::Command(CommandError::UnknownCommand(identifier.0))),
        }
    }

    /// Whether the line's trimmed form starts with `$`.
    fn is_assignment(&self, line: &str) -> (r: bool)
        ensures
            r == is_assignment_line(line@),
    {
        let v = chars_of(line);
        let (a, b) = crate::env::trim_bounds(&v);
        a < b && v[a] == '$'
    }

    /// Adds a line to the history.
    pub fn push_history(&mut self, line: String)
        requires
            old(self).wf(),
        ensures
            final(self).wf(),
            final(self)@ == (ShellModel { history: old(self)@.history.push(line@), ..old(self)@ }),
    {
        let ghost h = self@.history;
        self.history.push(line);
        assert(self@.history =~= h.push(line@));
    }

    /// The lines run so far, oldest first.
    pub fn history_lines(&self) -> (r: &Vec<String>)
        ensures
            r@.map_values(|l: String| l@) == self@.history,
    {
        &self.history
    }

    /// Where the last `len` lines of the history start; all of them when `len` is not positive
    /// or exceeds their number.
    pub fn history_start(&self, len: i32) -> (r: usize)
        ensures
            r <= self@.history.len(),
            len <= 0 ==> r == 0,
            len > 0 && len as int <= self@.history.len() ==> r == self@.history.len() - len as int,
            len > 0 && len as int > self@.history.len() ==> r == 0,
    {
        let n = self.history.len();
        if len <= 0 || len as usize >= n {
            0
        } else {
            n - len as usize
        }
    }
}

/// Registering a second definition under a name that is taken changes nothing: looking the
/// name up still gives the first definition.
pub proof fn lemma_first_registration_wins<F>(
    reg: Seq<DefinitionModel<F>>,
    first: DefinitionModel<F>,
    second: DefinitionModel<F>,
)
    requires
        names_unique(reg),
        !has_command(reg, first.name),
        second.name == first.name,
    ensures
        with_registered(with_registered(reg, first), second) == with_registered(reg, first),
        find_command(with_registered(with_registered(reg, first), second), first.name) == Some(
            first,
        ),
{
    let r1 = reg.push(first);
    assert(r1[reg.len() as int].name == first.name);
    assert(has_command(r1, second.name));
    let c = choose|i: int| 0 <= i < r1.len() && #[trigger] r1[i].name == first.name;
    if c < reg.len() {
        assert(reg[c].name == first.name);
    }
}

/// A line that is no assignment, tokenizes, names a registered command, supplies exactly as
/// many positional arguments as it declares, each of which evaluates against its type, is
/// always carried to invocation, whatever flags it holds.
pub proof fn lemma_valid_line_is_invoked<F>(reg: Seq<DefinitionModel<F>>, line: Seq<char>)
    requires
        !is_assignment_line(line),
        tokenizes(line),
        find_command(reg, raw_tokens(line)[0]) is Some,
        positional(argument_tokens(line)).len() == find_command(reg, raw_tokens(line)[0])->0.args.len(),
        evaluate_all(
            find_command(reg, raw_tokens(line)[0])->0.args,
            positional(argument_tokens(line)),
        ) is Ok,
    ensures
        dispatch_model(reg, line) == DispatchModel::Invoke(
            raw_tokens(line)[0],
            evaluate_all(
                find_command(reg, raw_tokens(line)[0])->0.args,
                positional(argument_tokens(line)),
            )->Ok_0,
        ),
{
}

/// The log file for a session: the directory, then `diysh-`, the time stamp and `.log`.
pub fn log_file_name(directory: &str, stamp: &str) -> (r: String)
    ensures
        r@ == directory@ + "diysh-"@ + stamp@ + ".log"@,
{
    let mut name = directory.to_owned();
    name.append("diysh-");
    name.append(stamp);
    name.append(".log");
    name
}

} // verus!
