use vstd::prelude::*;
use crate::argument::ArgType;
use crate::text::push_char;

verus! {

/// std's `io::Error`, carried unexamined inside `InputError::InterfaceError`.
#[verifier::external_type_specification]
#[verifier::external_body]
pub struct ExIoError(std::io::Error);

/// Failures of turning a raw line into a command or an assignment.
#[derive(Debug)]
pub enum InputError {
    EmptyInput,
    NotACommand(String),
    NotAEnvVarAttrib(String),
    InterfaceError(std::io::Error),
}

/// Failures of building, resolving or instantiating a command.
#[derive(Debug, Clone)]
pub enum CommandError {
    MismatchArgument(String, ArgType),
    NoCallback(String),
    TooManyArguments(String, usize, usize),
    TooFewArguments(String, usize, usize),
    UnknownArgument(String),
    UnknownCommand(String),
}

/// Failures of a typed read of the environment store.
#[derive(Debug, Clone)]
pub enum EnvVarError {
    Unset(String),
    Mismatch(String, String),
}


/// The model of an input error.
pub ghost enum InputErrorModel {
    EmptyInput,
    NotACommand(Seq<char>),
    NotAEnvVarAttrib(Seq<char>),
    InterfaceError,
}

impl View for InputError {
    type V = InputErrorModel;

    open spec fn view(&self) -> InputErrorModel {
        match self {
            InputError::EmptyInput => InputErrorModel::EmptyInput,
            InputError::NotACommand(t) => InputErrorModel::NotACommand(t@),
            InputError::NotAEnvVarAttrib(t) => InputErrorModel::NotAEnvVarAttrib(t@),
            InputError::InterfaceError(_) => InputErrorModel::InterfaceError,
        }
    }
}

/// The model of a command error.
pub ghost enum CommandErrorModel {
    MismatchArgument(Seq<char>, ArgType),
    NoCallback(Seq<char>),
    TooManyArguments(Seq<char>, nat, nat),
    TooFewArguments(Seq<char>, nat, nat),
    UnknownArgument(Seq<char>),
    UnknownCommand(Seq<char>),
}

impl View for CommandError {
    type V = CommandErrorModel;

    open spec fn view(&self) -> CommandErrorModel {
        match self {
            CommandError::MismatchArgument(t, a) => CommandErrorModel::MismatchArgument(t@, *a),
            CommandError::NoCallback(n) => CommandErrorModel::NoCallback(n@),
            CommandError::TooManyArguments(n, e, g) => CommandErrorModel::TooManyArguments(
                n@,
                *e as nat,
                *g as nat,
            ),
            CommandError::TooFewArguments(n, e, g) => CommandErrorModel::TooFewArguments(
                n@,
                *e as nat,
                *g as nat,
            ),
            CommandError::UnknownArgument(n) => CommandErrorModel::UnknownArgument(n@),
            CommandError::UnknownCommand(n) => CommandErrorModel::UnknownCommand(n@),
        }
    }
}

/// The model of an environment read error.
pub ghost enum EnvVarErrorModel {
    Unset(Seq<char>),
    Mismatch(Seq<char>, Seq<char>),
}

impl View for EnvVarError {
    type V = EnvVarErrorModel;

    open spec fn view(&self) -> EnvVarErrorModel {
        match self {
            EnvVarError::Unset(n) => EnvVarErrorModel::Unset(n@),
            EnvVarError::Mismatch(n, v) => EnvVarErrorModel::Mismatch(n@, v@),
        }
    }
}


/// The decimal digit for `d`, when `d < 10`.
pub open spec fn digit_char(d: nat) -> char {
    if d == 0 {
        '0'
    } else if d == 1 {
        '1'
    } else if d == 2 {
        '2'
    } else if d == 3 {
        '3'
    } else if d == 4 {
        '4'
    } else if d == 5 {
        '5'
    } else if d == 6 {
        '6'
    } else if d == 7 {
        '7'
    } else if d == 8 {
        '8'
    } else {
        '9'
    }
}

/// The decimal numeral of `n`, without leading zeros.
pub open spec fn decimal_text(n: nat) -> Seq<char>
    decreases n,
{
    if n < 10 {
        seq![digit_char(n)]
    } else {
        decimal_text(n / 10).push(digit_char(n % 10))
    }
}

fn digit(d: usize) -> (c: char)
    requires
        d < 10,
    ensures
        c == digit_char(d as nat),
{
    if d == 0 {
        '0'
    } else if d == 1 {
        '1'
    } else if d == 2 {
        '2'
    } else if d == 3 {
        '3'
    } else if d == 4 {
        '4'
    } else if d == 5 {
        '5'
    } else if d == 6 {
        '6'
    } else if d == 7 {
        '7'
    } else if d == 8 {
        '8'
    } else {
        '9'
    }
}

/// The decimal numeral of `n`.
pub fn decimal(n: usize) -> (r: String)
    ensures
        r@ == decimal_text(n as nat),
    decreases n,
{
    if n < 10 {
        let mut s = String::new();
        push_char(&mut s, digit(n));
        s
    } else {
        let mut s = decimal(n / 10);
        push_char(&mut s, digit(n % 10));
        s
    }
}

pub open spec fn arg_type_name(t: ArgType) -> Seq<char> {
    match t {
        ArgType::Str => "Str"@,
        ArgType::Int => "Int"@,
        ArgType::Float => "Float"@,
        ArgType::Bool => "Bool"@,
    }
}

impl ArgType {
    /// The type's name as shown in messages.
    pub fn name(&self) -> (r: &'static str)
        ensures
            r@ == arg_type_name(*self),
    {
        match self {
            ArgType::Str => "Str",
            ArgType::Int => "Int",
            ArgType::Float => "Float",
            ArgType::Bool => "Bool",
        }
    }
}

/// The message reported for an input error. For an interface error the host appends the
/// I/O error's own text.
pub open spec fn input_error_text(e: InputErrorModel) -> Seq<char> {
    match e {
        InputErrorModel::EmptyInput => "Empty input"@,
        InputErrorModel::NotACommand(c) => c + " isn't a command"@,
        InputErrorModel::NotAEnvVarAttrib(v) => v
            + " isn't a proper environment variable attribution"@,
        InputErrorModel::InterfaceError => "Command-line input error"@,
    }
}

/// The message reported for a command error.
pub open spec fn command_error_text(e: CommandErrorModel) -> Seq<char> {
    match e {
        CommandErrorModel::MismatchArgument(a, t) => "Mismatch argument type, can convert "@ + a
            + " into "@ + arg_type_name(t),
        CommandErrorModel::NoCallback(n) => "No callback defined for "@ + n,
        CommandErrorModel::TooManyArguments(n, e, g) => "Too many arguments for "@ + n
            + ", expected "@ + decimal_text(e) + ", but got "@ + decimal_text(g),
        CommandErrorModel::TooFewArguments(n, e, g) => "Too few arguments for "@ + n
            + ", expected "@ + decimal_text(e) + ", but got "@ + decimal_text(g),
        CommandErrorModel::UnknownArgument(a) => "Unknown argument "@ + a,
        CommandErrorModel::UnknownCommand(n) => "Unknown command "@ + n,
    }
}

/// The message reported for an environment read error.
pub open spec fn env_error_text(e: EnvVarErrorModel) -> Seq<char> {
    match e {
        EnvVarErrorModel::Unset(n) => "Unset environment variable "@ + n,
        EnvVarErrorModel::Mismatch(n, v) => n + " environment variable with value "@ + v
            + " can't be casted to desired type"@,
    }
}

impl InputError {
    pub fn message(&self) -> (r: String)
        ensures
            r@ == input_error_text(self@),
    {
        match self {
            InputError::EmptyInput => "Empty input".to_owned(),
            InputError::NotACommand(c) => {
                let mut m = c.clone();
                m.append(" isn't a command");
                m
            },
            InputError::NotAEnvVarAttrib(v) => {
                let mut m = v.clone();
                m.append(" isn't a proper environment variable attribution");
                m
            },
            InputError::InterfaceError(_) => "Command-line input error".to_owned(),
        }
    }
}

impl CommandError {
    pub fn message(&self) -> (r: String)
        ensures
            r@ == command_error_text(self@),
    {
        match self {
            CommandError::MismatchArgument(a, t) => {
                let mut m = "Mismatch argument type, can convert ".to_owned();
                m.append(a.as_str());
                m.append(" into ");
                m.append(t.name());
                m
            },
            CommandError::NoCallback(n) => {
                let mut m = "No callback defined for ".to_owned();
                m.append(n.as_str());
                m
            },
            CommandError::TooManyArguments(n, e, g) => {
                let mut m = "Too many arguments for ".to_owned();
                m.append(n.as_str());
                m.append(", expected ");
                m.append(decimal(*e).as_str());
                m.append(", but got ");
                m.append(decimal(*g).as_str());
                m
            },
            CommandError::TooFewArguments(n, e, g) => {
                let mut m = "Too few arguments for ".to_owned();
                m.append(n.as_str());
                m.append(", expected ");
                m.append(decimal(*e).as_str());
                m.append(", but got ");
                m.append(decimal(*g).as_str());
                m
            },
            CommandError::UnknownArgument(a) => {
                let mut m = "Unknown argument ".to_owned();
                m.append(a.as_str());
                m
            },
            CommandError::UnknownCommand(n) => {
                let mut m = "Unknown command ".to_owned();
                m.append(n.as_str());
                m
            },
        }
    }
}

impl EnvVarError {
    pub fn message(&self) -> (r: String)
        ensures
            r@ == env_error_text(self@),
    {
        match self {
            EnvVarError::Unset(n) => {
                let mut m = "Unset environment variable ".to_owned();
                m.append(n.as_str());
                m
            },
            EnvVarError::Mismatch(n, v) => {
                let mut m = n.clone();
                m.append(" environment variable with value ");
                m.append(v.as_str());
                m.append(" can't be casted to desired type");
                m
            },
        }
    }
}

} // verus!
