use diysh::argument::{ArgType, EvaluatedArg};
use diysh::definition::CommandDefinition;
use diysh::env::{parse_assignment, replace_masks, Environment};
use diysh::error::{CommandError, EnvVarError, InputError};
use diysh::log::{log_line, LogLevel};
use diysh::read::{get_raw_tokens, get_tokens, ArgToken};
use diysh::shell::{log_file_name, Dispatch, DispatchError, Shell};

fn literal(t: &ArgToken) -> Option<String> {
    match t {
        ArgToken::Literal(s) => Some(s.clone()),
        ArgToken::Flag(_) => None,
    }
}

fn flag(t: &ArgToken) -> Option<String> {
    match t {
        ArgToken::Flag(s) => Some(s.clone()),
        ArgToken::Literal(_) => None,
    }
}

fn eval(t: ArgType, text: &str) -> Result<EvaluatedArg, CommandError> {
    t.evaluate(&ArgToken::Literal(text.to_string()))
}

fn two_ints() -> CommandDefinition<u8> {
    CommandDefinition::new("sum")
        .set_description("a:int b:int - Prints the result of the sum of a + b")
        .add_arg(ArgType::Int)
        .add_arg(ArgType::Int)
        .set_callback(1u8)
        .build()
        .unwrap()
}

#[test]
fn quoted_text_is_one_token() {
    let (id, args) = get_tokens("print \"hello world\"").unwrap();
    assert_eq!(id.0, "print");
    assert_eq!(args.len(), 1);
    assert_eq!(literal(&args[0]), Some("hello world".to_string()));
}

#[test]
fn flag_keeps_its_remainder() {
    let (id, args) = get_tokens("cmd a --flag=ignored b").unwrap();
    assert_eq!(id.0, "cmd");
    assert_eq!(args.len(), 3);
    assert_eq!(literal(&args[0]), Some("a".to_string()));
    assert_eq!(flag(&args[1]), Some("flag=ignored".to_string()));
    assert_eq!(literal(&args[2]), Some("b".to_string()));
}

#[test]
fn empty_and_blank_lines_are_empty_input() {
    assert!(matches!(get_tokens(""), Err(InputError::EmptyInput)));
    assert!(matches!(get_tokens("   \t \n "), Err(InputError::EmptyInput)));
}

#[test]
fn digit_first_is_not_a_command() {
    match get_tokens("123abc def") {
        Err(InputError::NotACommand(t)) => assert_eq!(t, "123abc"),
        _ => panic!("expected NotACommand"),
    }
    match get_tokens("print! x") {
        Err(InputError::NotACommand(t)) => assert_eq!(t, "print!"),
        _ => panic!("expected NotACommand"),
    }
    match get_tokens("Print x") {
        Err(InputError::NotACommand(t)) => assert_eq!(t, "Print"),
        _ => panic!("expected NotACommand"),
    }
}

#[test]
fn flags_need_a_lowercase_letter_after_dashes() {
    let (_, args) = get_tokens("cmd --x -x --1 --Ab ---a --").unwrap();
    assert_eq!(flag(&args[0]), Some("x".to_string()));
    assert_eq!(literal(&args[1]), Some("-x".to_string()));
    assert_eq!(literal(&args[2]), Some("--1".to_string()));
    assert_eq!(literal(&args[3]), Some("--Ab".to_string()));
    assert_eq!(literal(&args[4]), Some("---a".to_string()));
    assert_eq!(literal(&args[5]), Some("--".to_string()));
}

#[test]
fn raw_token_edge_cases() {
    assert_eq!(get_raw_tokens("a  b\t\tc\n"), vec!["a", "b", "c"]);
    assert_eq!(get_raw_tokens("say \"\""), vec!["say", ""]);
    assert_eq!(get_raw_tokens("say \"open quote"), vec!["say", "open quote"]);
    assert_eq!(get_raw_tokens("x\"a b\"y"), vec!["xa b", "y"]);
    assert_eq!(get_raw_tokens("last"), vec!["last"]);
    assert!(get_raw_tokens("").is_empty());
}

#[test]
fn evaluation_is_repeatable() {
    for t in [ArgType::Str, ArgType::Int, ArgType::Float, ArgType::Bool] {
        for s in ["42", "x", "true", "1.5"] {
            let a = format!("{:?}", eval(t, s));
            let b = format!("{:?}", eval(t, s));
            assert_eq!(a, b);
        }
    }
}

#[test]
fn int_evaluation() {
    assert!(matches!(eval(ArgType::Int, "42"), Ok(EvaluatedArg::Int(42))));
    match eval(ArgType::Int, "42.5") {
        Err(CommandError::MismatchArgument(t, ArgType::Int)) => assert_eq!(t, "42.5"),
        _ => panic!("expected a mismatch"),
    }
    assert!(matches!(eval(ArgType::Int, "-2147483648"), Ok(EvaluatedArg::Int(i32::MIN))));
    assert!(matches!(eval(ArgType::Int, "2147483647"), Ok(EvaluatedArg::Int(i32::MAX))));
    assert!(matches!(eval(ArgType::Int, "+7"), Ok(EvaluatedArg::Int(7))));
    assert!(matches!(eval(ArgType::Int, "007"), Ok(EvaluatedArg::Int(7))));
    for bad in ["2147483648", "-2147483649", "99999999999999999999", "", "-", "+", "1a", " 1"] {
        assert!(eval(ArgType::Int, bad).is_err(), "{bad}");
    }
}

#[test]
fn bool_evaluation() {
    assert!(matches!(eval(ArgType::Bool, "true"), Ok(EvaluatedArg::Bool(true))));
    assert!(matches!(eval(ArgType::Bool, "false"), Ok(EvaluatedArg::Bool(false))));
    match eval(ArgType::Bool, "True") {
        Err(CommandError::MismatchArgument(t, ArgType::Bool)) => assert_eq!(t, "True"),
        _ => panic!("expected a mismatch"),
    }
}

#[test]
fn float_evaluation() {
    for good in ["3.14", "-2", "+.5", "5.", "1e5", "1E-3", "2.5e+7", "inf", "-Infinity", "NaN"] {
        assert!(good.parse::<f32>().is_ok());
        match eval(ArgType::Float, good) {
            Ok(EvaluatedArg::Float(t)) => assert_eq!(t, good),
            _ => panic!("{good} should be a float"),
        }
    }
    for bad in [".", "1.2.3", "e5", "1e", "1e+", "abc", "", "-", "1 ", "infin"] {
        assert!(bad.parse::<f32>().is_err());
        match eval(ArgType::Float, bad) {
            Err(CommandError::MismatchArgument(t, ArgType::Float)) => assert_eq!(t, bad),
            _ => panic!("{bad} should not be a float"),
        }
    }
}

#[test]
fn str_evaluation_takes_flag_names() {
    match ArgType::Str.evaluate(&ArgToken::Flag("name".to_string())) {
        Ok(arg) => assert_eq!(arg.get_str(), Some("name".to_string())),
        _ => panic!("a string always evaluates"),
    }
}

#[test]
fn getters_pick_their_variant() {
    assert_eq!(EvaluatedArg::Int(3).get_int(), Some(3));
    assert_eq!(EvaluatedArg::Int(3).get_str(), None);
    assert_eq!(EvaluatedArg::Bool(true).get_bool(), Some(true));
    assert_eq!(EvaluatedArg::Str("s".to_string()).get_bool(), None);
    assert_eq!(EvaluatedArg::Float("1.5".to_string()).get_float(), Some("1.5".to_string()));
    assert_eq!(EvaluatedArg::Bool(false).get_float(), None);
}

#[test]
fn arity_is_exact() {
    let shell: Shell<u8> = Shell::new();
    let def = two_ints();
    let one = vec![ArgToken::Literal("1".to_string())];
    match def.instantiate(&shell, one) {
        Err(CommandError::TooFewArguments(n, e, g)) => {
            assert_eq!((n.as_str(), e, g), ("sum", 2, 1));
        }
        _ => panic!("expected TooFewArguments"),
    }
    let three = vec![
        ArgToken::Literal("1".to_string()),
        ArgToken::Literal("2".to_string()),
        ArgToken::Literal("3".to_string()),
    ];
    match def.instantiate(&shell, three) {
        Err(CommandError::TooManyArguments(n, e, g)) => {
            assert_eq!((n.as_str(), e, g), ("sum", 2, 3));
        }
        _ => panic!("expected TooManyArguments"),
    }
}

#[test]
fn first_mismatch_is_reported() {
    let shell: Shell<u8> = Shell::new();
    let def = two_ints();
    let args = vec![ArgToken::Literal("x".to_string()), ArgToken::Literal("y".to_string())];
    match def.instantiate(&shell, args) {
        Err(CommandError::MismatchArgument(t, ArgType::Int)) => assert_eq!(t, "x"),
        _ => panic!("expected a mismatch on the first argument"),
    }
    let args = vec![ArgToken::Literal("4".to_string()), ArgToken::Literal("5".to_string())];
    let inst = def.instantiate(&shell, args).unwrap();
    assert_eq!(inst.args()[0].get_int(), Some(4));
    assert_eq!(inst.args()[1].get_int(), Some(5));
    assert_eq!(*inst.callback(), 1);
}

#[test]
fn build_needs_a_callback() {
    match CommandDefinition::<u8>::new("nothing").build() {
        Err(CommandError::NoCallback(n)) => assert_eq!(n, "nothing"),
        _ => panic!("expected NoCallback"),
    }
}

#[test]
fn first_registration_wins() {
    let mut shell: Shell<u8> = Shell::new();
    shell.register_command(
        CommandDefinition::new("print").set_description("first").add_arg(ArgType::Str).set_callback(1).build().unwrap(),
    );
    shell.register_command(
        CommandDefinition::new("print").set_description("second").set_callback(2).build().unwrap(),
    );
    let d = shell.lookup("print").unwrap();
    assert_eq!(d.description(), "first");
    assert_eq!(d.arg_list().len(), 1);
    assert_eq!(shell.commands().len(), 1);
    assert!(shell.lookup("other").is_none());
}

#[test]
fn valid_line_reaches_invocation() {
    let mut shell: Shell<u8> = Shell::new();
    shell.register_command(two_ints());
    match shell.dispatch("sum 2 40\n") {
        Ok(Dispatch::Invoke(inst)) => {
            assert_eq!(inst.args()[0].get_int(), Some(2));
            assert_eq!(inst.args()[1].get_int(), Some(40));
            assert_eq!(*inst.callback(), 1);
        }
        _ => panic!("expected an invocation"),
    }
}

#[test]
fn dispatch_failures() {
    let mut shell: Shell<u8> = Shell::new();
    shell.register_command(two_ints());
    match shell.dispatch("nope 1") {
        Err(DispatchError::Command(CommandError::UnknownCommand(n))) => assert_eq!(n, "nope"),
        _ => panic!("expected UnknownCommand"),
    }
    assert!(matches!(shell.dispatch("   "), Err(DispatchError::Input(InputError::EmptyInput))));
    assert!(matches!(
        shell.dispatch("sum 1"),
        Err(DispatchError::Command(CommandError::TooFewArguments(_, 2, 1)))
    ));
    match shell.dispatch("$x=1=2\n") {
        Ok(Dispatch::Assign(n, v)) => assert_eq!((n.as_str(), v.as_str()), ("x", "1=2")),
        _ => panic!("expected an assignment"),
    }
    match shell.dispatch("  $BAD=1") {
        Err(DispatchError::Input(InputError::NotAEnvVarAttrib(t))) => assert_eq!(t, "$BAD=1"),
        _ => panic!("expected NotAEnvVarAttrib"),
    }
}

#[test]
fn assignments() {
    let (n, v) = parse_assignment("$name=value").unwrap();
    assert_eq!((n.as_str(), v.as_str()), ("name", "value"));
    let (n, v) = parse_assignment(" \t$user=\n").unwrap();
    assert_eq!((n.as_str(), v.as_str()), ("user", ""));
    for bad in ["$x", "$=v", "x=1", "$1x=2", "", "$a b=c"] {
        assert!(matches!(parse_assignment(bad), Err(InputError::NotAEnvVarAttrib(_))), "{bad}");
    }
}

#[test]
fn masks_are_not_rescanned() {
    let mut env = Environment::new();
    env.set("A", "$B$");
    env.set("B", "bee");
    assert_eq!(replace_masks("$A$", &env), "$B$");
    assert_eq!(replace_masks("x $B$ y", &env), "x bee y");
    assert_eq!(replace_masks("$C$ and $", &env), "$C$ and $");
    assert_eq!(replace_masks("$$B$", &env), "$bee");
    assert_eq!(replace_masks("no masks", &env), "no masks");
}

#[test]
fn environment_reads() {
    let mut shell: Shell<u8> = Shell::new();
    shell.register_env_var("n", "12");
    shell.register_env_var("n", "13");
    shell.register_env_var("flag", "true");
    assert_eq!(shell.get_env_var("n").unwrap(), "13");
    assert_eq!(shell.get_env_int("n").unwrap(), 13);
    assert_eq!(shell.get_env_bool("flag").unwrap(), true);
    match shell.get_env_var("missing") {
        Err(EnvVarError::Unset(n)) => assert_eq!(n, "missing"),
        _ => panic!("expected Unset"),
    }
    match shell.get_env_int("flag") {
        Err(EnvVarError::Mismatch(n, v)) => assert_eq!((n.as_str(), v.as_str()), ("flag", "true")),
        _ => panic!("expected Mismatch"),
    }
    match shell.get_env_bool("n") {
        Err(EnvVarError::Mismatch(n, v)) => assert_eq!((n.as_str(), v.as_str()), ("n", "13")),
        _ => panic!("expected Mismatch"),
    }
}

#[test]
fn prompt_is_substituted() {
    let mut shell: Shell<u8> = Shell::new();
    assert_eq!(shell.prompt(), "");
    shell.set_prompt("$USER$ ~>>");
    shell.register_env_var("USER", "ojarrisonn_");
    assert_eq!(shell.prompt(), "ojarrisonn_ ~>>");
    assert_eq!(shell.substitute("hi $USER$"), "hi ojarrisonn_");
}

#[test]
fn built_in_commands() {
    let mut shell: Shell<u8> = Shell::new();
    shell.register_help(1);
    shell.register_history(2);
    shell.register_exit(3);
    shell.register_help(9);
    assert_eq!(shell.commands().len(), 3);
    let h = shell.lookup("history").unwrap();
    assert_eq!(h.arg_list(), &vec![ArgType::Int]);
    assert_eq!(h.description(), "len:int - Shows the list of the last len-th commands ran");
    assert_eq!(shell.lookup("help").unwrap().description(), "- Shows this page");
}

#[test]
fn history_window() {
    let mut shell: Shell<u8> = Shell::new();
    for l in ["a", "b", "c"] {
        shell.push_history(l.to_string());
    }
    assert_eq!(shell.history_lines().len(), 3);
    assert_eq!(shell.history_start(0), 0);
    assert_eq!(shell.history_start(-4), 0);
    assert_eq!(shell.history_start(2), 1);
    assert_eq!(shell.history_start(3), 0);
    assert_eq!(shell.history_start(10), 0);
}

#[test]
fn shell_settings() {
    let mut shell: Shell<u8> = Shell::new();
    assert!(!shell.is_sparse());
    shell.set_sparse(true);
    assert!(shell.is_sparse());
    assert!(shell.log_file().is_none());
    shell.set_log_file(Some("/tmp/x.log".to_string()));
    assert_eq!(shell.log_file().unwrap(), "/tmp/x.log");
}

#[test]
fn log_lines_and_names() {
    assert_eq!(log_line(LogLevel::INFO, "hi"), "[INFO] hi\n");
    assert_eq!(log_line(LogLevel::ERROR, "bad"), "[ERROR] bad\n");
    assert_eq!(LogLevel::WARN.label(), "[WARN]");
    assert!(!LogLevel::INFO.is_shown());
    assert!(LogLevel::WARN.is_shown());
    assert_eq!(log_file_name("/tmp/diysh/", "2024"), "/tmp/diysh/diysh-2024.log");
}

#[test]
fn flags_are_optional_arguments() {
    let shell: Shell<u8> = Shell::new();
    let def = CommandDefinition::new("ls")
        .add_arg(ArgType::Str)
        .add_opt_arg("all", ArgType::Bool)
        .add_opt_arg("depth", ArgType::Str)
        .add_opt_arg("depth", ArgType::Int)
        .set_callback(5u8)
        .build()
        .unwrap();
    assert_eq!(def.opt_arg("depth"), Some(ArgType::Int));
    assert_eq!(def.opt_arg("all"), Some(ArgType::Bool));
    assert_eq!(def.opt_arg("size"), None);
    let (_, args) = get_tokens("ls --all dir --depth").unwrap();
    let inst = def.instantiate(&shell, args).unwrap();
    assert_eq!(inst.args().len(), 1);
    assert_eq!(inst.args()[0].get_str(), Some("dir".to_string()));
    assert_eq!(inst.flags(), &vec!["all".to_string(), "depth".to_string()]);
    let (_, args) = get_tokens("ls dir --size --also").unwrap();
    let inst = def.instantiate(&shell, args).unwrap();
    assert_eq!(inst.args()[0].get_str(), Some("dir".to_string()));
    assert_eq!(inst.flags(), &vec!["size".to_string(), "also".to_string()]);
    let ints = CommandDefinition::new("num").add_arg(ArgType::Int).set_callback(6u8).build().unwrap();
    let (_, args) = get_tokens("num a --x").unwrap();
    match ints.instantiate(&shell, args) {
        Err(CommandError::MismatchArgument(t, ArgType::Int)) => assert_eq!(t, "a"),
        _ => panic!("expected the mismatch on the positional argument"),
    }
    let none = CommandDefinition::new("bare").set_callback(8u8).build().unwrap();
    let (_, args) = get_tokens("bare --x").unwrap();
    let inst = none.instantiate(&shell, args).unwrap();
    assert!(inst.args().is_empty());
    assert_eq!(inst.flags(), &vec!["x".to_string()]);
    let (_, args) = get_tokens("ls --all").unwrap();
    assert!(matches!(
        def.instantiate(&shell, args),
        Err(CommandError::TooFewArguments(_, 1, 0))
    ));
}

#[test]
fn dispatch_passes_flags() {
    let mut shell: Shell<u8> = Shell::new();
    shell.register_command(
        CommandDefinition::new("run").add_opt_arg("fast", ArgType::Bool).set_callback(7u8).build().unwrap(),
    );
    match shell.dispatch("run --fast") {
        Ok(Dispatch::Invoke(inst)) => {
            assert!(inst.args().is_empty());
            assert_eq!(inst.flags(), &vec!["fast".to_string()]);
        }
        _ => panic!("expected an invocation"),
    }
    match shell.dispatch("run --slow") {
        Ok(Dispatch::Invoke(inst)) => assert_eq!(inst.flags(), &vec!["slow".to_string()]),
        _ => panic!("an undeclared flag is passed on"),
    }
}

#[test]
fn error_messages() {
    assert_eq!(InputError::EmptyInput.message(), "Empty input");
    assert_eq!(InputError::NotACommand("1x".to_string()).message(), "1x isn't a command");
    assert_eq!(
        InputError::NotAEnvVarAttrib("$X".to_string()).message(),
        "$X isn't a proper environment variable attribution"
    );
    assert_eq!(
        CommandError::MismatchArgument("4.5".to_string(), ArgType::Int).message(),
        "Mismatch argument type, can convert 4.5 into Int"
    );
    assert_eq!(
        CommandError::TooManyArguments("sum".to_string(), 2, 13).message(),
        "Too many arguments for sum, expected 2, but got 13"
    );
    assert_eq!(
        CommandError::TooFewArguments("sum".to_string(), 10, 0).message(),
        "Too few arguments for sum, expected 10, but got 0"
    );
    assert_eq!(CommandError::NoCallback("p".to_string()).message(), "No callback defined for p");
    assert_eq!(CommandError::UnknownArgument("z".to_string()).message(), "Unknown argument z");
    assert_eq!(CommandError::UnknownCommand("q".to_string()).message(), "Unknown command q");
    assert_eq!(EnvVarError::Unset("U".to_string()).message(), "Unset environment variable U");
    assert_eq!(
        EnvVarError::Mismatch("n".to_string(), "x".to_string()).message(),
        "n environment variable with value x can't be casted to desired type"
    );
    assert_eq!(ArgType::Float.name(), "Float");
    assert_eq!(diysh::error::decimal(1234567), "1234567");
    assert_eq!(diysh::error::decimal(0), "0");
}
