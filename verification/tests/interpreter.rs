use anticipate::control::control_byte;
use anticipate::command::parse_command_line;
use anticipate::env::{interpolate, EnvTable};
use anticipate::interpreter::{
    exec_command, plan_instruction, ready_banner, shell_env_value, tail_trim_len, CinemaOptions,
    InterpreterOptions, SessionAction,
};
use anticipate::parser::Instruction;
use anticipate::typing::typed_chunks;
use anticipate::Error;

fn env_with(name: &str, value: &str) -> EnvTable {
    let mut env = EnvTable::new();
    env.push(name.to_string(), value.to_string());
    env
}

#[test]
fn control_codes_resolve() {
    assert_eq!(control_byte("ETX").unwrap(), 3);
    assert_eq!(control_byte("EOT").unwrap(), 4);
    assert_eq!(control_byte("SUB").unwrap(), 26);
    assert_eq!(control_byte("DEL").unwrap(), 127);
    assert_eq!(control_byte("^C").unwrap(), 3);
    assert_eq!(control_byte("^@").unwrap(), 0);
    assert_eq!(control_byte("^?").unwrap(), 127);
    assert_eq!(control_byte("c").unwrap(), 3);
    assert_eq!(control_byte("z").unwrap(), 26);
    match control_byte("bogus") {
        Err(Error::InvalidControlCode(token)) => assert_eq!(token, "bogus"),
        other => panic!("expected an invalid-code failure, got {other:?}"),
    }
}

#[test]
fn interpolation_substitutes() {
    let env = env_with("MOCK_PASSWORD", "foobar");
    assert_eq!(interpolate("pass: $MOCK_PASSWORD!", &env), "pass: foobar!");
    assert_eq!(interpolate("$MISSING stays", &env), "$MISSING stays");
    assert_eq!(interpolate("no dollar", &env), "no dollar");
}

#[test]
fn interpolation_is_idempotent_here() {
    let env = env_with("A", " left intact ");
    let once = interpolate("x $A y $B", &env);
    let twice = interpolate(&once, &env);
    assert_eq!(once, twice);
}

#[test]
fn command_lines_split() {
    let words = parse_command_line("sh -noprofile -norc").unwrap();
    assert_eq!(words, vec!["sh", "-noprofile", "-norc"]);
    match parse_command_line("broken 'quote") {
        Err(Error::BadArguments(raw)) => assert_eq!(raw, "broken 'quote"),
        other => panic!("expected an argument failure, got {other:?}"),
    }
}

#[test]
fn recording_command_is_assembled() {
    let opts = InterpreterOptions::new_recording(
        "out.cast",
        true,
        CinemaOptions::default(),
        5000,
        false,
        false,
        false,
    );
    assert_eq!(
        opts.command,
        "asciinema rec \"out.cast\" --overwrite --rows=24 --cols=80"
    );
    assert!(opts.cinema.is_some());
}

#[test]
fn exec_command_prefers_the_pragma() {
    let opts = InterpreterOptions::default();
    let pragma = "./script.sh".to_string();
    assert_eq!(exec_command(&opts, Some(&pragma)), "./script.sh");
    assert_eq!(exec_command(&opts, None), "sh -noprofile -norc");

    let rec = InterpreterOptions::new_recording(
        "o.cast",
        false,
        CinemaOptions::default(),
        5000,
        false,
        false,
        false,
    );
    assert_eq!(exec_command(&rec, Some(&pragma)), rec.command);
}

#[test]
fn planning_follows_the_table() {
    let opts = InterpreterOptions::default();
    let env = EnvTable::new();
    let prompt = "> ".to_string();

    let a = plan_instruction(
        &Instruction::SendLine("echo $HOME".to_string()),
        &opts,
        None,
        &prompt,
        &env,
    )
    .unwrap();
    assert!(matches!(a, SessionAction::WriteLine(s) if s == "echo $HOME"));

    let a = plan_instruction(&Instruction::Wait, &opts, None, &prompt, &env).unwrap();
    assert!(matches!(a, SessionAction::ExpectLiteral(s) if s == "> "));

    let a = plan_instruction(
        &Instruction::SendControl("ETX".to_string()),
        &opts,
        None,
        &prompt,
        &env,
    )
    .unwrap();
    assert!(matches!(a, SessionAction::WriteControl(3)));

    let a = plan_instruction(&Instruction::Clear, &opts, None, &prompt, &env).unwrap();
    assert!(matches!(a, SessionAction::WriteLine(s) if s == "clear"));

    let e = plan_instruction(
        &Instruction::SendControl("nope".to_string()),
        &opts,
        None,
        &prompt,
        &env,
    )
    .unwrap_err();
    assert!(matches!(e, Error::InvalidControlCode(_)));

    let a = plan_instruction(
        &Instruction::Comment("# skip".to_string()),
        &opts,
        None,
        &prompt,
        &env,
    )
    .unwrap();
    assert!(matches!(a, SessionAction::Nothing));
}

#[test]
fn banner_and_shell_value() {
    assert_eq!(
        ready_banner(),
        "asciinema: press <ctrl-d> or type \"exit\" when you're done"
    );
    assert_eq!(shell_env_value("> ", "sh"), "PS1='> ' sh");
}

#[test]
fn trailing_lines_are_measured() {
    assert_eq!(tail_trim_len(b"a\nb\nc\n", 1), 4);
    assert_eq!(tail_trim_len(b"a\nb\nc\n", 0), 6);
    assert_eq!(tail_trim_len(b"a\n", 5), 2);
    assert_eq!(tail_trim_len(b"", 1), 0);
}

#[test]
fn typed_chunks_split_graphemes() {
    let chunks = typed_chunks("ab");
    assert_eq!(chunks, vec!["a", "b", "\n"]);
}
