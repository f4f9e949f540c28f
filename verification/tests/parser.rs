use anticipate::parser::{Instruction, ScriptParser, ScriptSource};
use anticipate::script::splice_subtree;
use anticipate::Error;

#[test]
fn parse_pragma() {
    let source = "#!../programs/foo.sh";
    let instructions = ScriptParser::parse(source).unwrap();
    assert_eq!(1, instructions.len());
    assert!(matches!(instructions.first(), Some(Instruction::Pragma(_))));
}

#[test]
fn parse_sendline() {
    let source = "#$ sendline foo";
    let instructions = ScriptParser::parse(source).unwrap();
    assert_eq!(1, instructions.len());
    assert!(matches!(
        instructions.first(),
        Some(Instruction::SendLine(_))
    ));
}

#[test]
fn parse_readline() {
    let source = "#$ readline";
    let instructions = ScriptParser::parse(source).unwrap();
    assert_eq!(1, instructions.len());
    assert!(matches!(instructions.first(), Some(Instruction::ReadLine)));
}

#[test]
fn parse_sendline_raw() {
    let source = "foo";
    let instructions = ScriptParser::parse(source).unwrap();
    assert_eq!(1, instructions.len());
    assert!(matches!(
        instructions.first(),
        Some(Instruction::SendLine(_))
    ));
}

#[test]
fn parse_sendline_raw_numeric() {
    let source = "2";
    let instructions = ScriptParser::parse(source).unwrap();
    assert_eq!(1, instructions.len());
    assert!(matches!(
        instructions.first(),
        Some(Instruction::SendLine(_))
    ));
}

#[test]
fn parse_expect() {
    let source = "#$ expect bar";
    let instructions = ScriptParser::parse(source).unwrap();
    assert_eq!(1, instructions.len());
    assert!(matches!(instructions.first(), Some(Instruction::Expect(_))));
}

#[test]
fn parse_regex() {
    let source = "#$ regex [0-9]";
    let instructions = ScriptParser::parse(source).unwrap();
    assert_eq!(1, instructions.len());
    assert!(matches!(instructions.first(), Some(Instruction::Regex(_))));
}

#[test]
fn parse_sendcontrol() {
    let source = "#$ sendcontrol c";
    let instructions = ScriptParser::parse(source).unwrap();
    assert_eq!(1, instructions.len());
    assert!(matches!(
        instructions.first(),
        Some(Instruction::SendControl(_))
    ));
}

#[test]
fn parse_sleep() {
    let source = "#$ sleep 500";
    let instructions = ScriptParser::parse(source).unwrap();
    assert_eq!(1, instructions.len());
    assert!(matches!(instructions.first(), Some(Instruction::Sleep(_))));
}

#[test]
fn parse_comment() {
    let source = "# this is a comment";
    let instructions = ScriptParser::parse(source).unwrap();
    if let Some(Instruction::Comment(text)) = instructions.get(0) {
        assert_eq!(source, text.as_str());
    } else {
        panic!("expected comment instruction");
    }
}

#[test]
fn parse_send() {
    let source = "#$ send echo";
    let instructions = ScriptParser::parse(source).unwrap();
    assert_eq!(1, instructions.len());
    assert!(matches!(instructions.first(), Some(Instruction::Send(_))));
}

#[test]
fn parse_flush() {
    let source = "#$ flush";
    let instructions = ScriptParser::parse(source).unwrap();
    assert_eq!(1, instructions.len());
    assert!(matches!(instructions.first(), Some(Instruction::Flush)));
}

#[test]
fn parse_wait() {
    let source = "#$ wait";
    let instructions = ScriptParser::parse(source).unwrap();
    assert_eq!(1, instructions.len());
    assert!(matches!(instructions.first(), Some(Instruction::Wait)));
}

#[test]
fn parse_clear() {
    let source = "#$ clear";
    let instructions = ScriptParser::parse(source).unwrap();
    assert_eq!(1, instructions.len());
    assert!(matches!(instructions.first(), Some(Instruction::Clear)));
}

#[test]
fn parse_comment_leading_whitespace() {
    let source = r#"    # comment with leading whitespace"#;
    let result = ScriptParser::parse(source);

    println!("{:#?}", result);
}

// Errors

#[test]
fn parse_pragma_first_err() {
    let source = r#"
# comment before the pragma
#!sh"#;
    let result = ScriptParser::parse(source);

    println!("{:#?}", result);

    assert!(matches!(result, Err(Error::PragmaFirst)));
}

#[test]
fn parse_unknown() {
    let source = "#$ foobar";
    let result = ScriptParser::parse(source);
    assert!(matches!(result, Err(Error::UnknownInstruction(_))));

    if let Err(Error::UnknownInstruction(cmd)) = result {
        assert_eq!("#$ foobar", cmd.as_str());
    } else {
        panic!("expected unknown instruction error");
    }
}

#[test]
fn parse_unknown_empty() {
    let source = "#$";
    let result = ScriptParser::parse(source);
    assert!(matches!(result, Err(Error::UnknownInstruction(_))));

    if let Err(Error::UnknownInstruction(cmd)) = result {
        assert_eq!("", cmd.as_str());
    } else {
        panic!("expected unknown instruction error");
    }
}

#[test]
fn parse_fidelity() {
    let source = "#!sh\n#$ sendline foo\nbar\n#$ expect baz\n";
    let instructions = ScriptParser::parse(source).unwrap();
    assert_eq!(4, instructions.len());
    match &instructions[0] {
        Instruction::Pragma(cmd) => assert_eq!("sh", cmd.as_str()),
        other => panic!("expected a pragma, got {other:?}"),
    }
    match &instructions[1] {
        Instruction::SendLine(text) => assert_eq!("foo", text.as_str()),
        other => panic!("expected a typed line, got {other:?}"),
    }
    match &instructions[2] {
        Instruction::SendLine(text) => assert_eq!("bar", text.as_str()),
        other => panic!("expected a typed line, got {other:?}"),
    }
    match &instructions[3] {
        Instruction::Expect(text) => assert_eq!("baz", text.as_str()),
        other => panic!("expected a literal wait, got {other:?}"),
    }
}

#[test]
fn parse_sleep_value() {
    let source = "#$ sleep 500";
    let instructions = ScriptParser::parse(source).unwrap();
    match instructions.first() {
        Some(Instruction::Sleep(ms)) => assert_eq!(*ms, 500),
        other => panic!("expected a pause, got {other:?}"),
    }
}

#[test]
fn parse_sleep_malformed() {
    let source = "#$ sleep 99x";
    let result = ScriptParser::parse(source);
    match result {
        Err(Error::NumberExpected(raw)) => assert_eq!("99x", raw.as_str()),
        other => panic!("expected a number failure, got {other:?}"),
    }
}

#[test]
fn parse_records_imports() {
    let kw = String::from("incl") + "ude";
    let source = format!("line1\n#$ {} B\nline3", kw);
    let (instructions, imports) = ScriptParser::parse_file(&source).unwrap();
    assert_eq!(2, instructions.len());
    assert_eq!(1, imports.len());
    assert_eq!("B", imports[0].path.as_str());
    assert_eq!(1, imports[0].index);
}

#[test]
fn splice_restores_positions() {
    let kw = String::from("incl") + "ude";
    let a_src = format!("line1\n#$ {} B\nline3", kw);
    let (mut a, imports) = ScriptParser::parse_file(&a_src).unwrap();
    assert_eq!(imports.len(), 1);

    let b_src = "#$ sendline x\n#$ readline";
    let b = ScriptParser::parse(b_src).unwrap();
    assert_eq!(b.len(), 2);

    splice_subtree(
        &mut a,
        imports[0].index,
        0,
        ScriptSource {
            source: b_src.to_string(),
            instructions: b,
        },
    );

    assert_eq!(a.len(), 3);
    assert!(matches!(&a[0], Instruction::SendLine(s) if s == "line1"));
    match &a[1] {
        Instruction::Include(tree) => {
            assert_eq!(tree.instructions.len(), 2);
            assert!(matches!(&tree.instructions[0], Instruction::SendLine(s) if s == "x"));
            assert!(matches!(&tree.instructions[1], Instruction::ReadLine));
        }
        other => panic!("expected a spliced subtree, got {other:?}"),
    }
    assert!(matches!(&a[2], Instruction::SendLine(s) if s == "line3"));
}
