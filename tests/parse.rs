use gdb::parser::{parse_async_line, parse_line, parse_result_line, parse_stream_line};
use gdb::session::Error;
use gdb::{AsyncClass, AsyncRecord, MessageRecord, Record, ResultClass, StreamRecord, Value, Variable};

fn var(name: &str, value: Value) -> Variable {
    Variable { name: name.to_string(), value }
}

fn text(s: &str) -> Value {
    Value::String(s.to_string())
}

fn result_content(line: &str) -> Vec<Variable> {
    parse_result_line(line).expect("a result record").content
}

#[test]
fn done_has_empty_content() {
    let m = parse_result_line("^done\n").unwrap();
    assert_eq!(m.class, ResultClass::Done);
    assert_eq!(m.token, None);
    assert!(m.content.is_empty());
    assert!(matches!(parse_line("^done\n"), Ok(Record::Result(_))));
}

#[test]
fn unknown_result_class_fails() {
    assert_eq!(parse_result_line("^bogus\n"), None);
    assert!(matches!(parse_line("^bogus\n"), Err(Error::ParseError)));
    assert!(matches!(parse_line("^doneX\n"), Err(Error::ParseError)));
    assert_eq!(parse_result_line("^doneyet\n"), None);
    assert_eq!(parse_result_line("^Done\n"), None);
    assert_eq!(parse_result_line("^done-x\n"), None);
    assert_eq!(parse_result_line("5^bogus,a=\"1\"\n"), None);
}

#[test]
fn every_result_class() {
    let cases = [
        ("^done\n", ResultClass::Done),
        ("^running\n", ResultClass::Running),
        ("^connected\n", ResultClass::Connected),
        ("^error,msg=\"no\"\n", ResultClass::Error),
        ("^exit\n", ResultClass::Exit),
    ];
    for (line, class) in cases.iter() {
        assert_eq!(parse_result_line(line).unwrap().class, *class);
    }
}

#[test]
fn token_is_kept() {
    let m = parse_result_line("12^done,bkpt=[]\n").unwrap();
    assert_eq!(m.token, Some("12".to_string()));
    assert_eq!(m.content, vec![var("bkpt", Value::ValueList(vec![]))]);
}

#[test]
fn content_keeps_wire_order() {
    let c = result_content("^done,z=\"1\",a=\"2\",m=\"3\",a=\"4\"\n");
    assert_eq!(
        c,
        vec![var("z", text("1")), var("a", text("2")), var("m", text("3")), var("a", text("4"))]
    );
}

#[test]
fn braces_make_a_tuple_in_order() {
    let c = result_content("^done,v={a=\"1\",b=\"2\"}\n");
    assert_eq!(
        c,
        vec![var("v", Value::VariableList(vec![var("a", text("1")), var("b", text("2"))]))]
    );
}

#[test]
fn brackets_of_values_make_a_list() {
    let c = result_content("^done,v=[\"1\",\"2\",\"3\"]\n");
    assert_eq!(c, vec![var("v", Value::ValueList(vec![text("1"), text("2"), text("3")]))]);
}

#[test]
fn brackets_of_pairs_make_a_tuple() {
    let c = result_content("^done,v=[a=\"1\"]\n");
    assert_eq!(c, vec![var("v", Value::VariableList(vec![var("a", text("1"))]))]);
}

#[test]
fn empty_braces_and_brackets() {
    let c = result_content("^done,a={},b=[]\n");
    assert_eq!(
        c,
        vec![var("a", Value::VariableList(vec![])), var("b", Value::ValueList(vec![]))]
    );
}

#[test]
fn nested_values() {
    let c = result_content(
        "^done,bkpt={number=\"1\",groups=[\"i1\",\"i2\"],frames=[{f=\"main\"},{f=\"g\"}]}\n",
    );
    let frames = Value::ValueList(vec![
        Value::VariableList(vec![var("f", text("main"))]),
        Value::VariableList(vec![var("f", text("g"))]),
    ]);
    assert_eq!(
        c,
        vec![var(
            "bkpt",
            Value::VariableList(vec![
                var("number", text("1")),
                var("groups", Value::ValueList(vec![text("i1"), text("i2")])),
                var("frames", frames),
            ])
        )]
    );
}

#[test]
fn malformed_results_fail() {
    assert_eq!(parse_result_line("^done,\n"), None);
    assert_eq!(parse_result_line("^done,a\n"), None);
    assert_eq!(parse_result_line("^done,a=\"1\"x\n"), None);
    assert_eq!(parse_result_line("^done,a=\"1\""), None);
    assert_eq!(parse_result_line("^done,a={b=\"1\"\n"), None);
    assert_eq!(parse_result_line("^done,a=[\"1\",b=\"2\"]\n"), None);
    assert_eq!(parse_result_line("^done,a=[b=\"1\",\"2\"]\n"), None);
    assert_eq!(parse_result_line("^done a=\"1\"\n"), None);
    assert_eq!(parse_result_line("^\n"), None);
}

#[test]
fn async_records_by_sigil() {
    match parse_async_line("*stopped,reason=\"breakpoint-hit\"\n") {
        Some(AsyncRecord::Exec(m)) => {
            assert_eq!(m.class, AsyncClass::Stopped);
            assert_eq!(m.content, vec![var("reason", text("breakpoint-hit"))]);
        }
        other => panic!("unexpected {:?}", other),
    }
    match parse_async_line("=thread-group-added,id=\"i1\"\n") {
        Some(AsyncRecord::Notify(m)) => {
            assert_eq!(m.class, AsyncClass::Other);
            assert_eq!(m.content, vec![var("id", text("i1"))]);
        }
        other => panic!("unexpected {:?}", other),
    }
    match parse_async_line("7+download\n") {
        Some(AsyncRecord::Status(m)) => {
            assert_eq!(m.class, AsyncClass::Other);
            assert_eq!(m.token, Some("7".to_string()));
            assert!(m.content.is_empty());
        }
        other => panic!("unexpected {:?}", other),
    }
    assert!(matches!(parse_line("*running,thread-id=\"all\"\n"), Ok(Record::Async(AsyncRecord::Exec(_)))));
    assert_eq!(parse_async_line("^done\n"), None);
    assert_eq!(parse_async_line("*\n"), None);
}

#[test]
fn stream_records_by_sigil() {
    assert_eq!(parse_stream_line("~\"abc\"\n"), Some(StreamRecord::Console("abc".to_string())));
    assert_eq!(parse_stream_line("@\"out\"\n"), Some(StreamRecord::Target("out".to_string())));
    assert_eq!(parse_stream_line("&\"log\"\n"), Some(StreamRecord::Log("log".to_string())));
    assert_eq!(parse_stream_line("~\"\"\n"), Some(StreamRecord::Console(String::new())));
    assert_eq!(
        parse_stream_line("~\"say \\\"hi\\\"\\n\"\n"),
        Some(StreamRecord::Console("say \\\"hi\\\"\\n".to_string()))
    );
    assert_eq!(parse_stream_line("~\"end\\\\\"\n"), None);
    assert_eq!(
        parse_stream_line("~\"\\\\\"x\"\n"),
        Some(StreamRecord::Console("\\\\\"x".to_string()))
    );
    assert_eq!(
        parse_stream_line("~\"a\\b\"\n"),
        Some(StreamRecord::Console("a\\b".to_string()))
    );
    match parse_line("~\"GNU gdb\"\n") {
        Ok(r) => assert_eq!(r, Record::Stream(StreamRecord::Console("GNU gdb".to_string()))),
        Err(e) => panic!("unexpected {:?}", e),
    }
}

#[test]
fn unterminated_constant_fails() {
    assert_eq!(parse_stream_line("~\"abc\n"), None);
    assert!(matches!(parse_line("~\"abc\n"), Err(Error::ParseError)));
    assert_eq!(parse_stream_line("~\"abc\\\"\n"), None);
}

#[test]
fn stream_needs_exactly_a_newline_after_the_constant() {
    assert_eq!(parse_stream_line("~\"abc\"x\n"), None);
    assert_eq!(parse_stream_line("~\"abc\""), None);
    assert_eq!(parse_stream_line("~\"abc\"\n\n"), None);
    assert_eq!(parse_stream_line("1~\"abc\"\n"), None);
}

#[test]
fn unknown_lines_fail() {
    assert!(matches!(parse_line("!x\n"), Err(Error::ParseError)));
    assert!(matches!(parse_line("\n"), Err(Error::ParseError)));
    assert!(matches!(parse_line(""), Err(Error::ParseError)));
    assert!(matches!(parse_line("(gdb) \n"), Err(Error::ParseError)));
}

#[test]
fn non_ascii_text_is_kept() {
    assert_eq!(parse_stream_line("~\"héllo ✓\"\n"), Some(StreamRecord::Console("héllo ✓".to_string())));
    let m: MessageRecord<ResultClass> = parse_result_line("^done,x=\"ü\"\n").unwrap();
    assert_eq!(m.content, vec![var("x", text("ü"))]);
}

#[test]
fn class_names() {
    assert_eq!(ResultClass::from_name("done"), Some(ResultClass::Done));
    assert_eq!(ResultClass::from_name("running"), Some(ResultClass::Running));
    assert_eq!(ResultClass::from_name("connected"), Some(ResultClass::Connected));
    assert_eq!(ResultClass::from_name("error"), Some(ResultClass::Error));
    assert_eq!(ResultClass::from_name("exit"), Some(ResultClass::Exit));
    assert_eq!(ResultClass::from_name("Done"), None);
    assert_eq!(ResultClass::from_name("don"), None);
    assert_eq!(AsyncClass::from_name("stopped"), AsyncClass::Stopped);
    assert_eq!(AsyncClass::from_name("running"), AsyncClass::Other);
    assert_eq!("exit".parse::<ResultClass>(), Ok(ResultClass::Exit));
    assert_eq!("bogus".parse::<ResultClass>(), Err("unrecognized result class".to_string()));
    assert_eq!("stopped".parse::<AsyncClass>(), Ok(AsyncClass::Stopped));
    assert_eq!("library-loaded".parse::<AsyncClass>(), Ok(AsyncClass::Other));
}

#[test]
fn printed_records_read_back() {
    let m = parse_result_line("42^connected,a=\"x\",b={c=\"y\",d=[\"1\",{}]},e=[]\n").unwrap();
    assert_eq!(m.token, Some("42".to_string()));
    assert_eq!(m.class, ResultClass::Connected);
    assert_eq!(
        m.content,
        vec![
            var("a", text("x")),
            var(
                "b",
                Value::VariableList(vec![
                    var("c", text("y")),
                    var("d", Value::ValueList(vec![text("1"), Value::VariableList(vec![])])),
                ])
            ),
            var("e", Value::ValueList(vec![])),
        ]
    );
    let mixed = parse_result_line("^done,t=[a=\"1\",b={c=[d=\"2\"]}],u={}\n").unwrap();
    assert_eq!(
        mixed.content,
        vec![
            var(
                "t",
                Value::VariableList(vec![
                    var("a", text("1")),
                    var(
                        "b",
                        Value::VariableList(vec![var(
                            "c",
                            Value::VariableList(vec![var("d", text("2"))])
                        )])
                    ),
                ])
            ),
            var("u", Value::VariableList(vec![])),
        ]
    );
    match parse_line("3=breakpoint-modified,bkpt={number=\"2\"}\n") {
        Ok(Record::Async(AsyncRecord::Notify(m))) => {
            assert_eq!(m.token, Some("3".to_string()));
            assert_eq!(m.class, AsyncClass::Other);
            assert_eq!(m.content, vec![var("bkpt", Value::VariableList(vec![var("number", text("2"))]))]);
        }
        other => panic!("unexpected {:?}", other),
    }
}
