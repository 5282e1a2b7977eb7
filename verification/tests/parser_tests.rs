use suricatasc::commands::{ArgSpec, ArgType, Commands};
use suricatasc::parser::{ArgValue, CommandParseError, CommandParser, ParsedRequest, tokenize};

fn parse(line: &str) -> Result<ParsedRequest, CommandParseError> {
    CommandParser::new().parse(line)
}

fn arg<'a>(req: &'a ParsedRequest, name: &str) -> Option<&'a ArgValue> {
    for (n, v) in req.arguments.iter() {
        if n == name {
            return Some(v);
        }
    }
    None
}

#[test]
fn test_parser() {
    let parser = CommandParser::new();
    let _command = parser.parse("iface-list").unwrap();
}

#[test]
fn iface_stat_with_interface() {
    let req = parse("iface-stat eth0").unwrap();
    assert_eq!(req.command, "iface-stat");
    assert_eq!(req.arguments.len(), 1);
    assert_eq!(req.arguments[0].0, "iface");
    match &req.arguments[0].1 {
        ArgValue::Str(s) => assert_eq!(s, "eth0"),
        other => panic!("expected a string argument, got {:?}", other),
    }
}

#[test]
fn iface_stat_missing_required_argument() {
    match parse("iface-stat") {
        Err(CommandParseError::MissingArguments(n)) => assert_eq!(n, 1),
        other => panic!("expected a missing-arguments error, got {:?}", other),
    }
}

#[test]
fn missing_arguments_reports_total_required_count() {
    match parse("pcap-file f.pcap") {
        Err(CommandParseError::MissingArguments(n)) => assert_eq!(n, 2),
        other => panic!("expected a missing-arguments error, got {:?}", other),
    }
}

#[test]
fn extra_tokens_are_ignored() {
    let req = parse("memcap-set stream.memcap 64mb extra-token").unwrap();
    assert_eq!(req.command, "memcap-set");
    assert_eq!(req.arguments.len(), 2);
    match arg(&req, "config").unwrap() {
        ArgValue::Str(s) => assert_eq!(s, "stream.memcap"),
        other => panic!("unexpected value {:?}", other),
    }
    match arg(&req, "memcap").unwrap() {
        ArgValue::Str(s) => assert_eq!(s, "64mb"),
        other => panic!("unexpected value {:?}", other),
    }
    assert!(arg(&req, "extra-token").is_none());
}

#[test]
fn boolean_tokens_are_coerced() {
    let req = parse("pcap-file-continuous f.pcap /out true").unwrap();
    match arg(&req, "continuous").unwrap() {
        ArgValue::Bool(b) => assert!(*b),
        other => panic!("expected a boolean, got {:?}", other),
    }
    let req = parse("pcap-file-continuous f.pcap /out 0").unwrap();
    match arg(&req, "continuous").unwrap() {
        ArgValue::Bool(b) => assert!(!*b),
        other => panic!("expected a boolean, got {:?}", other),
    }
}

#[test]
fn bad_boolean_token_is_rejected() {
    match parse("pcap-file-continuous f.pcap /out yes") {
        Err(CommandParseError::InvalidArgument(t)) => assert_eq!(t, "yes"),
        other => panic!("expected an invalid-argument error, got {:?}", other),
    }
}

#[test]
fn number_tokens_are_validated() {
    let req = parse("pcap-file f.pcap /out 5").unwrap();
    match arg(&req, "tenant").unwrap() {
        ArgValue::Num(t) => assert_eq!(t, "5"),
        other => panic!("expected a number, got {:?}", other),
    }
    match parse("pcap-file f.pcap /out five") {
        Err(CommandParseError::InvalidArgument(t)) => assert_eq!(t, "five"),
        other => panic!("expected an invalid-argument error, got {:?}", other),
    }
}

#[test]
fn unknown_command_is_rejected() {
    match parse("definitely-not-a-command x y") {
        Err(CommandParseError::UnknownCommand(c)) => {
            assert_eq!(c, "definitely-not-a-command");
        },
        other => panic!("expected an unknown-command error, got {:?}", other),
    }
}

#[test]
fn empty_lines_are_rejected() {
    assert!(matches!(parse(""), Err(CommandParseError::Empty)));
    assert!(matches!(parse("   \t "), Err(CommandParseError::Empty)));
}

#[test]
fn optional_arguments_are_absent_not_false() {
    let req = parse("pcap-file f.pcap /out").unwrap();
    assert_eq!(req.arguments.len(), 2);
    assert!(arg(&req, "tenant").is_none());
    assert!(arg(&req, "continuous").is_none());
    assert!(arg(&req, "delete-when-done").is_none());
}

#[test]
fn tokenize_splits_on_whitespace_runs() {
    let toks = tokenize("a  b\tc ");
    let toks: Vec<&str> = toks.iter().map(|t| t.as_str()).collect();
    assert_eq!(toks, vec!["a", "b", "c"]);
    assert!(tokenize("").is_empty());
}

#[test]
fn registered_arity_matches_lookup() {
    let commands = Commands::new();
    let pcap = commands.lookup("pcap-file").unwrap();
    assert_eq!(pcap.len(), 5);
    assert_eq!(pcap.iter().filter(|a| a.required).count(), 2);
    let stat = commands.lookup("iface-stat").unwrap();
    assert_eq!(stat.len(), 1);
    assert!(stat[0].required);
    assert!(commands.lookup("uptime").unwrap().is_empty());
    assert!(commands.lookup("nonsense").is_none());
}

#[test]
fn register_replaces_previous_registration() {
    let mut commands = Commands::new();
    commands.register_command(
        "iface-stat",
        vec![
            ArgSpec::new("iface", true, ArgType::String),
            ArgSpec::new("detail", false, ArgType::Boolean),
        ],
    );
    let spec = commands.lookup("iface-stat").unwrap();
    assert_eq!(spec.len(), 2);
    assert_eq!(spec.iter().filter(|a| a.required).count(), 1);
}

#[test]
fn parse_error_messages() {
    assert_eq!(CommandParseError::Empty.message(), "No command provided");
    assert_eq!(
        CommandParseError::UnknownCommand("nope".to_string()).message(),
        "Unknown command nope"
    );
    assert_eq!(
        CommandParseError::MissingArguments(12).message(),
        "Missing arguments: expected at least 12"
    );
    assert_eq!(
        CommandParseError::InvalidArgument("yes".to_string()).message(),
        "Bad argument: yes"
    );
}

#[test]
fn completions_offer_commands() {
    let commands = Commands::new();
    let all = commands.completions("");
    assert_eq!(all.len(), 16);
    assert!(all.iter().any(|c| c == "uptime"));
    let ifaces = commands.completions("iface");
    let ifaces: Vec<&str> = ifaces.iter().map(|c| c.as_str()).collect();
    assert_eq!(ifaces, vec!["iface-list", "iface-stat"]);
    assert!(commands.completions("iface-stat e").is_empty());
    assert!(commands.completions("zzz").is_empty());
}
