use restaurant::cli::{parse_action, parse_cli_args, validate_address, Action, CLIError, DEFAULT_ADDRESS};

fn args(words: &[&str]) -> Vec<String> {
    words.iter().map(|w| w.to_string()).collect()
}

#[test]
fn addresses() {
    assert_eq!(validate_address("127.0.0.1:9898").unwrap(), "127.0.0.1:9898");
    assert_eq!(validate_address("my-host.local:1").unwrap(), "my-host.local:1");
    assert!(matches!(validate_address("localhost"), Err(CLIError::InvalidUrlFormat)));
    assert!(matches!(validate_address("host:123456"), Err(CLIError::InvalidUrlFormat)));
    assert!(matches!(validate_address("ho st:80"), Err(CLIError::InvalidUrlFormat)));
    assert!(matches!(validate_address(":80"), Err(CLIError::InvalidUrlFormat)));
}

#[test]
fn actions() {
    assert_eq!(parse_action("get".to_string()).unwrap(), Action::Get);
    assert_eq!(parse_action("INSERT".to_string()).unwrap(), Action::Insert);
    assert_eq!(parse_action("DeLeTe".to_string()).unwrap(), Action::Delete);
    assert!(matches!(parse_action("put".to_string()), Err(CLIError::InvalidParameter)));
    assert!(matches!(parse_action("gets".to_string()), Err(CLIError::InvalidParameter)));
}

#[test]
fn command_lines() {
    let o = parse_cli_args(args(&["client", "10.0.0.1:80", "insert", "3", "Pizza", "Soda"])).unwrap();
    assert_eq!(o.target, "10.0.0.1:80");
    assert_eq!(o.action, Action::Insert);
    assert_eq!(o.table, Some(3));
    assert_eq!(o.orders, args(&["Pizza", "Soda"]));

    let o = parse_cli_args(args(&["client", "get", "7"])).unwrap();
    assert_eq!(o.target, DEFAULT_ADDRESS);
    assert_eq!(o.action, Action::Get);
    assert_eq!(o.table, Some(7));
    assert!(o.orders.is_empty());

    let o = parse_cli_args(args(&["client", "delete"])).unwrap();
    assert_eq!(o.table, None);

    assert!(matches!(parse_cli_args(args(&["client"])), Err(CLIError::MissingParameter("target or action"))));
    assert!(matches!(parse_cli_args(args(&["client", "1.2.3.4:5"])), Err(CLIError::MissingParameter("action"))));
    assert!(matches!(parse_cli_args(args(&["client", "fetch", "1"])), Err(CLIError::InvalidParameter)));
    assert!(matches!(parse_cli_args(args(&["client", "get", "x"])), Err(CLIError::InvalidParameter)));
}

#[test]
fn cli_messages() {
    assert_eq!(CLIError::InvalidUrlFormat.message(), "Invalid target format. Should be <host>:<port>");
    assert_eq!(CLIError::MissingParameter("action").message(), "Missing parameter 'action'");
    assert_eq!(CLIError::InvalidParameter.message(), "Invalid parameter");
}
