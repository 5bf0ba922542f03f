use streamguard_gateway::cli::{resolve_config_path, usage, CommandLineError, Request};

fn resolved(args: &[&str], fallback: Option<&str>) -> Result<Request, CommandLineError> {
    let mut all = vec!["streamguard-gateway-v2".to_string()];
    all.extend(args.iter().map(|arg| arg.to_string()));
    resolve_config_path(&all, fallback.map(|path| path.to_string()))
}

fn path(result: Result<Request, CommandLineError>) -> String {
    match result {
        Ok(Request::Run(path)) => path,
        _ => panic!("no configuration was resolved"),
    }
}

#[test]
fn the_command_line_wins_over_the_environment() {
    assert_eq!(path(resolved(&["--config", "/a"], Some("/b"))), "/a");
    assert_eq!(path(resolved(&[], Some("/b"))), "/b");
    assert!(matches!(resolved(&[], None), Err(CommandLineError::NoConfig)));
    assert!(matches!(resolve_config_path(&vec![], None), Err(CommandLineError::NoConfig)));
}

#[test]
fn wrong_command_lines_are_named() {
    assert!(matches!(resolved(&["--config"], None), Err(CommandLineError::MissingValue)));
    assert!(matches!(resolved(&["--config", ""], None), Err(CommandLineError::Empty)));
    assert!(matches!(
        resolved(&["--config", "/a", "--config", "/b"], None),
        Err(CommandLineError::Duplicate)
    ));
    match resolved(&["--verbose"], Some("/b")) {
        Err(CommandLineError::Unknown(argument)) => assert_eq!(argument, "--verbose"),
        _ => panic!("an unknown argument is refused"),
    }
}

#[test]
fn help_comes_in_order() {
    assert!(matches!(resolved(&["-h"], None), Ok(Request::Help)));
    assert!(matches!(resolved(&["--config", "/a", "--help"], None), Ok(Request::Help)));
    assert!(matches!(
        resolved(&["--bogus", "--help"], None),
        Err(CommandLineError::Unknown(_))
    ));
    assert!(usage().starts_with("streamguard-gateway-v2"));
    assert!(usage().contains("STREAMGUARD_V2_CONFIG"));
}
