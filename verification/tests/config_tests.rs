use grep_tool::Parser;

#[test]
fn build_without_query_is_an_argument_error() {
    let args = vec![String::from("prog")];
    match Parser::build(args, false) {
        Err(m) => assert_eq!(m, "Error: Query not provided"),
        Ok(_) => panic!("expected an argument error"),
    }
}

#[test]
fn build_without_source_is_an_argument_error() {
    let args = vec![String::from("prog"), String::from("needle")];
    match Parser::build(args, false) {
        Err(m) => assert_eq!(m, "Error: Source not provided"),
        Ok(_) => panic!("expected an argument error"),
    }
}

#[test]
fn build_with_both_arguments_succeeds() {
    let args = vec![
        String::from("prog"),
        String::from("needle"),
        String::from("notes.txt"),
    ];
    match Parser::build(args, true) {
        Ok(parser) => {
            assert_eq!(parser.query, "needle");
            assert_eq!(parser.source, "notes.txt");
            assert!(parser.ignore_case);
        }
        Err(_) => panic!("expected a configuration"),
    }
}

#[test]
fn build_ignores_extra_arguments() {
    let args = vec![
        String::from("prog"),
        String::from("needle"),
        String::from("notes.txt"),
        String::from("extra"),
    ];
    match Parser::build(args, false) {
        Ok(parser) => {
            assert_eq!(parser.query, "needle");
            assert_eq!(parser.source, "notes.txt");
            assert!(!parser.ignore_case);
        }
        Err(_) => panic!("expected a configuration"),
    }
}
