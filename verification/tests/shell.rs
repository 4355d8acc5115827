use ret::shell::quote_shell_argument;

#[test]
fn leaves_safe_arguments_unquoted() {
    assert_eq!(quote_shell_argument("/opt/conda/envs/r-prod"), "/opt/conda/envs/r-prod");
}

#[test]
fn quotes_spaces_and_single_quotes() {
    assert_eq!(
        quote_shell_argument("/opt/conda/envs/r prod's"),
        "'/opt/conda/envs/r prod'\"'\"'s'"
    );
}

#[test]
fn empty_argument_is_quoted() {
    assert_eq!(quote_shell_argument(""), "''");
}

#[test]
fn shell_special_arguments_are_single_quoted() {
    assert_eq!(quote_shell_argument("R project"), "'R project'");
    assert_eq!(quote_shell_argument("R user's"), "'R user'\"'\"'s'");
    assert_eq!(quote_shell_argument("$(printf expanded)"), "'$(printf expanded)'");
    assert_eq!(quote_shell_argument("`printf expanded`"), "'`printf expanded`'");
    assert_eq!(quote_shell_argument("a;b"), "'a;b'");
    assert_eq!(quote_shell_argument("line\nbreak"), "'line\nbreak'");
}
