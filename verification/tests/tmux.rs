use huma::tmux::{failure, global_option, output, run, set_global_option, unset_global_option};

#[test]
fn command_arguments() {
    assert_eq!(global_option("prefix"), vec!["show-options", "-gqv", "prefix"]);
    assert_eq!(set_global_option("a", "b").args(), vec!["set-option", "-g", "a", "b"]);
    assert_eq!(unset_global_option("a").args(), vec!["set-option", "-gu", "a"]);
    assert_eq!(run(&["refresh-client", "-S"]).args(), vec!["refresh-client", "-S"]);
}

#[test]
fn output_drops_trailing_newlines() {
    assert_eq!(output(b"5\n\n"), "5");
    assert_eq!(output(b" a b \n"), " a b ");
    assert_eq!(output(b""), "");
}

#[test]
fn failure_names_command_and_error() {
    let args = vec!["source-file".to_string(), "/x.conf".to_string()];
    assert_eq!(
        failure(&args, b"  no such file\n"),
        "tmux source-file /x.conf failed: no such file"
    );
}
