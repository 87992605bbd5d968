use numng::util::{filesystem_safe, join_path, try_run_command, CommandOutput};
use numng::{get_base_directory, ConnectionPolicy, NumngError};

#[test]
fn filesystem_safe_keeps_the_allowed_characters() {
    let allowed = "ABCXYZ abcxyz 0189 _-.";
    assert_eq!(filesystem_safe(allowed.chars()), allowed);
}

#[test]
fn filesystem_safe_replaces_everything_else() {
    assert_eq!(filesystem_safe("a/b\\c:d".chars()), "a_b_c_d");
    assert_eq!(filesystem_safe("https://host/x?y=z&w".chars()), "https___host_x_y_z_w");
    assert_eq!(filesystem_safe("ä€\n\t".chars()), "____");
    assert_eq!(filesystem_safe("".chars()), "");
}

#[test]
fn filesystem_safe_output_is_always_in_the_allowed_class() {
    let inputs = ["../../etc/passwd", "feature/x y", "v1.2.3+build~1", "日本語", "a\0b"];
    for input in inputs {
        let out = filesystem_safe(input.chars());
        assert_eq!(out.chars().count(), input.chars().count());
        assert!(out
            .chars()
            .all(|c| c.is_ascii_alphanumeric() || c == '_' || c == '-' || c == '.' || c == ' '));
    }
}

#[test]
fn filesystem_safe_takes_what_is_left_of_the_characters() {
    let mut chars = "a/b/c".chars();
    chars.next();
    chars.next();
    assert_eq!(filesystem_safe(chars), "b_c");
}

#[test]
fn join_path_puts_a_slash_between() {
    assert_eq!(join_path("/base", "store/git"), "/base/store/git");
    assert_eq!(join_path("/base/", "store"), "/base/store");
    assert_eq!(join_path("", "store"), "store");
    assert_eq!(join_path("/base", ""), "/base/");
    assert_eq!(join_path("/", "x"), "/x");
}

#[test]
fn join_path_lets_an_absolute_path_stand() {
    assert_eq!(join_path("/base", "/etc/passwd"), "/etc/passwd");
    assert_eq!(join_path("", "/"), "/");
}

#[test]
fn base_directory_lies_below_the_home_directory() {
    assert_eq!(get_base_directory("/home/me"), "/home/me/.local/share/nushell/numng");
    assert_eq!(get_base_directory("/"), "/.local/share/nushell/numng");
}

#[test]
fn connection_policies_have_names() {
    assert_eq!(ConnectionPolicy::Offline.to_string(), "offline");
    assert_eq!(ConnectionPolicy::Download.to_string(), "download");
    assert_eq!(ConnectionPolicy::Update.to_string(), "update");
}

#[test]
fn a_command_that_succeeds_is_no_error() {
    let output = CommandOutput {
        success: true,
        code: Some(0),
        stdout: String::from("out"),
        stderr: String::new(),
    };
    assert_eq!(try_run_command("git status", Ok(output)), Ok(()));
}

#[test]
fn a_command_that_fails_carries_its_output() {
    let output = CommandOutput {
        success: false,
        code: Some(128),
        stdout: String::from("out"),
        stderr: String::from("fatal: not a git repository"),
    };
    assert_eq!(
        try_run_command("\"git\" \"status\"", Ok(output)),
        Err(NumngError::ExternalCommandExitcode {
            command: String::from("\"git\" \"status\""),
            stdout: String::from("out"),
            stderr: String::from("fatal: not a git repository"),
            exitcode: 128,
        })
    );
}

#[test]
fn a_command_killed_by_a_signal_has_exit_code_minus_one() {
    let output = CommandOutput {
        success: false,
        code: None,
        stdout: String::new(),
        stderr: String::new(),
    };
    assert_eq!(
        try_run_command("nu", Ok(output)),
        Err(NumngError::ExternalCommandExitcode {
            command: String::from("nu"),
            stdout: String::new(),
            stderr: String::new(),
            exitcode: -1,
        })
    );
}

#[test]
fn a_command_that_cannot_start_is_an_io_error() {
    assert_eq!(
        try_run_command("git", Err(String::from("No such file or directory (os error 2)"))),
        Err(NumngError::ExternalCommandIO(String::from(
            "No such file or directory (os error 2)"
        )))
    );
}
