use lynx::dashboard::cli::{
    contains_exec, generate_random_password, log_containers, logs_args, password_from_draws,
    shows_log_line, PASSWORD_CHARSET, PASSWORD_LEN,
};

fn chars(s: &str) -> Vec<char> {
    s.chars().collect()
}

#[test]
fn logs_arguments() {
    assert_eq!(logs_args(false, None, "lynx-dashboard-backend"), vec!["logs", "--tail=100", "lynx-dashboard-backend"]);
    assert_eq!(
        logs_args(true, Some("1h"), "lynx-dashboard-frontend"),
        vec!["logs", "--follow", "--since=1h", "lynx-dashboard-frontend"]
    );
    assert_eq!(log_containers(), vec!["lynx-dashboard-backend", "lynx-dashboard-frontend"]);
}

#[test]
fn substring_search() {
    assert!(contains_exec(&chars("an error here"), &chars("error")));
    assert!(contains_exec(&chars("abc"), &chars("")));
    assert!(contains_exec(&chars(""), &chars("")));
    assert!(!contains_exec(&chars("err"), &chars("error")));
    assert!(contains_exec(&chars("xfatal"), &chars("fatal")));
}

#[test]
fn error_filter() {
    assert!(shows_log_line("INFO started", false));
    assert!(!shows_log_line("INFO started", true));
    assert!(shows_log_line("2024 ERROR: boom", true));
    assert!(shows_log_line("Critical failure", true));
    assert!(shows_log_line("FATAL", true));
    assert!(!shows_log_line("warn: slow", true));
}

#[test]
fn password_draws() {
    let cs = chars("abc");
    assert_eq!(password_from_draws(&cs, &[2, 0, 1, 1]), "cabb");
    assert_eq!(password_from_draws(&cs, &[]), "");
}

#[test]
fn random_password_shape() {
    let p = generate_random_password();
    assert_eq!(p.chars().count(), PASSWORD_LEN);
    assert!(p.chars().all(|c| PASSWORD_CHARSET.contains(c)));
    let q = generate_random_password();
    assert_eq!(q.chars().count(), 24);
}
