use lynx::compose::types::StringOrList;
use lynx::env_file::{env_from_contents, merge_env, parse_env_content};

fn lookup<'a>(entries: &'a [String], key: &str) -> Option<&'a str> {
    entries.iter().find_map(|s| {
        let mut it = s.splitn(2, '=');
        let k = it.next()?;
        if k == key {
            Some(it.next().unwrap_or(""))
        } else {
            None
        }
    })
}

#[test]
fn env_file_as_string() {
    let sol = StringOrList::Single("file.env".to_string());
    let list = sol.to_list();
    assert_eq!(list, vec!["file.env"]);
}

#[test]
fn env_file_as_list() {
    let sol = StringOrList::List(vec!["a.env".to_string(), "b.env".to_string()]);
    let list = sol.to_list();
    assert_eq!(list.len(), 2);
}

#[test]
fn string_or_list_single() {
    let sol = StringOrList::Single("file.env".to_string());
    assert_eq!(sol.to_list(), vec!["file.env".to_string()]);
}

#[test]
fn string_or_list_many() {
    let sol = StringOrList::List(vec!["a.env".to_string(), "b.env".to_string()]);
    assert_eq!(sol.to_list(), vec!["a.env".to_string(), "b.env".to_string()]);
}

#[test]
fn service_env_overrides_env_file() {
    let service_env = vec![("KEY".to_string(), Some("from-service".to_string()))];
    let env_file_vars = vec![
        ("KEY".to_string(), "from-file".to_string()),
        ("EXTRA".to_string(), "extra".to_string()),
    ];
    let merged = merge_env(service_env, env_file_vars);
    assert_eq!(lookup(&merged, "KEY"), Some("from-service"));
    assert_eq!(lookup(&merged, "EXTRA"), Some("extra"));
}

#[test]
fn merge_env_keeps_bare_keys() {
    let service_env = vec![("DEBUG".to_string(), None)];
    let merged = merge_env(service_env, vec![("DEBUG".to_string(), "1".to_string())]);
    assert_eq!(merged, vec!["DEBUG".to_string()]);
}

#[test]
fn env_content_lines_become_pairs() {
    let pairs = parse_env_content("# comment\n\nDB_HOST=localhost\nPORT=5432\nNOVALUE\n  =skipped\n");
    assert_eq!(
        pairs,
        vec![
            ("DB_HOST".to_string(), "localhost".to_string()),
            ("PORT".to_string(), "5432".to_string()),
            ("NOVALUE".to_string(), String::new()),
        ]
    );
}

#[test]
fn first_env_file_wins() {
    let contents = vec!["A=1\nB=2\n".to_string(), "A=9\nC=3\n".to_string()];
    let merged = env_from_contents(&contents);
    assert_eq!(
        merged,
        vec![
            ("A".to_string(), "1".to_string()),
            ("B".to_string(), "2".to_string()),
            ("C".to_string(), "3".to_string()),
        ]
    );
}
