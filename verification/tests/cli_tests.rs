use pmr::cli::{parse_entry, Cli, Commands, OutputFormat};

fn strings(items: &[&str]) -> Vec<String> {
    items.iter().map(|s| s.to_string()).collect()
}

#[test]
fn env_vars_split_at_the_first_equals_sign() {
    let env = Commands::parse_env_vars(strings(&["A=1", "B=x=y", "EMPTY=", "=v"]));
    assert_eq!(env.len(), 4);
    assert_eq!(env.get("A"), Some(&"1".to_string()));
    assert_eq!(env.get("B"), Some(&"x=y".to_string()));
    assert_eq!(env.get("EMPTY"), Some(&"".to_string()));
    assert_eq!(env.get(""), Some(&"v".to_string()));
    assert_eq!(env.get("C"), None);
}

#[test]
fn env_vars_without_equals_sign_are_passed_over() {
    let env = Commands::parse_env_vars(strings(&["NOVALUE", "K=v", ""]));
    assert_eq!(env.len(), 1);
    assert_eq!(env.get("K"), Some(&"v".to_string()));
    assert_eq!(env.get("NOVALUE"), None);
    assert!(Commands::parse_env_vars(Vec::new()).is_empty());
}

#[test]
fn env_vars_take_the_later_of_two_values() {
    let env = Commands::parse_env_vars(strings(&["K=first", "L=other", "K=second"]));
    assert_eq!(env.len(), 2);
    assert_eq!(env.get("K"), Some(&"second".to_string()));
    assert_eq!(
        env.entries(),
        &vec![
            ("K".to_string(), "second".to_string()),
            ("L".to_string(), "other".to_string())
        ]
    );
}

#[test]
fn entries_parse_like_split_once() {
    for text in ["a=b", "a=", "=b", "=", "a", "", "a=b=c", "ключ=значение"] {
        let expected = text.split_once('=').map(|(k, v)| (k.to_string(), v.to_string()));
        assert_eq!(parse_entry(text), expected, "entry {:?}", text);
    }
}

#[test]
fn output_format_defaults_to_text() {
    assert_eq!(OutputFormat::default(), OutputFormat::Text);
    let cli = Cli { format: OutputFormat::default(), command: Commands::Clear { all: true } };
    assert_eq!(cli.command, Commands::Clear { all: true });
}
