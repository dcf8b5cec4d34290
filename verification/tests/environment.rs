use contract_deployer::config::EnvConfig;
use contract_deployer::environment::{join_names, Environment, MissingVariables};
use contract_deployer::text::{chars_of, cleaned, has_text, split_words, trimmed};

fn env_of(pairs: &[(&str, &str)]) -> Environment {
    let mut env = Environment::new();
    for (k, v) in pairs {
        env.set(k.to_string(), v.to_string());
    }
    env
}

fn table(pairs: &[(&str, &str)]) -> Vec<(String, String)> {
    pairs.iter().map(|(k, v)| (k.to_string(), v.to_string())).collect()
}

#[test]
fn test_env_variable_expansion() {
    let mut env = Environment::new();
    env.set("API_KEY".to_string(), "test123".to_string());
    env.set("NETWORK".to_string(), "sepolia".to_string());

    let expanded = env.expand_variables("https://eth-${NETWORK}.g.alchemy.com/v2/${API_KEY}");
    assert_eq!(expanded, "https://eth-sepolia.g.alchemy.com/v2/test123");
}

#[test]
fn test_env_file_loading() {
    let mut env = Environment::new();
    env.load_env_text("TEST_KEY=test_value\n# Comment\nANOTHER_KEY=another_value");

    assert_eq!(env.get("TEST_KEY"), Some(&"test_value".to_string()));
    assert_eq!(env.get("ANOTHER_KEY"), Some(&"another_value".to_string()));
}

#[test]
fn test_validation() {
    let mut env = Environment::new();
    env.set("EXISTING_VAR".to_string(), "value".to_string());

    assert!(env.validate_required(&["EXISTING_VAR"]).is_ok());
    assert!(env.validate_required(&["MISSING_VAR"]).is_err());
    assert!(env
        .validate_required(&["EXISTING_VAR", "MISSING_VAR"])
        .is_err());
}

#[test]
fn expansion_replaces_each_placeholder() {
    let env = env_of(&[("A", "x"), ("B", "y")]);
    assert_eq!(env.expand_variables("${A}-${B}"), "x-y");
}

#[test]
fn expansion_of_missing_name_is_empty() {
    let env = Environment::new();
    assert_eq!(env.expand_variables("${MISSING}"), "");
    assert_eq!(env.expand_variables("a${MISSING}b"), "ab");
}

#[test]
fn expansion_without_placeholder_is_identity() {
    let env = Environment::new();
    assert_eq!(env.expand_variables("no-placeholder"), "no-placeholder");
    assert_eq!(env.expand_variables(""), "");
    assert_eq!(env.expand_variables("$A {B} $"), "$A {B} $");
}

#[test]
fn expansion_leaves_unclosed_placeholder() {
    let env = env_of(&[("A", "x"), ("UNCLOSED", "never")]);
    assert_eq!(env.expand_variables("${UNCLOSED"), "${UNCLOSED");
    assert_eq!(env.expand_variables("${A} and ${UNCLOSED"), "x and ${UNCLOSED");
}

#[test]
fn expansion_does_not_scan_values_again() {
    let env = env_of(&[("A", "${B}"), ("B", "deep"), ("LOOP", "${LOOP}")]);
    assert_eq!(env.expand_variables("${A}/${B}"), "${B}/deep");
    assert_eq!(env.expand_variables("${LOOP}"), "${LOOP}");
}

#[test]
fn expansion_takes_the_first_closing_brace() {
    let env = env_of(&[("A", "x"), ("${A", "odd")]);
    assert_eq!(env.expand_variables("${${A}}"), "odd}");
    assert_eq!(env.expand_variables("}${A}"), "}x");
    assert_eq!(env.expand_variables("${}"), "");
}

#[test]
fn expansion_handles_text_beyond_ascii() {
    let env = env_of(&[("NAME", "żółw")]);
    assert_eq!(env.expand_variables("é${NAME}ü"), "éżółwü");
}

#[test]
fn get_is_exact_and_case_sensitive() {
    let env = env_of(&[("Key", "1"), ("KEY", "2")]);
    assert_eq!(env.get("Key"), Some(&"1".to_string()));
    assert_eq!(env.get("KEY"), Some(&"2".to_string()));
    assert_eq!(env.get("key"), None);
    assert_eq!(env.get("${KEY}"), None);
}

#[test]
fn later_write_replaces_earlier() {
    let env = env_of(&[("A", "1"), ("B", "2"), ("A", "3")]);
    assert_eq!(env.get("A"), Some(&"3".to_string()));
    assert_eq!(env.get("B"), Some(&"2".to_string()));
    assert_eq!(
        env.get_vars(),
        &vec![("A".to_string(), "3".to_string()), ("B".to_string(), "2".to_string())]
    );
    assert_eq!(env.entries(), env.get_vars().clone());
    let mut replay = Environment::new();
    for (k, v) in env.get_vars() {
        replay.set(k.clone(), v.clone());
    }
    assert_eq!(replay.get("A"), Some(&"3".to_string()));
    let mut copy = Environment::new();
    for (k, v) in env.entries() {
        copy.set(k, v);
    }
    assert_eq!(copy.get("A"), Some(&"3".to_string()));
    assert_eq!(copy.get("B"), Some(&"2".to_string()));
}

#[test]
fn validation_names_exactly_the_missing() {
    let env = env_of(&[("A", "1")]);
    let err: MissingVariables = env.validate_required(&["A", "B"]).unwrap_err();
    assert_eq!(err.names, vec!["B".to_string()]);
    assert_eq!(err.message(), "Missing required environment variables: B");
}

#[test]
fn validation_lists_every_missing_name_in_order() {
    let env = env_of(&[("B", "1")]);
    let err = env.validate_required(&["C", "B", "A"]).unwrap_err();
    assert_eq!(err.names, vec!["C".to_string(), "A".to_string()]);
    assert_eq!(err.message(), "Missing required environment variables: C, A");
    assert!(env.validate_required(&[]).is_ok());
}

#[test]
fn join_names_separates_by_comma_and_space() {
    assert_eq!(join_names(&vec![]), "");
    assert_eq!(join_names(&vec!["a".to_string()]), "a");
    assert_eq!(
        join_names(&vec!["a".to_string(), "b".to_string(), "c".to_string()]),
        "a, b, c"
    );
}

#[test]
fn env_file_lines_are_trimmed_and_unquoted() {
    let mut env = Environment::new();
    env.load_env_text(
        "  # comment\n\n  A = \"quoted value\"  \r\nB='single'\nC=`tick`\n\"D\"=plain\nNOEQUALS\nE=a=b\nF=\n=orphan\n",
    );
    assert_eq!(env.get("A"), Some(&"quoted value".to_string()));
    assert_eq!(env.get("B"), Some(&"single".to_string()));
    assert_eq!(env.get("C"), Some(&"tick".to_string()));
    assert_eq!(env.get("D"), Some(&"plain".to_string()));
    assert_eq!(env.get("NOEQUALS"), None);
    assert_eq!(env.get("E"), Some(&"a=b".to_string()));
    assert_eq!(env.get("F"), Some(&"".to_string()));
    assert_eq!(env.get(""), Some(&"orphan".to_string()));
    assert_eq!(env.get("# comment"), None);
}

#[test]
fn env_file_later_line_wins() {
    let mut env = Environment::new();
    env.load_env_text("A=1\nA=2");
    assert_eq!(env.get("A"), Some(&"2".to_string()));
}

#[test]
fn layers_resolve_by_precedence() {
    let config = EnvConfig {
        vars: table(&[("INLINE", "inline"), ("BOTH_FI", "inline"), ("ALL", "inline")]),
        load_files: Some(vec![".env".to_string(), ".env.local".to_string(), "gone".to_string()]),
    };
    let files = vec![
        Some("FIRST=one\nBOTH_FILES=one\nBOTH_FI=file\nALL=file\n".to_string()),
        Some("BOTH_FILES=two\nSECOND=two\n".to_string()),
        None,
    ];
    let process = table(&[("ALL", "process"), ("PROC", "process")]);
    let mut env = Environment::new();
    env.set("BASE".to_string(), "base".to_string());
    env.load_from_config(&config, &files, &process);

    assert_eq!(env.get("BASE"), Some(&"base".to_string()));
    assert_eq!(env.get("FIRST"), Some(&"one".to_string()));
    assert_eq!(env.get("SECOND"), Some(&"two".to_string()));
    assert_eq!(env.get("BOTH_FILES"), Some(&"two".to_string()));
    assert_eq!(env.get("BOTH_FI"), Some(&"inline".to_string()));
    assert_eq!(env.get("INLINE"), Some(&"inline".to_string()));
    assert_eq!(env.get("ALL"), Some(&"process".to_string()));
    assert_eq!(env.get("PROC"), Some(&"process".to_string()));
    assert_eq!(env.get("NONE"), None);
}

#[test]
fn masking_hides_api_keys_only() {
    let env = env_of(&[("ALCHEMY_API_KEY", "secret"), ("MY_API_KEYS", "s2"), ("API", "open")]);
    let masked = env.masked();
    assert_eq!(masked.get("ALCHEMY_API_KEY"), Some(&"********".to_string()));
    assert_eq!(masked.get("MY_API_KEYS"), Some(&"********".to_string()));
    assert_eq!(masked.get("API"), Some(&"open".to_string()));
    assert_eq!(masked.get("OTHER"), None);
    assert_eq!(env.get("ALCHEMY_API_KEY"), Some(&"secret".to_string()));
}

#[test]
fn trimming_removes_both_ends_only() {
    assert_eq!(trimmed("  a b \t\n", None), "a b");
    assert_eq!(trimmed("\u{a0}\u{3000}x\u{2003}", None), "x");
    assert_eq!(trimmed("   ", None), "");
    assert_eq!(trimmed("", None), "");
    assert_eq!(trimmed("\"\"a\"b\"", Some('"')), "a\"b");
    assert_eq!(trimmed("xxx", Some('x')), "");
    assert_eq!(cleaned("  \"'`/opt/deploy`'\"  "), "/opt/deploy");
    assert_eq!(cleaned("' spaced '"), " spaced ");
    assert_eq!(cleaned("`'x'`"), "'x'");
}

#[test]
fn words_are_split_on_white_space() {
    assert_eq!(split_words("bun install"), vec!["bun".to_string(), "install".to_string()]);
    assert_eq!(
        split_words("  npm \t run\n build  "),
        vec!["npm".to_string(), "run".to_string(), "build".to_string()]
    );
    assert_eq!(split_words(""), Vec::<String>::new());
    assert_eq!(split_words(" \t "), Vec::<String>::new());
    assert_eq!(split_words("one"), vec!["one".to_string()]);
}

#[test]
fn text_search_finds_substrings() {
    assert!(has_text("ALCHEMY_API_KEY", "API_KEY"));
    assert!(has_text("API_KEY", "API_KEY"));
    assert!(has_text("anything", ""));
    assert!(!has_text("API_KE", "API_KEY"));
    assert!(!has_text("api_key", "API_KEY"));
    assert!(has_text("AAPI_KEAPI_KEY", "API_KEY"));
    assert_eq!(chars_of("héllo"), vec!['h', 'é', 'l', 'l', 'o']);
}
