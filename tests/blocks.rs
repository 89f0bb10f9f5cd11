use void_term::command::{tokenize, Command};
use void_term::navigation::BlockNavigation;
use void_term::output::Output;
use void_term::suggestions::{SuggestionEngine, SuggestionSource};

#[test]
fn test_tokenize() {
    let input = "echo hello world";
    let tokens = tokenize(input);
    assert_eq!(tokens, vec!["echo", "hello", "world"]);

    let input = "echo \"hello world\"";
    let tokens = tokenize(input);
    assert_eq!(tokens, vec!["echo", "hello world"]);

    let input = "echo 'hello world'";
    let tokens = tokenize(input);
    assert_eq!(tokens, vec!["echo", "hello world"]);

    let input = "echo \"hello\\\" world\"";
    let tokens = tokenize(input);
    assert_eq!(tokens, vec!["echo", "hello\" world"]);
}

#[test]
fn tokenize_edges() {
    assert!(tokenize("").is_empty());
    assert!(tokenize("  \t ").is_empty());
    assert_eq!(tokenize("a\\ b"), vec!["a b"]);
    assert_eq!(tokenize("\"it's\""), vec!["it's"]);
    assert_eq!(tokenize("x \"\" y"), vec!["x", "y"]);
    assert_eq!(tokenize("a\tb"), vec!["a", "b"]);
}

#[test]
fn command_words() {
    let c = Command::new("ls -la /tmp", "/home");
    assert_eq!(c.program(), Some("ls"));
    assert_eq!(c.args(), &["-la".to_string(), "/tmp".to_string()]);
    assert_eq!(c.working_dir, "/home");
    let c = c.with_env_var("A", "1").with_working_dir("/srv");
    assert_eq!(c.env_vars, vec![("A".to_string(), "1".to_string())]);
    assert_eq!(c.working_dir, "/srv");
    assert_eq!(c.to_string(), "ls -la /tmp");
    let e = Command::new("   ", "/");
    assert_eq!(e.program(), None);
    assert!(e.args().is_empty());
}

#[test]
fn test_navigation() {
    let mut nav = BlockNavigation::new();

    //Test setting current block
    nav.set_current_block(1);
    assert_eq!(nav.current_block_id(), Some(1));

    nav.set_current_block(2);
    assert_eq!(nav.current_block_id(), Some(2));

    nav.set_current_block(3);
    assert_eq!(nav.current_block_id(), Some(3));

    assert_eq!(nav.go_back(), Some(2));
    assert_eq!(nav.current_block_id(), Some(2));

    assert_eq!(nav.go_forward(), Some(3));
    assert_eq!(nav.current_block_id(), Some(3));

    nav.bookmark("test", 2);
    assert_eq!(nav.go_to_bookmark("test"), Some(2));
    assert_eq!(nav.current_block_id(), Some(2));
}

#[test]
fn navigation_edges() {
    let mut nav = BlockNavigation::new();
    assert_eq!(nav.go_back(), None);
    assert_eq!(nav.go_forward(), None);
    assert_eq!(nav.go_to_bookmark("none"), None);
    nav.set_current_block(4);
    nav.set_current_block(4);
    assert_eq!(nav.go_back(), None);
    nav.bookmark("a", 1);
    nav.bookmark("a", 7);
    assert_eq!(nav.get_bookmarks().len(), 1);
    assert_eq!(nav.go_to_bookmark("a"), Some(7));
    assert_eq!(nav.go_back(), Some(4));
}

#[test]
fn output_collects() {
    let mut output = Output::new();
    output.append_stdout(b"Hello, ");
    output.append_stdout(b"world");
    output.append_stderr(b"oops\xff");
    assert!(!output.success());
    output.set_status(2);
    assert!(!output.success());
    output.set_status(0);
    assert!(output.success());
    assert_eq!(output.stdout_string(), "Hello, world");
    assert_eq!(output.stderr_string(), "oops\u{FFFD}");
}

#[test]
fn test_suggestion_engine() {
    let mut engine = SuggestionEngine::new();

    //Test built-in suggestions
    let suggestions = engine.get_suggestions("l");
    assert!(suggestions.iter().any(|s| s.command == "ls"));

    // Test custom suggestions
    engine.add_custom_suggestions("lsvirtualenv", "List all virtualenvs");
    let suggestions = engine.get_suggestions("lsv");
    assert_eq!(suggestions.len(), 1);
    assert_eq!(suggestions[0].command, "lsvirtualenv");

    // Test removing custom suggestions
    assert!(engine.remove_custom_suggestions("lsvirtualenv"));
    let suggestions = engine.get_suggestions("lsv");
    assert_eq!(suggestions.len(), 0);
}

#[test]
fn suggestions_are_ordered() {
    let mut engine = SuggestionEngine::new();
    engine.add_custom_suggestions("cd", "mine");
    engine.add_custom_suggestions("cb", "first");
    engine.add_custom_suggestions("cb", "second");
    let s = engine.get_suggestions("c");
    let names: Vec<(&str, SuggestionSource)> =
        s.iter().map(|x| (x.command.as_str(), x.source)).collect();
    assert_eq!(
        names,
        vec![
            ("cat", SuggestionSource::Builtin),
            ("cb", SuggestionSource::Custom),
            ("cd", SuggestionSource::Builtin),
            ("cd", SuggestionSource::Custom),
            ("cp", SuggestionSource::Builtin),
        ]
    );
    assert_eq!(s[1].description, "second");
    assert_eq!(engine.get_all_suggestions().len(), 14);
    assert!(!engine.remove_custom_suggestions("zz"));
    engine.set_ai_suggestions(true);
}
