use void_term::block::{Block, BlockManager};
use void_term::command::Command;
use void_term::commands::CommandPalette;
use void_term::completion::{completion_target, split_words, CommandCompletion, Completion, CompletionTarget};
use void_term::history::{matches_folded, text_contains, History, HistoryEntry, MAX_ENTRIES};

fn entry(c: &str) -> HistoryEntry {
    HistoryEntry::new(c, 100, "/tmp")
}

#[test]
fn history_add_skips_blank_and_repeats() {
    let mut h = History::with_file("/tmp/h");
    assert!(h.add(entry("ls")));
    assert!(!h.add(entry("ls")));
    assert!(!h.add(entry("  \t")));
    assert!(!h.add(entry("")));
    assert!(h.add(entry("pwd")));
    assert!(h.add(entry("ls")));
    let cmds: Vec<&str> = h.entries().iter().map(|e| e.command.as_str()).collect();
    assert_eq!(cmds, vec!["ls", "pwd", "ls"]);
    assert_eq!(h.file(), "/tmp/h");
}

#[test]
fn history_keeps_newest() {
    let mut h = History::with_file("/tmp/h");
    for i in 0..(MAX_ENTRIES + 5) {
        h.add(entry(&format!("cmd{}", i)));
    }
    assert_eq!(h.entries().len(), MAX_ENTRIES);
    assert_eq!(h.entries()[0].command, "cmd5");
    assert_eq!(h.up().unwrap().command, format!("cmd{}", MAX_ENTRIES + 4));
}

#[test]
fn history_up_down() {
    let mut h = History::with_file("/tmp/h");
    assert!(h.up().is_none());
    assert!(h.down().is_none());
    h.add(entry("a"));
    h.add(entry("b"));
    assert_eq!(h.up().unwrap().command, "b");
    assert_eq!(h.up().unwrap().command, "a");
    assert!(h.up().is_none());
    assert_eq!(h.down().unwrap().command, "b");
    assert!(h.down().is_none());
    h.clear();
    assert!(h.entries().is_empty());
    assert!(h.up().is_none());
}

#[test]
fn history_search_ignores_case() {
    let mut h = History::with_file("/tmp/h");
    h.add(entry("Git Status"));
    h.add(entry("ls"));
    h.add(entry("git log"));
    let found: Vec<&str> = h.search("GIT").iter().map(|e| e.command.as_str()).collect();
    assert_eq!(found, vec!["Git Status", "git log"]);
    assert_eq!(h.search("").len(), 3);
    assert!(h.search("zz").is_empty());
    let mut h2 = History::with_file("/tmp/h2");
    h2.set_entries(vec![entry("x"), entry("y")]);
    assert_eq!(h2.up().unwrap().command, "y");
}

#[test]
fn contains_exact() {
    assert!(text_contains("hello", "ell"));
    assert!(text_contains("hello", ""));
    assert!(!text_contains("hel", "hello"));
    assert!(!text_contains("Hello", "hE"));
    assert!(matches_folded("he", "the"));
}

#[test]
fn entry_builders() {
    let e = entry("make").with_exit_code(2).with_duration(40);
    assert_eq!(e.exit_code, Some(2));
    assert_eq!(e.duration_ms, Some(40));
    assert_eq!(e.timestamp, 100);
    assert_eq!(e.working_dir, "/tmp");
}

#[test]
fn completion_filters() {
    let mut c = CommandCompletion::new();
    c.add_names(vec!["git".to_string(), "grep".to_string(), "ls".to_string()]);
    assert_eq!(c.get_completions("g"), vec!["git", "grep"]);
    assert!(c.get_completions("x").is_empty());
    let mut k = Completion::new(vec!["/bin".to_string()]);
    assert!(!k.cache_initialized());
    k.fill_cache(vec!["cat".to_string(), "cargo".to_string(), "ls".to_string()]);
    k.fill_cache(vec!["cab".to_string()]);
    assert!(k.cache_initialized());
    assert_eq!(k.complete_command("ca"), vec!["cat", "cargo"]);
    assert_eq!(k.system_paths(), &vec!["/bin".to_string()]);
}

#[test]
fn completion_targets() {
    assert_eq!(completion_target("  "), CompletionTarget::Nothing);
    assert_eq!(completion_target("gi"), CompletionTarget::Command("gi".to_string()));
    assert_eq!(completion_target("cat  src/ma"), CompletionTarget::Path("src/ma".to_string()));
    assert_eq!(split_words(" a\tb  c "), vec!["a", "b", "c"]);
}

#[test]
fn blocks_in_order() {
    let mut m = BlockManager::new(7u8);
    assert!(m.get_current_block().is_none());
    m.add_block(Block::new(0, Command::new("ls", "/"), 1));
    m.add_block(Block::new(1, Command::new("pwd", "/"), 2));
    assert_eq!(m.get_block(0).unwrap().command.raw, "ls");
    assert_eq!(m.get_current_block().unwrap().created_at, 2);
    assert!(m.get_block(2).is_none());
    assert_eq!(*m.shared_state(), 7);
    let b = m.get_block(1).unwrap();
    assert!(!b.is_pinned && !b.is_folded && b.exit_code.is_none());
}

#[test]
fn palette_starts_empty() {
    let p = CommandPalette::new("/tmp/hist", vec!["/usr/bin".to_string()]);
    assert!(p.history.entries().is_empty());
    assert!(p.get_suggestions("l").is_empty());
    assert_eq!(p.suggestions.get_all_suggestions().len(), 12);
    let mut s = p.suggestions.clone();
    assert!(s.get_ai_suggestions("x").is_empty());
    s.set_ai_suggestions(true);
    assert_eq!(s.get_ai_suggestions("x")[0].command, "ai_suggestion");
}
