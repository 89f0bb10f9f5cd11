use vstd::prelude::*;
use crate::command::strings_view;
use crate::completion::Completion;
use crate::history::{History, MAX_ENTRIES};
use crate::suggestions::{builtin_entries, CommandSuggestion, SuggestionEngine};

verus! {

/// History, completion and suggestions for the command being typed.
pub struct CommandPalette {
    pub history: History,
    pub completion: Completion,
    pub suggestions: SuggestionEngine,
}

impl CommandPalette {
    /// A palette whose history lives in `history_file` and whose command
    /// names come from the directories `system_paths`.
    pub fn new(history_file: &str, system_paths: Vec<String>) -> (p: Self)
        ensures
            p.history@.file == history_file@,
            p.history@.entries.len() == 0,
            p.history@.max_entries == MAX_ENTRIES,
            p.history@.wf(),
            p.completion.paths() == strings_view(system_paths@),
            !p.completion.is_initialized(),
            p.suggestions@.builtin == builtin_entries(),
            p.suggestions@.custom.len() == 0,
            p.suggestions@.wf(),
    {
        CommandPalette {
            history: History::with_file(history_file),
            completion: Completion::new(system_paths),
            suggestions: SuggestionEngine::new(),
        }
    }

    /// Suggestions for the whole input line; none are offered yet.
    pub fn get_suggestions(&self, input: &str) -> (r: Vec<CommandSuggestion>)
        ensures
            r@.len() == 0,
    {
        Vec::new()
    }
}

} // verus!
