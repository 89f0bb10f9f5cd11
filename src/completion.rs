use vstd::prelude::*;
use vstd::string::*;
use crate::command::strings_view;
use crate::history::is_space;
use crate::text::{push_char, starts_with, starts_with_exec};

verus! {

/// The texts of `v` that start with `p`, in order.
pub open spec fn with_prefix(v: Seq<Seq<char>>, p: Seq<char>) -> Seq<Seq<char>>
    decreases v.len(),
{
    if v.len() == 0 {
        seq![]
    } else {
        let rest = with_prefix(v.drop_last(), p);
        if starts_with(v.last(), p) {
            rest.push(v.last())
        } else {
            rest
        }
    }
}

fn filter_prefix(v: &Vec<String>, p: &str) -> (r: Vec<String>)
    ensures
        strings_view(r@) == with_prefix(strings_view(v@), p@),
{
    let mut out: Vec<String> = Vec::new();
    let mut i: usize = 0;
    let ghost sv = strings_view(v@);
    assert(sv.subrange(0, 0) =~= Seq::<Seq<char>>::empty());
    assert(strings_view(out@) =~= Seq::<Seq<char>>::empty());
    while i < v.len()
        invariant
            i <= v.len(),
            sv == strings_view(v@),
            strings_view(out@) == with_prefix(sv.subrange(0, i as int), p@),
        decreases v.len() - i,
    {
        let ghost pre = sv.subrange(0, i + 1);
        assert(pre.drop_last() =~= sv.subrange(0, i as int));
        let ghost before = strings_view(out@);
        if starts_with_exec(&v[i], p) {
            let s = v[i].clone();
            out.push(s);
            assert(strings_view(out@) =~= before.push(sv[i as int]));
        }
        i = i + 1;
    }
    assert(sv.subrange(0, i as int) =~= sv);
    out
}

/// The words of a text: the maximal runs of characters other than white space.
pub open spec fn words_state(s: Seq<char>) -> (Seq<Seq<char>>, Seq<char>)
    decreases s.len(),
{
    if s.len() == 0 {
        (seq![], seq![])
    } else {
        let (done, cur) = words_state(s.drop_last());
        let c = s.last();
        if is_space(c) {
            if cur.len() > 0 {
                (done.push(cur), seq![])
            } else {
                (done, cur)
            }
        } else {
            (done, cur.push(c))
        }
    }
}

pub open spec fn words(s: Seq<char>) -> Seq<Seq<char>> {
    let (done, cur) = words_state(s);
    if cur.len() > 0 {
        done.push(cur)
    } else {
        done
    }
}

/// The words of `s`.
pub fn split_words(s: &str) -> (r: Vec<String>)
    ensures
        strings_view(r@) == words(s@),
{
    let n = s.unicode_len();
    let mut done: Vec<String> = Vec::new();
    let mut cur = String::new();
    let mut i: usize = 0;
    assert(s@.subrange(0, 0) =~= Seq::<char>::empty());
    assert(strings_view(done@) =~= Seq::<Seq<char>>::empty());
    while i < n
        invariant
            n == s@.len(),
            i <= n,
            (strings_view(done@), cur@) == words_state(s@.subrange(0, i as int)),
        decreases n - i,
    {
        let c = s.get_char(i);
        let ghost pre = s@.subrange(0, i + 1);
        assert(pre.drop_last() =~= s@.subrange(0, i as int));
        if crate::history::char_is_space(c) {
            if cur.unicode_len() > 0 {
                let w = cur;
                done.push(w);
                cur = String::new();
                assert(strings_view(done@) =~= words_state(s@.subrange(0, i as int)).0.push(w@));
            }
        } else {
            push_char(&mut cur, c);
        }
        i = i + 1;
    }
    assert(s@.subrange(0, i as int) =~= s@);
    if cur.unicode_len() > 0 {
        let w = cur;
        done.push(w);
        assert(strings_view(done@) =~= words_state(s@).0.push(w@));
    }
    done
}

/// What the text before the cursor asks to complete.
#[derive(Debug, Clone, PartialEq, Eq)]
pub enum CompletionTarget {
    /// Nothing to complete.
    Nothing,
    /// The only word, as a command name.
    Command(String),
    /// The last of several words, as a path.
    Path(String),
}

/// No words: nothing; one word: a command; more: the last word as a path.
pub fn completion_target(before_cursor: &str) -> (t: CompletionTarget)
    ensures
        ({
            let w = words(before_cursor@);
            match t {
                CompletionTarget::Nothing => w.len() == 0,
                CompletionTarget::Command(c) => w.len() == 1 && c@ == w[0],
                CompletionTarget::Path(p) => w.len() > 1 && p@ == w.last(),
            }
        }),
{
    let mut w = split_words(before_cursor);
    let n = w.len();
    if n == 0 {
        CompletionTarget::Nothing
    } else if n == 1 {
        let c = w.pop().unwrap();
        CompletionTarget::Command(c)
    } else {
        let p = w.pop().unwrap();
        CompletionTarget::Path(p)
    }
}

/// Command names found on the search path, for completing a first word.
pub struct CommandCompletion {
    cache: Vec<String>,
    system_paths: Vec<String>,
}

impl CommandCompletion {
    /// No names and no directories yet.
    pub fn new() -> (c: Self)
        ensures
            c.names().len() == 0,
            c.paths().len() == 0,
    {
        CommandCompletion { cache: Vec::new(), system_paths: Vec::new() }
    }

    pub closed spec fn names(&self) -> Seq<Seq<char>> {
        strings_view(self.cache@)
    }

    pub closed spec fn paths(&self) -> Seq<Seq<char>> {
        strings_view(self.system_paths@)
    }

    /// Records the directories searched.
    pub fn set_system_paths(&mut self, paths: Vec<String>)
        ensures
            final(self).paths() == strings_view(paths@),
            final(self).names() == old(self).names(),
    {
        self.system_paths = paths;
    }

    pub fn system_paths(&self) -> (r: &Vec<String>)
        ensures
            strings_view(r@) == self.paths(),
    {
        &self.system_paths
    }

    /// Adds names found in a directory, after those known.
    pub fn add_names(&mut self, names: Vec<String>)
        ensures
            final(self).names() == old(self).names() + strings_view(names@),
            final(self).paths() == old(self).paths(),
    {
        let mut names = names;
        let ghost added = strings_view(names@);
        self.cache.append(&mut names);
        assert(strings_view(self.cache@) =~= strings_view(old(self).cache@) + added);
    }

    /// The known names that start with `prefix`, in the order found.
    pub fn get_completions(&self, prefix: &str) -> (r: Vec<String>)
        ensures
            strings_view(r@) == with_prefix(self.names(), prefix@),
    {
        filter_prefix(&self.cache, prefix)
    }
}

/// Completion of command names from the search path.
#[derive(Debug, Clone)]
pub struct Completion {
    system_paths: Vec<String>,
    command_cache: Vec<String>,
    cache_initialized: bool,
}

impl Completion {
    /// Completion over the directories `system_paths`, nothing scanned yet.
    pub fn new(system_paths: Vec<String>) -> (c: Self)
        ensures
            c.paths() == strings_view(system_paths@),
            c.names().len() == 0,
            !c.is_initialized(),
    {
        Completion { system_paths, command_cache: Vec::new(), cache_initialized: false }
    }

    pub closed spec fn names(&self) -> Seq<Seq<char>> {
        strings_view(self.command_cache@)
    }

    pub closed spec fn paths(&self) -> Seq<Seq<char>> {
        strings_view(self.system_paths@)
    }

    pub closed spec fn is_initialized(&self) -> bool {
        self.cache_initialized
    }

    pub fn system_paths(&self) -> (r: &Vec<String>)
        ensures
            strings_view(r@) == self.paths(),
    {
        &self.system_paths
    }

    pub fn cache_initialized(&self) -> (r: bool)
        ensures
            r == self.is_initialized(),
    {
        self.cache_initialized
    }

    /// Records the names found by scanning the directories; later calls
    /// change nothing.
    pub fn fill_cache(&mut self, names: Vec<String>)
        ensures
            final(self).is_initialized(),
            final(self).paths() == old(self).paths(),
            final(self).names() == if old(self).is_initialized() {
                old(self).names()
            } else {
                old(self).names() + strings_view(names@)
            },
    {
        if self.cache_initialized {
            return ;
        }
        let mut names = names;
        let ghost added = strings_view(names@);
        self.command_cache.append(&mut names);
        assert(strings_view(self.command_cache@) =~= strings_view(old(self).command_cache@)
            + added);
        self.cache_initialized = true;
    }

    /// The known command names that start with `partial`.
    pub fn complete_command(&self, partial: &str) -> (r: Vec<String>)
        ensures
            strings_view(r@) == with_prefix(self.names(), partial@),
    {
        filter_prefix(&self.command_cache, partial)
    }
}

} // verus!
