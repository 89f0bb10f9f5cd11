use vstd::prelude::*;
use vstd::string::*;
use crate::text::{starts_with, starts_with_exec};

verus! {

/// Where a suggestion comes from.
#[derive(Debug, Clone, Copy, PartialEq, Eq, Structural)]
pub enum SuggestionSource {
    History,
    AI,
    Custom,
    Builtin,
}

/// A command the user may want, with a description.
#[derive(Debug, Clone)]
pub struct CommandSuggestion {
    pub command: String,
    pub description: String,
    pub source: SuggestionSource,
}

pub struct SuggestionModel {
    pub command: Seq<char>,
    pub description: Seq<char>,
    pub source: SuggestionSource,
}

impl View for CommandSuggestion {
    type V = SuggestionModel;

    open spec fn view(&self) -> SuggestionModel {
        SuggestionModel {
            command: self.command@,
            description: self.description@,
            source: self.source,
        }
    }
}

pub open spec fn suggestions_view(v: Seq<CommandSuggestion>) -> Seq<SuggestionModel> {
    v.map_values(|s: CommandSuggestion| s@)
}

pub open spec fn entries_view(v: Seq<(String, String)>) -> Seq<(Seq<char>, Seq<char>)> {
    v.map_values(|p: (String, String)| (p.0@, p.1@))
}

pub open spec fn keys_distinct(v: Seq<(Seq<char>, Seq<char>)>) -> bool {
    forall|i: int, j: int| 0 <= i < j < v.len() ==> (#[trigger] v[i]).0 != (#[trigger] v[j]).0
}

/// Text order: character by character, a proper prefix first.
pub open spec fn text_le(a: Seq<char>, b: Seq<char>) -> bool
    decreases a.len(),
{
    if a.len() == 0 {
        true
    } else if b.len() == 0 {
        false
    } else if a[0] != b[0] {
        a[0] < b[0]
    } else {
        text_le(a.drop_first(), b.drop_first())
    }
}

pub proof fn lemma_text_le_total(a: Seq<char>, b: Seq<char>)
    ensures
        text_le(a, b) || text_le(b, a),
    decreases a.len(),
{
    if a.len() > 0 && b.len() > 0 {
        if a[0] == b[0] {
            lemma_text_le_total(a.drop_first(), b.drop_first());
        }
    }
}

pub proof fn lemma_text_le_trans(a: Seq<char>, b: Seq<char>, c: Seq<char>)
    requires
        text_le(a, b),
        text_le(b, c),
    ensures
        text_le(a, c),
    decreases a.len(),
{
    if a.len() > 0 && b.len() > 0 && c.len() > 0 && a[0] == b[0] && b[0] == c[0] {
        lemma_text_le_trans(a.drop_first(), b.drop_first(), c.drop_first());
    }
}

/// Ordered by command, equal commands in any order.
pub open spec fn sorted_by_command(s: Seq<SuggestionModel>) -> bool {
    forall|i: int, j: int| 0 <= i < j < s.len() ==> text_le(s[i].command, s[j].command)
}

/// The first position whose command sorts after `x`'s, or the length.
pub open spec fn insert_position(s: Seq<SuggestionModel>, x: SuggestionModel, i: nat) -> nat
    decreases s.len() - i,
{
    if i >= s.len() {
        s.len()
    } else if !text_le(s[i as int].command, x.command) {
        i
    } else {
        insert_position(s, x, i + 1)
    }
}

/// Stable ordering by command: each suggestion goes after every earlier one
/// whose command is not greater.
pub open spec fn sort_by_command(s: Seq<SuggestionModel>) -> Seq<SuggestionModel>
    decreases s.len(),
{
    if s.len() == 0 {
        s
    } else {
        let t = sort_by_command(s.drop_last());
        t.insert(insert_position(t, s.last(), 0) as int, s.last())
    }
}

/// The entries of `v` whose command starts with `partial`, as suggestions from `src`.
pub open spec fn matching(
    v: Seq<(Seq<char>, Seq<char>)>,
    partial: Seq<char>,
    src: SuggestionSource,
) -> Seq<SuggestionModel>
    decreases v.len(),
{
    if v.len() == 0 {
        seq![]
    } else {
        let rest = matching(v.drop_last(), partial, src);
        let e = v.last();
        if starts_with(e.0, partial) {
            rest.push(SuggestionModel { command: e.0, description: e.1, source: src })
        } else {
            rest
        }
    }
}

pub open spec fn builtin_entries() -> Seq<(Seq<char>, Seq<char>)> {
    seq![
        ("ls"@, "List directory contents"@),
        ("cd"@, "Change directory"@),
        ("pwd"@, "Print working directory"@),
        ("cp"@, "Copy files and directories"@),
        ("mv"@, "Move files and directories"@),
        ("rm"@, "Remove files or directories"@),
        ("mkdir"@, "Make directories"@),
        ("touch"@, "Change file timestamps"@),
        ("grep"@, "Print lines matching a pattern"@),
        ("find"@, "Search for files in a directory hierarchy"@),
        ("cat"@, "Concatenate files and print on the standard output"@),
        ("echo"@, "Display a line of text"@),
    ]
}

/// The entry for `command` in `v`, if there is one.
pub open spec fn entry_of(v: Seq<(Seq<char>, Seq<char>)>, command: Seq<char>) -> Option<Seq<char>> {
    if exists|i: int| 0 <= i < v.len() && (#[trigger] v[i]).0 == command {
        let i = choose|i: int| 0 <= i < v.len() && (#[trigger] v[i]).0 == command;
        Some(v[i].1)
    } else {
        None
    }
}

/// Suggests commands from a fixed built-in list and from the user's own ones.
#[derive(Debug, Clone)]
pub struct SuggestionEngine {
    builtin_suggestions: Vec<(String, String)>,
    custom_suggestions: Vec<(String, String)>,
    ai_suggestions_enabled: bool,
}

pub struct EngineModel {
    pub builtin: Seq<(Seq<char>, Seq<char>)>,
    pub custom: Seq<(Seq<char>, Seq<char>)>,
    pub ai_enabled: bool,
}

impl EngineModel {
    pub open spec fn wf(self) -> bool {
        keys_distinct(self.builtin) && keys_distinct(self.custom)
    }
}

impl View for SuggestionEngine {
    type V = EngineModel;

    closed spec fn view(&self) -> EngineModel {
        EngineModel {
            builtin: entries_view(self.builtin_suggestions@),
            custom: entries_view(self.custom_suggestions@),
            ai_enabled: self.ai_suggestions_enabled,
        }
    }
}

fn text_le_exec(a: &String, b: &String) -> (r: bool)
    ensures
        r == text_le(a@, b@),
{
    let n = a.as_str().unicode_len();
    let m = b.as_str().unicode_len();
    let mut i: usize = 0;
    assert(a@.subrange(0, n as int) =~= a@);
    assert(b@.subrange(0, m as int) =~= b@);
    while i < n && i < m
        invariant
            n == a@.len(),
            m == b@.len(),
            i <= n,
            i <= m,
            text_le(a@, b@) == text_le(a@.subrange(i as int, n as int), b@.subrange(i as int, m as int)),
        decreases n - i,
    {
        let x = a.as_str().get_char(i);
        let y = b.as_str().get_char(i);
        let ghost sa = a@.subrange(i as int, n as int);
        let ghost sb = b@.subrange(i as int, m as int);
        assert(sa[0] == x && sb[0] == y);
        if x != y {
            return x < y;
        }
        assert(sa.drop_first() =~= a@.subrange(i + 1, n as int));
        assert(sb.drop_first() =~= b@.subrange(i + 1, m as int));
        i = i + 1;
    }
    i == n
}

fn find_entry(v: &Vec<(String, String)>, key: &String) -> (r: Option<usize>)
    ensures
        match r {
            Some(i) => i < v@.len() && entries_view(v@)[i as int].0 == key@,
            None => forall|i: int|
                0 <= i < v@.len() ==> (#[trigger] entries_view(v@)[i]).0 != key@,
        },
{
    let mut i: usize = 0;
    while i < v.len()
        invariant
            i <= v.len(),
            forall|j: int| 0 <= j < i ==> (#[trigger] entries_view(v@)[j]).0 != key@,
        decreases v.len() - i,
    {
        if v[i].0 == *key {
            return Some(i);
        }
        i = i + 1;
    }
    None
}

fn add_matching(
    out: &mut Vec<CommandSuggestion>,
    v: &Vec<(String, String)>,
    partial: &str,
    src: SuggestionSource,
)
    ensures
        suggestions_view(final(out)@) == suggestions_view(old(out)@) + matching(
            entries_view(v@),
            partial@,
            src,
        ),
{
    let mut i: usize = 0;
    assert(entries_view(v@).subrange(0, 0) =~= Seq::<(Seq<char>, Seq<char>)>::empty());
    assert(suggestions_view(out@) =~= suggestions_view(old(out)@) + seq![]);
    while i < v.len()
        invariant
            i <= v.len(),
            suggestions_view(out@) == suggestions_view(old(out)@) + matching(
                entries_view(v@).subrange(0, i as int),
                partial@,
                src,
            ),
        decreases v.len() - i,
    {
        let ghost pre = entries_view(v@).subrange(0, i + 1);
        assert(pre.drop_last() =~= entries_view(v@).subrange(0, i as int));
        let ghost before = suggestions_view(out@);
        if starts_with_exec(&v[i].0, partial) {
            let s = CommandSuggestion {
                command: v[i].0.clone(),
                description: v[i].1.clone(),
                source: src,
            };
            out.push(s);
            assert(suggestions_view(out@) =~= before.push(s@));
        }
        i = i + 1;
    }
    assert(entries_view(v@).subrange(0, i as int) =~= entries_view(v@));
}

fn copy_suggestion(s: &CommandSuggestion) -> (r: CommandSuggestion)
    ensures
        r@ == s@,
{
    CommandSuggestion {
        command: s.command.clone(),
        description: s.description.clone(),
        source: s.source,
    }
}

/// `v` ordered stably by command.
fn sort_suggestions(v: Vec<CommandSuggestion>) -> (r: Vec<CommandSuggestion>)
    ensures
        suggestions_view(r@) == sort_by_command(suggestions_view(v@)),
{
    let mut out: Vec<CommandSuggestion> = Vec::new();
    let mut i: usize = 0;
    let ghost sv = suggestions_view(v@);
    assert(sv.subrange(0, 0) =~= Seq::<SuggestionModel>::empty());
    assert(suggestions_view(out@) =~= Seq::<SuggestionModel>::empty());
    while i < v.len()
        invariant
            i <= v.len(),
            sv == suggestions_view(v@),
            suggestions_view(out@) == sort_by_command(sv.subrange(0, i as int)),
        decreases v.len() - i,
    {
        let x = copy_suggestion(&v[i]);
        let ghost pre = sv.subrange(0, i + 1);
        assert(pre.drop_last() =~= sv.subrange(0, i as int));
        assert(pre.last() == x@);
        let ghost t = suggestions_view(out@);
        let mut p: usize = 0;
        while p < out.len() && text_le_exec(&out[p].command, &x.command)
            invariant
                p <= out.len(),
                t == suggestions_view(out@),
                insert_position(t, x@, 0) == insert_position(t, x@, p as nat),
            decreases out.len() - p,
        {
            p = p + 1;
        }
        out.insert(p, x);
        assert(suggestions_view(out@) =~= t.insert(p as int, x@));
        i = i + 1;
    }
    assert(sv.subrange(0, i as int) =~= sv);
    out
}

impl SuggestionEngine {
    /// The built-in commands, no custom ones, AI suggestions off.
    pub fn new() -> (e: Self)
        ensures
            e@.builtin == builtin_entries(),
            e@.custom.len() == 0,
            !e@.ai_enabled,
            e@.wf(),
    {
        let mut b: Vec<(String, String)> = Vec::new();
        b.push((String::from_str("ls"), String::from_str("List directory contents")));
        b.push((String::from_str("cd"), String::from_str("Change directory")));
        b.push((String::from_str("pwd"), String::from_str("Print working directory")));
        b.push((String::from_str("cp"), String::from_str("Copy files and directories")));
        b.push((String::from_str("mv"), String::from_str("Move files and directories")));
        b.push((String::from_str("rm"), String::from_str("Remove files or directories")));
        b.push((String::from_str("mkdir"), String::from_str("Make directories")));
        b.push((String::from_str("touch"), String::from_str("Change file timestamps")));
        b.push((String::from_str("grep"), String::from_str("Print lines matching a pattern")));
        b.push(
            (
                String::from_str("find"),
                String::from_str("Search for files in a directory hierarchy"),
            ),
        );
        b.push(
            (
                String::from_str("cat"),
                String::from_str("Concatenate files and print on the standard output"),
            ),
        );
        b.push((String::from_str("echo"), String::from_str("Display a line of text")));
        let e = SuggestionEngine {
            builtin_suggestions: b,
            custom_suggestions: Vec::new(),
            ai_suggestions_enabled: false,
        };
        proof {
            reveal_strlit("ls");
            reveal_strlit("cd");
            reveal_strlit("pwd");
            reveal_strlit("cp");
            reveal_strlit("mv");
            reveal_strlit("rm");
            reveal_strlit("mkdir");
            reveal_strlit("touch");
            reveal_strlit("grep");
            reveal_strlit("find");
            reveal_strlit("cat");
            reveal_strlit("echo");
            assert(e@.builtin =~= builtin_entries());
            let b = builtin_entries();
            assert forall|i: int, j: int| 0 <= i < j < b.len() implies (#[trigger] b[i]).0 != (
            #[trigger] b[j]).0 by {
                assert(b[i].0[0] != b[j].0[0] || b[i].0[1] != b[j].0[1]);
            }
            assert(e@.custom =~= Seq::<(Seq<char>, Seq<char>)>::empty());
        }
        e
    }

    pub fn set_ai_suggestions(&mut self, enabled: bool)
        ensures
            final(self)@ == (EngineModel { ai_enabled: enabled, ..old(self)@ }),
    {
        self.ai_suggestions_enabled = enabled;
    }

    /// Adds `command` with `description`, replacing its earlier description.
    pub fn add_custom_suggestions(&mut self, command: &str, description: &str)
        requires
            old(self)@.wf(),
        ensures
            final(self)@.wf(),
            final(self)@.builtin == old(self)@.builtin,
            final(self)@.ai_enabled == old(self)@.ai_enabled,
            entry_of(final(self)@.custom, command@) == Some(description@),
            forall|other: Seq<char>|
                other != command@ ==> entry_of(final(self)@.custom, other) == entry_of(
                    old(self)@.custom,
                    other,
                ),
    {
        let key = command.to_string();
        let ghost c0 = self@.custom;
        match find_entry(&self.custom_suggestions, &key) {
            Some(i) => {
                self.custom_suggestions.set(i, (key, description.to_string()));
                proof {
                    let c = self@.custom;
                    assert(c =~= c0.update(i as int, (command@, description@)));
                    lemma_entry_of_update(c0, i as int, command@, description@);
                }
            },
            None => {
                self.custom_suggestions.push((key, description.to_string()));
                proof {
                    let c = self@.custom;
                    assert(c =~= c0.push((command@, description@)));
                    lemma_entry_of_push(c0, command@, description@);
                }
            },
        }
    }

    /// Removes `command`; says whether it was there.
    pub fn remove_custom_suggestions(&mut self, command: &str) -> (r: bool)
        requires
            old(self)@.wf(),
        ensures
            final(self)@.wf(),
            r == (entry_of(old(self)@.custom, command@) is Some),
            final(self)@.builtin == old(self)@.builtin,
            final(self)@.ai_enabled == old(self)@.ai_enabled,
            entry_of(final(self)@.custom, command@) is None,
            forall|other: Seq<char>|
                other != command@ ==> entry_of(final(self)@.custom, other) == entry_of(
                    old(self)@.custom,
                    other,
                ),
    {
        let key = command.to_string();
        let ghost c0 = self@.custom;
        match find_entry(&self.custom_suggestions, &key) {
            Some(i) => {
                self.custom_suggestions.remove(i);
                proof {
                    let c = self@.custom;
                    assert(c =~= c0.remove(i as int));
                    lemma_entry_of_remove(c0, i as int, command@);
                }
                true
            },
            None => {
                proof {
                    assert(!exists|j: int| 0 <= j < c0.len() && (#[trigger] c0[j]).0 == command@);
                }
                false
            },
        }
    }

    /// The built-in and custom commands that start with `partial`, ordered
    /// by command (a built-in one first where both have it).
    pub fn get_suggestions(&self, partial: &str) -> (r: Vec<CommandSuggestion>)
        ensures
            sorted_by_command(suggestions_view(r@)),
            suggestions_view(r@) == sort_by_command(
                matching(self@.builtin, partial@, SuggestionSource::Builtin) + matching(
                    self@.custom,
                    partial@,
                    SuggestionSource::Custom,
                ),
            ),
    {
        let mut found: Vec<CommandSuggestion> = Vec::new();
        add_matching(&mut found, &self.builtin_suggestions, partial, SuggestionSource::Builtin);
        add_matching(&mut found, &self.custom_suggestions, partial, SuggestionSource::Custom);
        assert(suggestions_view(found@) =~= matching(
            self@.builtin,
            partial@,
            SuggestionSource::Builtin,
        ) + matching(self@.custom, partial@, SuggestionSource::Custom));
        let r = sort_suggestions(found);
        proof {
            lemma_sort_by_command_sorted(suggestions_view(found@));
        }
        r
    }

    /// Suggestions from an assistant for `context`: none while they are off,
    /// else the one placeholder suggestion.
    pub fn get_ai_suggestions(&self, context: &str) -> (r: Vec<CommandSuggestion>)
        ensures
            !self@.ai_enabled ==> r@.len() == 0,
            self@.ai_enabled ==> r@.len() == 1 && r@[0].source == SuggestionSource::AI
                && r@[0].command@ == "ai_suggestion"@,
    {
        let mut r: Vec<CommandSuggestion> = Vec::new();
        if self.ai_suggestions_enabled {
            r.push(
                CommandSuggestion {
                    command: String::from_str("ai_suggestion"),
                    description: String::from_str("AI suggested command based on context"),
                    source: SuggestionSource::AI,
                },
            );
        }
        r
    }

    /// Every built-in and custom command, ordered by command.
    pub fn get_all_suggestions(&self) -> (r: Vec<CommandSuggestion>)
        ensures
            suggestions_view(r@) == sort_by_command(
                matching(self@.builtin, seq![], SuggestionSource::Builtin) + matching(
                    self@.custom,
                    seq![],
                    SuggestionSource::Custom,
                ),
            ),
    {
        let empty = "";
        proof {
            reveal_strlit("");
        }
        assert(empty@ =~= Seq::<char>::empty());
        self.get_suggestions(empty)
    }
}

proof fn lemma_entry_of_update(
    c0: Seq<(Seq<char>, Seq<char>)>,
    i: int,
    key: Seq<char>,
    value: Seq<char>,
)
    requires
        keys_distinct(c0),
        0 <= i < c0.len(),
        c0[i].0 == key,
    ensures
        keys_distinct(c0.update(i, (key, value))),
        entry_of(c0.update(i, (key, value)), key) == Some(value),
        forall|other: Seq<char>|
            other != key ==> entry_of(c0.update(i, (key, value)), other) == entry_of(c0, other),
{
    let c = c0.update(i, (key, value));
    assert(c[i].0 == key);
    let j = choose|j: int| 0 <= j < c.len() && (#[trigger] c[j]).0 == key;
    assert(j == i);
    assert forall|other: Seq<char>| other != key implies entry_of(c, other) == entry_of(
        c0,
        other,
    ) by {
        if exists|j: int| 0 <= j < c.len() && (#[trigger] c[j]).0 == other {
            let j = choose|j: int| 0 <= j < c.len() && (#[trigger] c[j]).0 == other;
            assert(c0[j].0 == other);
        }
        if exists|j: int| 0 <= j < c0.len() && (#[trigger] c0[j]).0 == other {
            let j = choose|j: int| 0 <= j < c0.len() && (#[trigger] c0[j]).0 == other;
            assert(c[j].0 == other);
        }
    }
}

proof fn lemma_entry_of_push(c0: Seq<(Seq<char>, Seq<char>)>, key: Seq<char>, value: Seq<char>)
    requires
        keys_distinct(c0),
        forall|i: int| 0 <= i < c0.len() ==> (#[trigger] c0[i]).0 != key,
    ensures
        keys_distinct(c0.push((key, value))),
        entry_of(c0.push((key, value)), key) == Some(value),
        forall|other: Seq<char>|
            other != key ==> entry_of(c0.push((key, value)), other) == entry_of(c0, other),
{
    let c = c0.push((key, value));
    assert(c[c0.len() as int].0 == key);
    let j = choose|j: int| 0 <= j < c.len() && (#[trigger] c[j]).0 == key;
    assert(j == c0.len());
    assert forall|other: Seq<char>| other != key implies entry_of(c, other) == entry_of(
        c0,
        other,
    ) by {
        if exists|j: int| 0 <= j < c.len() && (#[trigger] c[j]).0 == other {
            let j = choose|j: int| 0 <= j < c.len() && (#[trigger] c[j]).0 == other;
            assert(c0[j].0 == other);
        }
        if exists|j: int| 0 <= j < c0.len() && (#[trigger] c0[j]).0 == other {
            let j = choose|j: int| 0 <= j < c0.len() && (#[trigger] c0[j]).0 == other;
            assert(c[j].0 == other);
        }
    }
}

proof fn lemma_entry_of_remove(c0: Seq<(Seq<char>, Seq<char>)>, i: int, key: Seq<char>)
    requires
        keys_distinct(c0),
        0 <= i < c0.len(),
        c0[i].0 == key,
    ensures
        keys_distinct(c0.remove(i)),
        entry_of(c0, key) is Some,
        entry_of(c0.remove(i), key) is None,
        forall|other: Seq<char>|
            other != key ==> entry_of(c0.remove(i), other) == entry_of(c0, other),
{
    let c = c0.remove(i);
    assert forall|a: int, b: int| 0 <= a < b < c.len() implies (#[trigger] c[a]).0 != (
    #[trigger] c[b]).0 by {
        let a0 = if a < i { a } else { a + 1 };
        let b0 = if b < i { b } else { b + 1 };
        assert(c[a] == c0[a0] && c[b] == c0[b0]);
    }
    assert forall|j: int| 0 <= j < c.len() implies (#[trigger] c[j]).0 != key by {
        let j0 = if j < i { j } else { j + 1 };
        assert(c[j] == c0[j0]);
    }
    assert forall|other: Seq<char>| other != key implies entry_of(c, other) == entry_of(
        c0,
        other,
    ) by {
        if exists|j: int| 0 <= j < c.len() && (#[trigger] c[j]).0 == other {
            let j = choose|j: int| 0 <= j < c.len() && (#[trigger] c[j]).0 == other;
            let j0 = if j < i { j } else { j + 1 };
            assert(c[j] == c0[j0]);
            assert(c0[j0].0 == other);
        }
        if exists|j: int| 0 <= j < c0.len() && (#[trigger] c0[j]).0 == other {
            let j = choose|j: int| 0 <= j < c0.len() && (#[trigger] c0[j]).0 == other;
            assert(j != i);
            let j1 = if j < i { j } else { j - 1 };
            assert(c[j1] == c0[j]);
        }
    }
}

/// Ordering by command gives a sequence ordered by command.
pub proof fn lemma_sort_by_command_sorted(s: Seq<SuggestionModel>)
    ensures
        sorted_by_command(sort_by_command(s)),
        sort_by_command(s).len() == s.len(),
    decreases s.len(),
{
    if s.len() > 0 {
        let t = sort_by_command(s.drop_last());
        lemma_sort_by_command_sorted(s.drop_last());
        let x = s.last();
        let p = insert_position(t, x, 0);
        lemma_insert_position(t, x, 0);
        let r = t.insert(p as int, x);
        assert forall|i: int, j: int| 0 <= i < j < r.len() implies text_le(
            r[i].command,
            r[j].command,
        ) by {
            if j < p {
                assert(r[i] == t[i] && r[j] == t[j]);
            } else if j == p {
                assert(r[j] == x);
                assert(r[i] == t[i]);
                if i < p - 1 {
                    lemma_text_le_trans(t[i].command, t[p - 1].command, x.command);
                }
            } else if i == p {
                assert(r[i] == x && r[j] == t[j - 1]);
                lemma_text_le_total(t[p as int].command, x.command);
                if j - 1 > p {
                    lemma_text_le_trans(x.command, t[p as int].command, t[j - 1].command);
                }
            } else if i < p {
                assert(r[i] == t[i] && r[j] == t[j - 1]);
            } else {
                assert(r[i] == t[i - 1] && r[j] == t[j - 1]);
            }
        }
    }
}

proof fn lemma_insert_position(t: Seq<SuggestionModel>, x: SuggestionModel, i: nat)
    requires
        sorted_by_command(t),
        i <= t.len(),
        forall|j: int| 0 <= j < i ==> text_le(#[trigger] t[j].command, x.command),
    ensures
        i <= insert_position(t, x, i) <= t.len(),
        forall|j: int|
            0 <= j < insert_position(t, x, i) ==> text_le(#[trigger] t[j].command, x.command),
        insert_position(t, x, i) < t.len() ==> !text_le(
            t[insert_position(t, x, i) as int].command,
            x.command,
        ),
    decreases t.len() - i,
{
    if i < t.len() && text_le(t[i as int].command, x.command) {
        lemma_insert_position(t, x, i + 1);
    }
}

} // verus!
