use vstd::prelude::*;
use vstd::string::*;

verus! {

/// Entries a history keeps; older ones are dropped first.
pub const MAX_ENTRIES: usize = 1000;

/// A command as it was run.
#[derive(Debug, Clone)]
pub struct HistoryEntry {
    pub command: String,
    /// Seconds since the Unix epoch when it ran.
    pub timestamp: u64,
    pub working_dir: String,
    pub exit_code: Option<i32>,
    /// How long it ran, in milliseconds.
    pub duration_ms: Option<u64>,
}

impl HistoryEntry {
    /// An entry for `command`, run at `timestamp` in `working_dir`, with no
    /// outcome recorded yet.
    pub fn new(command: &str, timestamp: u64, working_dir: &str) -> (e: Self)
        ensures
            e.command@ == command@,
            e.timestamp == timestamp,
            e.working_dir@ == working_dir@,
            e.exit_code is None,
            e.duration_ms is None,
    {
        HistoryEntry {
            command: command.to_string(),
            timestamp,
            working_dir: working_dir.to_string(),
            exit_code: None,
            duration_ms: None,
        }
    }

    pub fn with_exit_code(self, exit_code: i32) -> (e: Self)
        ensures
            e.exit_code == Some(exit_code),
            e.command == self.command,
            e.timestamp == self.timestamp,
            e.working_dir == self.working_dir,
            e.duration_ms == self.duration_ms,
    {
        let mut e = self;
        e.exit_code = Some(exit_code);
        e
    }

    pub fn with_duration(self, duration_ms: u64) -> (e: Self)
        ensures
            e.duration_ms == Some(duration_ms),
            e.command == self.command,
            e.timestamp == self.timestamp,
            e.working_dir == self.working_dir,
            e.exit_code == self.exit_code,
    {
        let mut e = self;
        e.duration_ms = Some(duration_ms);
        e
    }
}

/// Unicode `White_Space`.
pub open spec fn is_space(c: char) -> bool {
    let v = c as u32;
    (0x09 <= v <= 0x0d) || v == 0x20 || v == 0x85 || v == 0xa0 || v == 0x1680 || (0x2000 <= v
        <= 0x200a) || v == 0x2028 || v == 0x2029 || v == 0x202f || v == 0x205f || v == 0x3000
}

/// Nothing but white space.
pub open spec fn is_blank(s: Seq<char>) -> bool {
    forall|i: int| 0 <= i < s.len() ==> is_space(#[trigger] s[i])
}

/// `needle` occurs in `haystack`.
pub open spec fn contains(haystack: Seq<char>, needle: Seq<char>) -> bool {
    exists|i: int|
        0 <= i && i + needle.len() <= haystack.len() && #[trigger] haystack.subrange(
            i,
            i + needle.len(),
        ) == needle
}

/// The lower-case form of a text, as Unicode defines it.
pub uninterp spec fn lower_of(s: Seq<char>) -> Seq<char>;

/// Relies on `str::to_lowercase`: the result depends on the characters alone.
#[verifier::external_body]
fn lowercase(s: &str) -> (r: String)
    ensures
        r@ == lower_of(s@),
{
    s.to_lowercase()
}

pub(crate) fn char_is_space(c: char) -> (r: bool)
    ensures
        r == is_space(c),
{
    let v = c as u32;
    (0x09 <= v && v <= 0x0d) || v == 0x20 || v == 0x85 || v == 0xa0 || v == 0x1680 || (0x2000
        <= v && v <= 0x200a) || v == 0x2028 || v == 0x2029 || v == 0x202f || v == 0x205f || v
        == 0x3000
}

fn blank_exec(s: &String) -> (r: bool)
    ensures
        r == is_blank(s@),
{
    let n = s.as_str().unicode_len();
    let mut i: usize = 0;
    while i < n
        invariant
            n == s@.len(),
            i <= n,
            forall|j: int| 0 <= j < i ==> is_space(#[trigger] s@[j]),
        decreases n - i,
    {
        if !char_is_space(s.as_str().get_char(i)) {
            return false;
        }
        i = i + 1;
    }
    true
}

/// Whether `needle` occurs in `haystack`.
pub fn text_contains(haystack: &str, needle: &str) -> (r: bool)
    ensures
        r == contains(haystack@, needle@),
{
    let n = haystack.unicode_len();
    let m = needle.unicode_len();
    if m > n {
        return false;
    }
    let mut i: usize = 0;
    while i <= n - m
        invariant
            n == haystack@.len(),
            m == needle@.len(),
            m <= n,
            i <= n - m + 1,
            forall|k: int|
                0 <= k < i ==> #[trigger] haystack@.subrange(k, k + m as int) != needle@,
        decreases n - m + 1 - i,
    {
        let mut j: usize = 0;
        let mut same = true;
        while j < m
            invariant
                n == haystack@.len(),
                m == needle@.len(),
                i + m <= n,
                j <= m,
                same <==> forall|t: int| 0 <= t < j ==> haystack@[i + t] == needle@[t],
            decreases m - j,
        {
            if haystack.get_char(i + j) != needle.get_char(j) {
                same = false;
            }
            j = j + 1;
        }
        if same {
            assert(haystack@.subrange(i as int, i + m as int) =~= needle@);
            return true;
        }
        proof {
            let t = choose|t: int| 0 <= t < m && haystack@[i + t] != needle@[t];
            assert(haystack@.subrange(i as int, i + m as int)[t] != needle@[t]);
        }
        i = i + 1;
    }
    proof {
        if contains(haystack@, needle@) {
            let k = choose|k: int|
                0 <= k && k + needle@.len() <= haystack@.len() && #[trigger] haystack@.subrange(
                    k,
                    k + needle@.len(),
                ) == needle@;
            assert(haystack@.subrange(k, k + m as int) != needle@);
        }
    }
    false
}

/// Whether the lower-case forms `folded_command` and `folded_query` match,
/// that is whether the query occurs in the command.
pub fn matches_folded(folded_query: &str, folded_command: &str) -> (r: bool)
    ensures
        r == contains(folded_command@, folded_query@),
{
    text_contains(folded_command, folded_query)
}

pub open spec fn refs_view(v: Seq<&HistoryEntry>) -> Seq<HistoryEntry> {
    v.map_values(|e: &HistoryEntry| *e)
}

/// The entries whose command holds `query`, both taken in lower case.
pub open spec fn search_result(v: Seq<HistoryEntry>, query: Seq<char>) -> Seq<HistoryEntry>
    decreases v.len(),
{
    if v.len() == 0 {
        seq![]
    } else {
        let rest = search_result(v.drop_last(), query);
        if contains(lower_of(v.last().command@), lower_of(query)) {
            rest.push(v.last())
        } else {
            rest
        }
    }
}

/// The commands a user ran, oldest first, with a cursor for stepping through them.
#[derive(Debug, Clone)]
pub struct History {
    history_file: String,
    entries: Vec<HistoryEntry>,
    max_entries: usize,
    position: usize,
}

pub struct HistoryModel {
    pub file: Seq<char>,
    pub entries: Seq<HistoryEntry>,
    pub max_entries: int,
    pub position: int,
}

impl HistoryModel {
    pub open spec fn wf(self) -> bool {
        &&& 1 <= self.max_entries
        &&& 0 <= self.position <= self.entries.len()
    }
}

/// `e` is recorded unless its command is blank or repeats the newest entry's;
/// then only the newest `max` entries are kept and the cursor moves past the end.
pub open spec fn add_model(m: HistoryModel, e: HistoryEntry) -> HistoryModel {
    if is_blank(e.command@) || (m.entries.len() > 0 && m.entries.last().command@ == e.command@) {
        m
    } else {
        let all = m.entries.push(e);
        let kept = if all.len() > m.max_entries {
            all.subrange(all.len() - m.max_entries, all.len() as int)
        } else {
            all
        };
        HistoryModel { entries: kept, position: kept.len() as int, ..m }
    }
}

impl View for History {
    type V = HistoryModel;

    closed spec fn view(&self) -> HistoryModel {
        HistoryModel {
            file: self.history_file@,
            entries: self.entries@,
            max_entries: self.max_entries as int,
            position: self.position as int,
        }
    }
}

impl History {
    /// An empty history kept in the file at `path`, holding at most
    /// `MAX_ENTRIES` entries.
    pub fn with_file(path: &str) -> (h: Self)
        ensures
            h@.file == path@,
            h@.entries.len() == 0,
            h@.max_entries == MAX_ENTRIES,
            h@.position == 0,
            h@.wf(),
    {
        History {
            history_file: path.to_string(),
            entries: Vec::new(),
            max_entries: MAX_ENTRIES,
            position: 0,
        }
    }

    /// The file the history is kept in.
    pub fn file(&self) -> (r: &String)
        ensures
            r@ == self@.file,
    {
        &self.history_file
    }

    /// Replaces the entries with those read back from the file, cursor past the end.
    pub fn set_entries(&mut self, entries: Vec<HistoryEntry>)
        requires
            old(self)@.wf(),
        ensures
            final(self)@ == (HistoryModel {
                entries: entries@,
                position: entries@.len() as int,
                ..old(self)@
            }),
            final(self)@.wf(),
    {
        self.position = entries.len();
        self.entries = entries;
    }

    /// Records `entry` as `add_model` says; returns whether the entries changed
    /// (and so should be saved).
    pub fn add(&mut self, entry: HistoryEntry) -> (changed: bool)
        requires
            old(self)@.wf(),
        ensures
            final(self)@ == add_model(old(self)@, entry),
            final(self)@.wf(),
            changed == (final(self)@ != old(self)@),
    {
        if blank_exec(&entry.command) {
            return false;
        }
        let n = self.entries.len();
        if n > 0 && self.entries[n - 1].command == entry.command {
            return false;
        }
        let ghost e = entry;
        self.entries.push(entry);
        if self.entries.len() > self.max_entries {
            let excess = self.entries.len() - self.max_entries;
            let kept = self.entries.split_off(excess);
            self.entries = kept;
        }
        self.position = self.entries.len();
        proof {
            assert(self@.entries.len() > 0 && self@.entries.last() == e);
            if self@ == old(self)@ {
                assert(old(self)@.entries.len() > 0 && old(self)@.entries.last().command@
                    == e.command@);
            }
        }
        true
    }

    /// Steps to the previous entry, if there is one.
    pub fn up(&mut self) -> (r: Option<&HistoryEntry>)
        requires
            old(self)@.wf(),
        ensures
            final(self)@.wf(),
            if old(self)@.position > 0 {
                &&& final(self)@ == (HistoryModel { position: old(self)@.position - 1, ..old(self)@ })
                &&& r == Some(&old(self)@.entries[old(self)@.position - 1])
            } else {
                final(self)@ == old(self)@ && r is None
            },
    {
        if self.position > 0 {
            self.position = self.position - 1;
            Some(&self.entries[self.position])
        } else {
            None
        }
    }

    /// Steps to the next entry, if there is one.
    pub fn down(&mut self) -> (r: Option<&HistoryEntry>)
        requires
            old(self)@.wf(),
        ensures
            final(self)@.wf(),
            if old(self)@.position + 1 < old(self)@.entries.len() {
                &&& final(self)@ == (HistoryModel { position: old(self)@.position + 1, ..old(self)@ })
                &&& r == Some(&old(self)@.entries[old(self)@.position + 1])
            } else {
                final(self)@ == old(self)@ && r is None
            },
    {
        if self.entries.len() > 0 && self.position < self.entries.len() - 1 {
            self.position = self.position + 1;
            Some(&self.entries[self.position])
        } else {
            None
        }
    }

    /// The entries whose command contains `query`, ignoring case, oldest first.
    pub fn search(&self, query: &str) -> (r: Vec<&HistoryEntry>)
        ensures
            refs_view(r@) == search_result(self@.entries, query@),
    {
        let q = lowercase(query);
        let mut out: Vec<&HistoryEntry> = Vec::new();
        let mut i: usize = 0;
        assert(refs_view(out@) =~= Seq::<HistoryEntry>::empty());
        assert(self.entries@.subrange(0, 0) =~= Seq::<HistoryEntry>::empty());
        while i < self.entries.len()
            invariant
                i <= self.entries@.len(),
                q@ == lower_of(query@),
                refs_view(out@) == search_result(self.entries@.subrange(0, i as int), query@),
            decreases self.entries.len() - i,
        {
            let ghost pre = self.entries@.subrange(0, i + 1);
            assert(pre.drop_last() =~= self.entries@.subrange(0, i as int));
            let c = lowercase(self.entries[i].command.as_str());
            let ghost before = refs_view(out@);
            if matches_folded(q.as_str(), c.as_str()) {
                out.push(&self.entries[i]);
                assert(refs_view(out@) =~= before.push(self.entries@[i as int]));
            }
            i = i + 1;
        }
        assert(self.entries@.subrange(0, i as int) =~= self.entries@);
        out
    }

    /// All entries, oldest first.
    pub fn entries(&self) -> (r: &[HistoryEntry])
        ensures
            r@ == self@.entries,
    {
        self.entries.as_slice()
    }

    /// Forgets every entry.
    pub fn clear(&mut self)
        requires
            old(self)@.wf(),
        ensures
            final(self)@ == (HistoryModel { entries: seq![], position: 0, ..old(self)@ }),
            final(self)@.wf(),
    {
        self.entries.clear();
        self.position = 0;
        assert(self@.entries =~= Seq::<HistoryEntry>::empty());
    }
}

} // verus!
