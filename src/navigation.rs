use vstd::prelude::*;

verus! {

/// Which block has focus, the blocks visited before it, and named bookmarks.
pub struct BlockNavigation {
    current_block_id: Option<usize>,
    history: Vec<usize>,
    history_position: usize,
    bookmarks: Vec<(String, usize)>,
}

pub struct NavModel {
    pub current: Option<usize>,
    pub history: Seq<usize>,
    pub position: int,
    /// Name and block of each bookmark, names distinct, in the order first set.
    pub bookmarks: Seq<(Seq<char>, usize)>,
}

pub open spec fn bookmarks_view(v: Seq<(String, usize)>) -> Seq<(Seq<char>, usize)> {
    v.map_values(|p: (String, usize)| (p.0@, p.1))
}

pub open spec fn names_distinct(b: Seq<(Seq<char>, usize)>) -> bool {
    forall|i: int, j: int| 0 <= i < j < b.len() ==> (#[trigger] b[i]).0 != (#[trigger] b[j]).0
}

/// The block bookmarked under `name`.
pub open spec fn bookmark_of(b: Seq<(Seq<char>, usize)>, name: Seq<char>) -> Option<usize> {
    if exists|i: int| 0 <= i < b.len() && (#[trigger] b[i]).0 == name {
        let i = choose|i: int| 0 <= i < b.len() && (#[trigger] b[i]).0 == name;
        Some(b[i].1)
    } else {
        None
    }
}

/// The entries up to and including the current one.
pub open spec fn kept_history(m: NavModel) -> Seq<usize> {
    if m.history.len() == 0 {
        seq![]
    } else {
        m.history.subrange(0, m.position + 1)
    }
}

/// Focus moves to `id`, which becomes the newest entry after the current
/// one; entries ahead of the current one are dropped. Asking for the block
/// that has focus changes nothing.
pub open spec fn focus(m: NavModel, id: usize) -> NavModel {
    if m.current == Some(id) {
        m
    } else {
        let kept = kept_history(m);
        NavModel {
            current: Some(id),
            history: kept.push(id),
            position: kept.len() as int,
            ..m
        }
    }
}

impl NavModel {
    /// The history is empty with nothing focused, or the position is an
    /// entry and the focused block is that entry.
    pub open spec fn wf(self) -> bool {
        &&& if self.history.len() == 0 {
            self.position == 0 && self.current is None
        } else {
            0 <= self.position < self.history.len() && self.current == Some(
                self.history[self.position],
            )
        }
        &&& names_distinct(self.bookmarks)
    }
}

impl View for BlockNavigation {
    type V = NavModel;

    closed spec fn view(&self) -> NavModel {
        NavModel {
            current: self.current_block_id,
            history: self.history@,
            position: self.history_position as int,
            bookmarks: bookmarks_view(self.bookmarks@),
        }
    }
}

impl BlockNavigation {
    /// No focus, no history, no bookmarks.
    pub fn new() -> (n: Self)
        ensures
            n@.current is None,
            n@.history.len() == 0,
            n@.position == 0,
            n@.bookmarks.len() == 0,
            n@.wf(),
    {
        BlockNavigation {
            current_block_id: None,
            history: Vec::new(),
            history_position: 0,
            bookmarks: Vec::new(),
        }
    }

    /// Gives `block_id` the focus and records it after the current entry.
    pub fn set_current_block(&mut self, block_id: usize)
        requires
            old(self)@.wf(),
        ensures
            final(self)@ == focus(old(self)@, block_id),
            final(self)@.wf(),
    {
        if self.current_block_id != Some(block_id) {
            if self.history.len() > 0 {
                self.history.truncate(self.history_position + 1);
            }
            assert(self.history@ =~= kept_history(old(self)@));
            self.history.push(block_id);
            self.history_position = self.history.len() - 1;
            self.current_block_id = Some(block_id);
        }
    }

    /// Steps back to the previous entry, if there is one.
    pub fn go_back(&mut self) -> (r: Option<usize>)
        requires
            old(self)@.wf(),
        ensures
            final(self)@.wf(),
            if old(self)@.position > 0 {
                let id = old(self)@.history[old(self)@.position - 1];
                &&& r == Some(id)
                &&& final(self)@ == (NavModel {
                    current: Some(id),
                    position: old(self)@.position - 1,
                    ..old(self)@
                })
            } else {
                r is None && final(self)@ == old(self)@
            },
    {
        if self.history_position > 0 {
            self.history_position = self.history_position - 1;
            let id = self.history[self.history_position];
            self.current_block_id = Some(id);
            Some(id)
        } else {
            None
        }
    }

    /// Steps forward again, if there is an entry ahead.
    pub fn go_forward(&mut self) -> (r: Option<usize>)
        requires
            old(self)@.wf(),
        ensures
            final(self)@.wf(),
            if old(self)@.position + 1 < old(self)@.history.len() {
                let id = old(self)@.history[old(self)@.position + 1];
                &&& r == Some(id)
                &&& final(self)@ == (NavModel {
                    current: Some(id),
                    position: old(self)@.position + 1,
                    ..old(self)@
                })
            } else {
                r is None && final(self)@ == old(self)@
            },
    {
        if self.history.len() > 0 && self.history_position < self.history.len() - 1 {
            self.history_position = self.history_position + 1;
            let id = self.history[self.history_position];
            self.current_block_id = Some(id);
            Some(id)
        } else {
            None
        }
    }

    fn find_bookmark(&self, name: &String) -> (r: Option<usize>)
        requires
            self@.wf(),
        ensures
            match r {
                Some(i) => i < self@.bookmarks.len() && self@.bookmarks[i as int].0 == name@,
                None => forall|i: int|
                    0 <= i < self@.bookmarks.len() ==> (#[trigger] self@.bookmarks[i]).0 != name@,
            },
    {
        let mut i: usize = 0;
        while i < self.bookmarks.len()
            invariant
                i <= self.bookmarks.len(),
                forall|j: int| 0 <= j < i ==> (#[trigger] self@.bookmarks[j]).0 != name@,
            decreases self.bookmarks.len() - i,
        {
            if self.bookmarks[i].0 == *name {
                return Some(i);
            }
            i = i + 1;
        }
        None
    }

    /// Names `block_id` `name`, replacing what that name marked before.
    pub fn bookmark(&mut self, name: &str, block_id: usize)
        requires
            old(self)@.wf(),
        ensures
            final(self)@.wf(),
            final(self)@.current == old(self)@.current,
            final(self)@.history == old(self)@.history,
            final(self)@.position == old(self)@.position,
            bookmark_of(final(self)@.bookmarks, name@) == Some(block_id),
            forall|other: Seq<char>|
                other != name@ ==> bookmark_of(final(self)@.bookmarks, other) == bookmark_of(
                    old(self)@.bookmarks,
                    other,
                ),
    {
        let key = name.to_string();
        let ghost b0 = self@.bookmarks;
        match self.find_bookmark(&key) {
            Some(i) => {
                self.bookmarks.set(i, (key, block_id));
                proof {
                    let b = self@.bookmarks;
                    assert(b =~= b0.update(i as int, (name@, block_id)));
                    assert(b[i as int].0 == name@);
                    assert forall|other: Seq<char>| other != name@ implies bookmark_of(b, other)
                        == bookmark_of(b0, other) by {
                        if exists|j: int| 0 <= j < b.len() && (#[trigger] b[j]).0 == other {
                            let j = choose|j: int| 0 <= j < b.len() && (#[trigger] b[j]).0 == other;
                            assert(b0[j].0 == other);
                        }
                        if exists|j: int| 0 <= j < b0.len() && (#[trigger] b0[j]).0 == other {
                            let j = choose|j: int| 0 <= j < b0.len() && (#[trigger] b0[j]).0 == other;
                            assert(b[j].0 == other);
                        }
                    }
                }
            },
            None => {
                self.bookmarks.push((key, block_id));
                proof {
                    let b = self@.bookmarks;
                    assert(b =~= b0.push((name@, block_id)));
                    assert(b[b0.len() as int].0 == name@);
                    assert forall|other: Seq<char>| other != name@ implies bookmark_of(b, other)
                        == bookmark_of(b0, other) by {
                        if exists|j: int| 0 <= j < b.len() && (#[trigger] b[j]).0 == other {
                            let j = choose|j: int| 0 <= j < b.len() && (#[trigger] b[j]).0 == other;
                            assert(b0[j].0 == other);
                        }
                        if exists|j: int| 0 <= j < b0.len() && (#[trigger] b0[j]).0 == other {
                            let j = choose|j: int| 0 <= j < b0.len() && (#[trigger] b0[j]).0 == other;
                            assert(b[j].0 == other);
                        }
                    }
                }
            },
        }
    }

    /// Gives focus to the block bookmarked under `name`, if any.
    pub fn go_to_bookmark(&mut self, name: &str) -> (r: Option<usize>)
        requires
            old(self)@.wf(),
        ensures
            final(self)@.wf(),
            r == bookmark_of(old(self)@.bookmarks, name@),
            match r {
                Some(id) => final(self)@ == focus(old(self)@, id),
                None => final(self)@ == old(self)@,
            },
    {
        let key = name.to_string();
        match self.find_bookmark(&key) {
            Some(i) => {
                let id = self.bookmarks[i].1;
                proof {
                    let b = self@.bookmarks;
                    assert(b[i as int].0 == name@);
                    let j = choose|j: int| 0 <= j < b.len() && (#[trigger] b[j]).0 == name@;
                    assert(j == i as int);
                }
                self.set_current_block(id);
                Some(id)
            },
            None => None,
        }
    }

    pub fn current_block_id(&self) -> (r: Option<usize>)
        ensures
            r == self@.current,
    {
        self.current_block_id
    }

    /// Every bookmark, as name and block.
    pub fn get_bookmarks(&self) -> (r: &Vec<(String, usize)>)
        ensures
            bookmarks_view(r@) == self@.bookmarks,
    {
        &self.bookmarks
    }
}

} // verus!
