use vstd::prelude::*;
use crate::command::Command;
use crate::output::Output;

verus! {

/// One command run in the terminal with what it produced.
#[derive(Debug, Clone)]
pub struct Block {
    pub id: usize,
    pub command: Command,
    pub output: Output,
    /// When it was created, in seconds since the Unix epoch (UTC).
    pub created_at: i64,
    pub exit_code: Option<i32>,
    pub duration_ms: Option<u64>,
    pub is_pinned: bool,
    pub is_folded: bool,
}

impl Block {
    /// A block for `command` with no output, created at `created_at`.
    pub fn new(id: usize, command: Command, created_at: i64) -> (b: Self)
        ensures
            b.id == id,
            b.command == command,
            b.output.stdout@.len() == 0,
            b.output.stderr@.len() == 0,
            b.output.status is None,
            b.created_at == created_at,
            b.exit_code is None,
            b.duration_ms is None,
            !b.is_pinned,
            !b.is_folded,
    {
        Block {
            id,
            command,
            output: Output::new(),
            created_at,
            exit_code: None,
            duration_ms: None,
            is_pinned: false,
            is_folded: false,
        }
    }
}

/// The blocks of a session, in order, beside the state they share.
pub struct BlockManager<A> {
    state: A,
    blocks: Vec<Block>,
}

impl<A> BlockManager<A> {
    pub fn new(state: A) -> (m: Self)
        ensures
            m.blocks().len() == 0,
            m.state() == state,
    {
        BlockManager { state, blocks: Vec::new() }
    }

    pub closed spec fn blocks(&self) -> Seq<Block> {
        self.blocks@
    }

    pub closed spec fn state(&self) -> A {
        self.state
    }

    pub fn shared_state(&self) -> (r: &A)
        ensures
            *r == self.state(),
    {
        &self.state
    }

    pub fn add_block(&mut self, block: Block)
        ensures
            final(self).blocks() == old(self).blocks().push(block),
            final(self).state() == old(self).state(),
    {
        self.blocks.push(block);
    }

    /// The block at position `id`, if there is one.
    pub fn get_block(&self, id: usize) -> (r: Option<&Block>)
        ensures
            match r {
                Some(b) => id < self.blocks().len() && *b == self.blocks()[id as int],
                None => id >= self.blocks().len(),
            },
    {
        if id < self.blocks.len() {
            Some(&self.blocks[id])
        } else {
            None
        }
    }

    /// The newest block, if there is one.
    pub fn get_current_block(&self) -> (r: Option<&Block>)
        ensures
            match r {
                Some(b) => self.blocks().len() > 0 && *b == self.blocks().last(),
                None => self.blocks().len() == 0,
            },
    {
        let n = self.blocks.len();
        if n > 0 {
            Some(&self.blocks[n - 1])
        } else {
            None
        }
    }
}

} // verus!
