use vstd::prelude::*;
use crate::text::{decode_lossy, utf8_lossy};

verus! {

/// What a command wrote and how it ended.
#[derive(Debug, Clone)]
pub struct Output {
    pub stdout: Vec<u8>,
    pub stderr: Vec<u8>,
    pub status: Option<i32>,
}

fn append_bytes(v: &mut Vec<u8>, data: &[u8])
    ensures
        final(v)@ == old(v)@ + data@,
{
    let mut i: usize = 0;
    while i < data.len()
        invariant
            i <= data.len(),
            v@ == old(v)@ + data@.subrange(0, i as int),
        decreases data.len() - i,
    {
        v.push(data[i]);
        i = i + 1;
        assert(v@ =~= old(v)@ + data@.subrange(0, i as int));
    }
    assert(data@.subrange(0, i as int) =~= data@);
}

impl Output {
    /// Nothing written, no status yet.
    pub fn new() -> (o: Self)
        ensures
            o.stdout@.len() == 0,
            o.stderr@.len() == 0,
            o.status is None,
    {
        Output { stdout: Vec::new(), stderr: Vec::new(), status: None }
    }

    pub fn append_stdout(&mut self, data: &[u8])
        ensures
            final(self).stdout@ == old(self).stdout@ + data@,
            final(self).stderr@ == old(self).stderr@,
            final(self).status == old(self).status,
    {
        append_bytes(&mut self.stdout, data);
    }

    pub fn append_stderr(&mut self, data: &[u8])
        ensures
            final(self).stderr@ == old(self).stderr@ + data@,
            final(self).stdout@ == old(self).stdout@,
            final(self).status == old(self).status,
    {
        append_bytes(&mut self.stderr, data);
    }

    /// Records the exit status.
    pub fn set_status(&mut self, status: i32)
        ensures
            final(self).status == Some(status),
            final(self).stdout@ == old(self).stdout@,
            final(self).stderr@ == old(self).stderr@,
    {
        self.status = Some(status);
    }

    /// Standard output as text, ill-formed UTF-8 replaced.
    pub fn stdout_string(&self) -> (s: String)
        ensures
            s@ == utf8_lossy(self.stdout@),
    {
        decode_lossy(self.stdout.as_slice())
    }

    /// Standard error as text, ill-formed UTF-8 replaced.
    pub fn stderr_string(&self) -> (s: String)
        ensures
            s@ == utf8_lossy(self.stderr@),
    {
        decode_lossy(self.stderr.as_slice())
    }

    /// The command ended with status 0.
    pub fn success(&self) -> (r: bool)
        ensures
            r == (self.status == Some(0i32)),
    {
        match self.status {
            Some(c) => c == 0,
            None => false,
        }
    }
}

} // verus!
