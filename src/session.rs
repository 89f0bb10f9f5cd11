use vstd::prelude::*;
use vstd::string::*;

verus! {

/// Geometry of a pseudo-terminal opened without one.
pub const DEFAULT_COLS: u16 = 80;

pub const DEFAULT_ROWS: u16 = 24;

/// What a terminal session reports to its owner.
#[derive(Debug, Clone, PartialEq, Eq)]
pub enum TermEvent {
    /// Raw bytes the child wrote, before parsing.
    Output(Vec<u8>),
    Resize(u16, u16),
    ProcessExit(i32),
    Error(String),
}

pub enum EventModel {
    Output(Seq<u8>),
    Resize(u16, u16),
    ProcessExit(i32),
    Error(Seq<char>),
}

impl View for TermEvent {
    type V = EventModel;

    open spec fn view(&self) -> EventModel {
        match self {
            TermEvent::Output(b) => EventModel::Output(b@),
            TermEvent::Resize(c, r) => EventModel::Resize(*c, *r),
            TermEvent::ProcessExit(c) => EventModel::ProcessExit(*c),
            TermEvent::Error(m) => EventModel::Error(m@),
        }
    }
}

// ---------------------------------------------------------------------------
// Descriptor ownership

/// The two descriptors of a pseudo-terminal, each held until it is released
/// or handed over.
pub struct PtyFds {
    master: Option<i32>,
    slave: Option<i32>,
}

pub struct FdsModel {
    pub master: Option<i32>,
    pub slave: Option<i32>,
}

impl View for PtyFds {
    type V = FdsModel;

    closed spec fn view(&self) -> FdsModel {
        FdsModel { master: self.master, slave: self.slave }
    }
}

pub open spec fn held(o: Option<i32>) -> Seq<i32> {
    match o {
        Some(fd) => seq![fd],
        None => seq![],
    }
}

/// The descriptors still held, master first.
pub open spec fn open_fds(m: FdsModel) -> Seq<i32> {
    held(m.master) + held(m.slave)
}

/// Releasing closes every descriptor still held and holds none afterwards.
pub open spec fn release_model(m: FdsModel) -> (FdsModel, Seq<i32>) {
    (FdsModel { master: None, slave: None }, open_fds(m))
}

impl PtyFds {
    /// Takes ownership of a freshly opened pair.
    pub fn new(master: i32, slave: i32) -> (p: Self)
        ensures
            p@ == (FdsModel { master: Some(master), slave: Some(slave) }),
    {
        PtyFds { master: Some(master), slave: Some(slave) }
    }

    pub fn master(&self) -> (r: Option<i32>)
        ensures
            r == self@.master,
    {
        self.master
    }

    /// Hands the slave side over (to become the child's standard streams);
    /// it is no longer this pair's to close.
    pub fn take_slave(&mut self) -> (r: Option<i32>)
        ensures
            r == old(self)@.slave,
            final(self)@ == (FdsModel { master: old(self)@.master, slave: None }),
    {
        let s = self.slave;
        self.slave = None;
        s
    }

    /// The descriptors to close now: each one still held, exactly once.
    /// Calling it again returns nothing.
    pub fn release(&mut self) -> (closed: Vec<i32>)
        ensures
            closed@ == release_model(old(self)@).1,
            final(self)@ == release_model(old(self)@).0,
    {
        let mut closed: Vec<i32> = Vec::new();
        if let Some(m) = self.master {
            closed.push(m);
        }
        if let Some(s) = self.slave {
            closed.push(s);
        }
        self.master = None;
        self.slave = None;
        assert(closed@ =~= open_fds(old(self)@));
        closed
    }
}

/// Releasing a fresh pair twice closes the master and the slave once each,
/// and nothing the second time.
pub proof fn lemma_release_closes_once(master: i32, slave: i32)
    ensures
        ({
            let first = release_model(FdsModel { master: Some(master), slave: Some(slave) });
            let second = release_model(first.0);
            &&& first.1 == seq![master, slave]
            &&& second.1 == Seq::<i32>::empty()
            &&& second.0 == first.0
        }),
{
    let first = release_model(FdsModel { master: Some(master), slave: Some(slave) });
    assert(first.1 =~= seq![master, slave]);
    assert(release_model(first.0).1 =~= Seq::<i32>::empty());
}

/// Whatever was held, releasing closes each held descriptor once: a second
/// release closes nothing, and handing the slave over first leaves only the
/// master to close.
pub proof fn lemma_release_idempotent(m: FdsModel)
    ensures
        release_model(release_model(m).0).1 == Seq::<i32>::empty(),
        release_model(FdsModel { master: m.master, slave: None }).1 == held(m.master),
{
    assert(release_model(release_model(m).0).1 =~= Seq::<i32>::empty());
    assert(release_model(FdsModel { master: m.master, slave: None }).1 =~= held(m.master));
}

// ---------------------------------------------------------------------------
// Reading the child's output

/// The result of one read on the master side.
pub enum ReadOutcome {
    /// Some bytes (possibly none, which means the stream closed).
    Data(Vec<u8>),
    /// Nothing to read yet; try again when the descriptor is ready.
    WouldBlock,
    /// Any other failure, with its message.
    Failed(String),
}

/// What the reader does after one read.
pub struct ReadStep {
    pub event: Option<TermEvent>,
    pub keep_reading: bool,
}

pub open spec fn read_error_prefix() -> Seq<char> {
    "Error reading from process: "@
}

/// Forwards non-empty data as `Output`; ends quietly on an empty read; waits
/// on would-block; reports any other failure as `Error` and ends.
pub fn after_read(r: ReadOutcome) -> (s: ReadStep)
    ensures
        match r {
            ReadOutcome::Data(b) => if b@.len() > 0 {
                s.keep_reading && s.event == Some(TermEvent::Output(b))
            } else {
                !s.keep_reading && s.event is None
            },
            ReadOutcome::WouldBlock => s.keep_reading && s.event is None,
            ReadOutcome::Failed(msg) => !s.keep_reading && match s.event {
                Some(e) => e@ == EventModel::Error(read_error_prefix() + msg@),
                None => false,
            },
        },
{
    match r {
        ReadOutcome::Data(b) => {
            if b.len() > 0 {
                ReadStep { event: Some(TermEvent::Output(b)), keep_reading: true }
            } else {
                ReadStep { event: None, keep_reading: false }
            }
        },
        ReadOutcome::WouldBlock => ReadStep { event: None, keep_reading: true },
        ReadOutcome::Failed(msg) => {
            let prefix = "Error reading from process: ";
            proof {
                reveal_strlit("Error reading from process: ");
            }
            let mut text = String::from_str(prefix);
            text.append(msg.as_str());
            ReadStep { event: Some(TermEvent::Error(text)), keep_reading: false }
        },
    }
}

// ---------------------------------------------------------------------------
// Killing the child

/// What asking the child's state reported.
pub enum WaitOutcome {
    /// No child was ever spawned.
    NoChild,
    /// The child is still running.
    Running,
    /// The child has exited, with its code where the OS gives one.
    Exited(Option<i32>),
    /// The state could not be read.
    WaitFailed,
}

/// What `kill` does.
pub struct KillPlan {
    /// Send the termination signal and wait for the exit.
    pub signal: bool,
    /// Events to report, in order.
    pub events: Vec<TermEvent>,
    /// Fail the call.
    pub fails: bool,
}

/// A running child is signalled; one that has already exited is not
/// signalled again, and its exit is reported once, with code -1 where none
/// is known; a failed state query fails the call.
pub fn plan_kill(w: WaitOutcome) -> (p: KillPlan)
    ensures
        match w {
            WaitOutcome::NoChild => !p.signal && p.events@.len() == 0 && !p.fails,
            WaitOutcome::Running => p.signal && p.events@.len() == 0 && !p.fails,
            WaitOutcome::Exited(code) => !p.signal && !p.fails && p.events@ == seq![
                TermEvent::ProcessExit(
                    match code {
                        Some(c) => c,
                        None => -1i32,
                    },
                ),
            ],
            WaitOutcome::WaitFailed => !p.signal && p.events@.len() == 0 && p.fails,
        },
{
    match w {
        WaitOutcome::NoChild => KillPlan { signal: false, events: Vec::new(), fails: false },
        WaitOutcome::Running => KillPlan { signal: true, events: Vec::new(), fails: false },
        WaitOutcome::Exited(code) => {
            let c = match code {
                Some(c) => c,
                None => -1,
            };
            let mut events: Vec<TermEvent> = Vec::new();
            events.push(TermEvent::ProcessExit(c));
            assert(events@ =~= seq![TermEvent::ProcessExit(c)]);
            KillPlan { signal: false, events, fails: false }
        },
        WaitOutcome::WaitFailed => KillPlan { signal: false, events: Vec::new(), fails: true },
    }
}

// ---------------------------------------------------------------------------
// The child's command line and environment

pub open spec fn pairs_view(v: Seq<(String, String)>) -> Seq<(Seq<char>, Seq<char>)> {
    v.map_values(|p: (String, String)| (p.0@, p.1@))
}

pub open spec fn term_entry() -> (Seq<char>, Seq<char>) {
    ("TERM"@, "xterm-256color"@)
}

/// How the shell is started: the program, its directory and the variables
/// that the caller adds to its environment.
pub struct ProcessManager {
    shell: String,
    working_directory: String,
    env_vars: Vec<(String, String)>,
}

fn copy_pairs(v: &Vec<(String, String)>) -> (r: Vec<(String, String)>)
    ensures
        pairs_view(r@) == pairs_view(v@),
{
    let mut r: Vec<(String, String)> = Vec::new();
    let mut i: usize = 0;
    while i < v.len()
        invariant
            i <= v.len(),
            pairs_view(r@) =~= pairs_view(v@.subrange(0, i as int)),
        decreases v.len() - i,
    {
        let k = v[i].0.clone();
        let x = v[i].1.clone();
        let ghost before = r@;
        r.push((k, x));
        assert(v@.subrange(0, i + 1) =~= v@.subrange(0, i as int).push(v@[i as int]));
        assert(pairs_view(r@) =~= pairs_view(before).push((k@, x@)));
        assert(pairs_view(v@.subrange(0, i + 1)) =~= pairs_view(v@.subrange(0, i as int)).push(
            (v@[i as int].0@, v@[i as int].1@),
        ));
        i = i + 1;
    }
    assert(v@.subrange(0, i as int) =~= v@);
    r
}

impl ProcessManager {
    /// A manager for `shell`, started in `working_directory` with the extra
    /// variables `env_vars`.
    pub fn new(shell: &str, working_directory: &str, env_vars: Vec<(String, String)>) -> (p: Self)
        ensures
            p.shell()@ == shell@,
            p.working_directory()@ == working_directory@,
            pairs_view(p.env_vars()@) == pairs_view(env_vars@),
    {
        ProcessManager {
            shell: shell.to_string(),
            working_directory: working_directory.to_string(),
            env_vars,
        }
    }

    pub closed spec fn shell(&self) -> String {
        self.shell
    }

    pub closed spec fn working_directory(&self) -> String {
        self.working_directory
    }

    pub closed spec fn env_vars(&self) -> Vec<(String, String)> {
        self.env_vars
    }

    pub fn shell_path(&self) -> (r: &String)
        ensures
            r@ == self.shell()@,
    {
        &self.shell
    }

    pub fn current_directory(&self) -> (r: &String)
        ensures
            r@ == self.working_directory()@,
    {
        &self.working_directory
    }

    pub fn set_working_directory(&mut self, dir: &str)
        ensures
            final(self).working_directory()@ == dir@,
            final(self).shell()@ == old(self).shell()@,
            pairs_view(final(self).env_vars()@) == pairs_view(old(self).env_vars()@),
    {
        self.working_directory = dir.to_string();
    }

    pub fn add_env_var(&mut self, key: &str, value: &str)
        ensures
            pairs_view(final(self).env_vars()@) == pairs_view(old(self).env_vars()@).push(
                (key@, value@),
            ),
            final(self).shell()@ == old(self).shell()@,
            final(self).working_directory()@ == old(self).working_directory()@,
    {
        self.env_vars.push((key.to_string(), value.to_string()));
        assert(pairs_view(self.env_vars@) =~= pairs_view(old(self).env_vars@).push((key@, value@)));
    }

    /// The environment the child gets: the caller's variables in order, then
    /// `TERM=xterm-256color`, which is set last and so wins.
    pub fn child_environment(&self) -> (r: Vec<(String, String)>)
        ensures
            pairs_view(r@) == pairs_view(self.env_vars()@).push(term_entry()),
    {
        let mut r = copy_pairs(&self.env_vars);
        let k = "TERM";
        let v = "xterm-256color";
        proof {
            reveal_strlit("TERM");
            reveal_strlit("xterm-256color");
        }
        r.push((k.to_string(), v.to_string()));
        assert(pairs_view(r@) =~= pairs_view(self.env_vars@).push(term_entry()));
        r
    }
}

} // verus!
