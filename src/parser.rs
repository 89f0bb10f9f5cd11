use vstd::prelude::*;
use vstd::slice::slice_subrange;
use crate::text::{decode_lossy, utf8_lossy};

verus! {

/// Longest escape sequence kept; a longer one is dropped and parsing resumes in `Normal`.
pub const MAX_ESCAPE_LEN: usize = 1024;

pub const ESC: u8 = 0x1b;

pub const BEL: u8 = 0x07;

/// Where the byte-stream decoder stands between two bytes.
#[derive(Debug, Clone, Copy, PartialEq, Eq, Structural)]
pub enum ParserState {
    /// Plain text and single control bytes.
    Normal,
    /// An ESC has been seen.
    Escape,
    /// Inside an operating system command (`ESC ]`).
    Osc,
    /// Inside a control sequence (`ESC [`).
    Csi,
}

/// What the decoder asks the screen to do.
#[derive(Debug, Clone, PartialEq, Eq)]
pub enum TerminalAction {
    Print(u8),
    Bell,
    Backspace,
    Tab,
    LineFeed,
    CarriageReturn,
    CursorUp(u32),
    CursorDown(u32),
    CursorForward(u32),
    CursorBackward(u32),
    CursorNextLine(u32),
    CursorPreviousLine(u32),
    /// Row and column, 1-based as received.
    CursorPosition(u32, u32),
    EraseInDisplay(u32),
    EraseInLine(u32),
    SetGraphicsRendition(Vec<u32>),
    Reset,
    ScrollUp(u32),
    SetWindowTitle(String),
    SetColorPalette(u8, String),
}

/// The mathematical value of a `TerminalAction`.
pub enum ActionModel {
    Print(u8),
    Bell,
    Backspace,
    Tab,
    LineFeed,
    CarriageReturn,
    CursorUp(u32),
    CursorDown(u32),
    CursorForward(u32),
    CursorBackward(u32),
    CursorNextLine(u32),
    CursorPreviousLine(u32),
    CursorPosition(u32, u32),
    EraseInDisplay(u32),
    EraseInLine(u32),
    SetGraphicsRendition(Seq<u32>),
    Reset,
    ScrollUp(u32),
    SetWindowTitle(Seq<char>),
    SetColorPalette(u8, Seq<char>),
}

impl View for TerminalAction {
    type V = ActionModel;

    open spec fn view(&self) -> ActionModel {
        match self {
            TerminalAction::Print(b) => ActionModel::Print(*b),
            TerminalAction::Bell => ActionModel::Bell,
            TerminalAction::Backspace => ActionModel::Backspace,
            TerminalAction::Tab => ActionModel::Tab,
            TerminalAction::LineFeed => ActionModel::LineFeed,
            TerminalAction::CarriageReturn => ActionModel::CarriageReturn,
            TerminalAction::CursorUp(n) => ActionModel::CursorUp(*n),
            TerminalAction::CursorDown(n) => ActionModel::CursorDown(*n),
            TerminalAction::CursorForward(n) => ActionModel::CursorForward(*n),
            TerminalAction::CursorBackward(n) => ActionModel::CursorBackward(*n),
            TerminalAction::CursorNextLine(n) => ActionModel::CursorNextLine(*n),
            TerminalAction::CursorPreviousLine(n) => ActionModel::CursorPreviousLine(*n),
            TerminalAction::CursorPosition(r, c) => ActionModel::CursorPosition(*r, *c),
            TerminalAction::EraseInDisplay(n) => ActionModel::EraseInDisplay(*n),
            TerminalAction::EraseInLine(n) => ActionModel::EraseInLine(*n),
            TerminalAction::SetGraphicsRendition(p) => ActionModel::SetGraphicsRendition(p@),
            TerminalAction::Reset => ActionModel::Reset,
            TerminalAction::ScrollUp(n) => ActionModel::ScrollUp(*n),
            TerminalAction::SetWindowTitle(t) => ActionModel::SetWindowTitle(t@),
            TerminalAction::SetColorPalette(i, c) => ActionModel::SetColorPalette(*i, c@),
        }
    }
}

pub open spec fn actions_view(v: Seq<TerminalAction>) -> Seq<ActionModel> {
    v.map_values(|a: TerminalAction| a@)
}

pub open spec fn option_view(o: Option<TerminalAction>) -> Option<ActionModel> {
    match o {
        Some(a) => Some(a@),
        None => None,
    }
}

pub open spec fn option_seq(o: Option<ActionModel>) -> Seq<ActionModel> {
    match o {
        Some(a) => seq![a],
        None => seq![],
    }
}

// ---------------------------------------------------------------------------
// Numbers and fields

pub open spec fn is_digit(c: u8) -> bool {
    48 <= c <= 57
}

pub open spec fn all_digits(s: Seq<u8>) -> bool {
    forall|i: int| 0 <= i < s.len() ==> is_digit(#[trigger] s[i])
}

/// The value of a string of decimal digits.
pub open spec fn digits_value(s: Seq<u8>) -> nat
    decreases s.len(),
{
    if s.len() == 0 {
        0
    } else {
        digits_value(s.drop_last()) * 10 + (s.last() - 48) as nat
    }
}

/// A field without the one `+` sign that may lead it.
pub open spec fn unsigned_part(s: Seq<u8>) -> Seq<u8> {
    if s.len() > 0 && s[0] == 43 {
        s.drop_first()
    } else {
        s
    }
}

/// The number that a field writes in decimal (an optional `+`, then at least
/// one digit), if it is no greater than `max`.
pub open spec fn field_number(s: Seq<u8>, max: u32) -> Option<u32> {
    let d = unsigned_part(s);
    if d.len() > 0 && all_digits(d) && digits_value(d) <= max {
        Some(digits_value(d) as u32)
    } else {
        None
    }
}

/// The `;`-separated fields of a parameter string (one field if it has no `;`).
pub open spec fn split_fields(s: Seq<u8>) -> Seq<Seq<u8>>
    decreases s.len(),
{
    if s.len() == 0 {
        seq![Seq::empty()]
    } else {
        let f = split_fields(s.drop_last());
        if s.last() == 59 {
            f.push(Seq::empty())
        } else {
            f.update(f.len() - 1, f.last().push(s.last()))
        }
    }
}

/// Each field of a parameter string as a number, `None` where it is empty or not numeric.
pub open spec fn field_values(s: Seq<u8>) -> Seq<Option<u32>> {
    split_fields(s).map_values(|f: Seq<u8>| field_number(f, u32::MAX))
}

/// Field `i`, or `d` where it is missing, empty or not numeric.
pub open spec fn value_or(v: Seq<Option<u32>>, i: int, d: u32) -> u32 {
    if 0 <= i < v.len() && v[i] is Some {
        v[i]->0
    } else {
        d
    }
}

/// The parameters of a graphics rendition: none for an empty string, else each
/// field with 0 in place of an empty or non-numeric one.
pub open spec fn sgr_params(p: Seq<u8>) -> Seq<u32> {
    if p.len() == 0 {
        seq![]
    } else {
        let v = field_values(p);
        Seq::new(v.len(), |i: int| value_or(v, i, 0))
    }
}

/// The first position of `c` in `s` at or after `i`, or `s.len()` if there is none.
pub open spec fn find_from(s: Seq<u8>, c: u8, i: nat) -> nat
    decreases s.len() - i,
{
    if i >= s.len() {
        s.len()
    } else if s[i as int] == c {
        i
    } else {
        find_from(s, c, i + 1)
    }
}

// ---------------------------------------------------------------------------
// The decoder as a state machine

pub struct ParserModel {
    pub state: ParserState,
    pub buffer: Seq<u8>,
}

impl ParserModel {
    /// The accumulator is bounded, holds `ESC` alone in `Escape`, and holds
    /// the introducer in `Csi` and `Osc`.
    pub open spec fn wf(self) -> bool {
        &&& self.buffer.len() <= MAX_ESCAPE_LEN + 1
        &&& self.state == ParserState::Escape ==> self.buffer.len() == 1
        &&& (self.state == ParserState::Csi || self.state == ParserState::Osc) ==> 2
            <= self.buffer.len() <= MAX_ESCAPE_LEN
        &&& self.state == ParserState::Osc ==> self.buffer[1] == 93
    }
}

pub open spec fn initial_model() -> ParserModel {
    ParserModel { state: ParserState::Normal, buffer: seq![] }
}

/// The action of a byte in `Normal` state other than ESC.
pub open spec fn control_action(b: u8) -> ActionModel {
    if b == 0x07 {
        ActionModel::Bell
    } else if b == 0x08 {
        ActionModel::Backspace
    } else if b == 0x09 {
        ActionModel::Tab
    } else if b == 0x0a {
        ActionModel::LineFeed
    } else if b == 0x0d {
        ActionModel::CarriageReturn
    } else {
        ActionModel::Print(b)
    }
}

/// Two-byte escapes `ESC b`.
pub open spec fn simple_escape_action(b: u8) -> Option<ActionModel> {
    if b == 65 {
        Some(ActionModel::CursorUp(1))
    } else if b == 66 {
        Some(ActionModel::CursorDown(1))
    } else if b == 67 {
        Some(ActionModel::CursorForward(1))
    } else if b == 68 {
        Some(ActionModel::CursorBackward(1))
    } else if b == 69 {
        Some(ActionModel::CursorNextLine(1))
    } else if b == 70 {
        Some(ActionModel::CursorPreviousLine(1))
    } else if b == 72 {
        Some(ActionModel::CursorPosition(1, 1))
    } else if b == 74 {
        Some(ActionModel::EraseInDisplay(0))
    } else if b == 75 {
        Some(ActionModel::EraseInLine(0))
    } else if b == 77 {
        Some(ActionModel::ScrollUp(1))
    } else if b == 99 {
        Some(ActionModel::Reset)
    } else {
        None
    }
}

/// A control sequence with parameter string `p` and final byte `f`.
pub open spec fn csi_action(p: Seq<u8>, f: u8) -> Option<ActionModel> {
    let v = field_values(p);
    if f == 109 {
        Some(ActionModel::SetGraphicsRendition(sgr_params(p)))
    } else if f == 72 || f == 102 {
        Some(ActionModel::CursorPosition(value_or(v, 0, 1), value_or(v, 1, 1)))
    } else if f == 74 {
        Some(ActionModel::EraseInDisplay(value_or(v, 0, 0)))
    } else if f == 75 {
        Some(ActionModel::EraseInLine(value_or(v, 0, 0)))
    } else if f == 65 {
        Some(ActionModel::CursorUp(value_or(v, 0, 1)))
    } else if f == 66 {
        Some(ActionModel::CursorDown(value_or(v, 0, 1)))
    } else if f == 67 {
        Some(ActionModel::CursorForward(value_or(v, 0, 1)))
    } else if f == 68 {
        Some(ActionModel::CursorBackward(value_or(v, 0, 1)))
    } else {
        None
    }
}

/// An operating system command with content `d` (between `ESC ]` and the terminator).
pub open spec fn osc_action(d: Seq<u8>) -> Option<ActionModel> {
    let p = find_from(d, 59, 0) as int;
    if p >= d.len() {
        None
    } else {
        let cmd = d.subrange(0, p);
        let args = d.subrange(p + 1, d.len() as int);
        if cmd == seq![48u8] || cmd == seq![50u8] {
            Some(ActionModel::SetWindowTitle(utf8_lossy(args)))
        } else if cmd == seq![52u8] {
            let q = find_from(args, 59, 0) as int;
            if q >= args.len() {
                None
            } else {
                match field_number(args.subrange(0, q), 255) {
                    Some(i) => Some(
                        ActionModel::SetColorPalette(
                            i as u8,
                            utf8_lossy(args.subrange(q + 1, args.len() as int)),
                        ),
                    ),
                    None => None,
                }
            }
        } else {
            None
        }
    }
}

pub open spec fn is_final_byte(b: u8) -> bool {
    0x40 <= b <= 0x7e
}

/// One byte: the next model and the actions it emits.
pub open spec fn step(m: ParserModel, b: u8) -> (ParserModel, Seq<ActionModel>) {
    match m.state {
        ParserState::Normal => {
            if b == ESC {
                (ParserModel { state: ParserState::Escape, buffer: seq![b] }, seq![])
            } else {
                (m, seq![control_action(b)])
            }
        },
        ParserState::Escape => {
            let buf = m.buffer.push(b);
            if b == 93 {
                (ParserModel { state: ParserState::Osc, buffer: buf }, seq![])
            } else if b == 91 {
                (ParserModel { state: ParserState::Csi, buffer: buf }, seq![])
            } else {
                (
                    ParserModel { state: ParserState::Normal, buffer: buf },
                    option_seq(simple_escape_action(b)),
                )
            }
        },
        ParserState::Csi => {
            let buf = m.buffer.push(b);
            let done = is_final_byte(b);
            let out = if done {
                option_seq(csi_action(buf.subrange(2, buf.len() - 1), b))
            } else {
                seq![]
            };
            let state = if done || buf.len() > MAX_ESCAPE_LEN {
                ParserState::Normal
            } else {
                ParserState::Csi
            };
            (ParserModel { state, buffer: buf }, out)
        },
        ParserState::Osc => {
            let buf = m.buffer.push(b);
            let bel = b == BEL;
            let st = b == 0x5c && buf.len() >= 2 && buf[buf.len() - 2] == ESC;
            let out = if bel {
                option_seq(osc_action(buf.subrange(2, buf.len() - 1)))
            } else if st {
                option_seq(osc_action(buf.subrange(2, buf.len() - 2)))
            } else {
                seq![]
            };
            let state = if bel || st || buf.len() > MAX_ESCAPE_LEN {
                ParserState::Normal
            } else {
                ParserState::Osc
            };
            (ParserModel { state, buffer: buf }, out)
        },
    }
}

/// A whole byte string, one byte after another.
pub open spec fn run(m: ParserModel, bytes: Seq<u8>) -> (ParserModel, Seq<ActionModel>)
    decreases bytes.len(),
{
    if bytes.len() == 0 {
        (m, seq![])
    } else {
        let (m1, out1) = run(m, bytes.drop_last());
        let (m2, out2) = step(m1, bytes.last());
        (m2, out1 + out2)
    }
}

/// Splitting the input anywhere changes nothing: parsing `a` and then `b` with
/// the state carried over gives the final state and the actions of parsing
/// `a + b` at once.
pub proof fn lemma_parse_chunks(m: ParserModel, a: Seq<u8>, b: Seq<u8>)
    ensures
        run(m, a + b).0 == run(run(m, a).0, b).0,
        run(m, a + b).1 == run(m, a).1 + run(run(m, a).0, b).1,
    decreases b.len(),
{
    if b.len() == 0 {
        assert(a + b =~= a);
        assert(run(m, a).1 + run(run(m, a).0, b).1 =~= run(m, a).1);
    } else {
        lemma_parse_chunks(m, a, b.drop_last());
        assert((a + b).drop_last() =~= a + b.drop_last());
        assert((a + b).last() == b.last());
        let m1 = run(m, a).0;
        let o1 = run(m, a).1;
        let r = run(m1, b.drop_last());
        let s = step(r.0, b.last());
        assert(o1 + (r.1 + s.1) =~= (o1 + r.1) + s.1);
    }
}

/// Stepping keeps the model well formed.
pub proof fn lemma_step_wf(m: ParserModel, b: u8)
    requires
        m.wf(),
    ensures
        step(m, b).0.wf(),
{
}

proof fn lemma_digits_prefix(s: Seq<u8>, k: int)
    requires
        0 <= k <= s.len(),
        all_digits(s),
    ensures
        digits_value(s.subrange(0, k)) <= digits_value(s),
    decreases s.len(),
{
    if k < s.len() {
        let t = s.drop_last();
        assert(all_digits(t)) by {
            assert forall|i: int| 0 <= i < t.len() implies is_digit(#[trigger] t[i]) by {
                assert(t[i] == s[i]);
            }
        }
        lemma_digits_prefix(t, k);
        assert(t.subrange(0, k) =~= s.subrange(0, k));
    } else {
        assert(s.subrange(0, k) =~= s);
    }
}

// ---------------------------------------------------------------------------
// Executable decoding helpers

/// The number in `buf[lo..hi]`, read as `field_number` says.
fn parse_field(buf: &Vec<u8>, lo: usize, hi: usize, max: u32) -> (r: Option<u32>)
    requires
        lo <= hi <= buf.len(),
    ensures
        r == field_number(buf@.subrange(lo as int, hi as int), max),
{
    let ghost s = buf@.subrange(lo as int, hi as int);
    let mut i = lo;
    if i < hi && buf[i] == 43 {
        i = i + 1;
    }
    let start = i;
    let ghost d = unsigned_part(s);
    assert(d =~= buf@.subrange(start as int, hi as int));
    if i == hi {
        return None;
    }
    let mut acc: u64 = 0;
    while i < hi
        invariant
            lo <= start <= i <= hi <= buf.len(),
            start < hi,
            d == buf@.subrange(start as int, hi as int),
            d == unsigned_part(s),
            s == buf@.subrange(lo as int, hi as int),
            forall|j: int| start <= j < i ==> is_digit(#[trigger] buf@[j]),
            acc == digits_value(buf@.subrange(start as int, i as int)),
            acc <= max,
        decreases hi - i,
    {
        let c = buf[i];
        if c < 48 || c > 57 {
            assert(d[i - start] == c);
            assert(!all_digits(d));
            return None;
        }
        let ghost pre = buf@.subrange(start as int, i + 1);
        assert(pre.drop_last() =~= buf@.subrange(start as int, i as int));
        acc = acc * 10 + (c - 48) as u64;
        if acc > max as u64 {
            proof {
                if all_digits(d) {
                    lemma_digits_prefix(d, i + 1 - start);
                    assert(d.subrange(0, i + 1 - start) =~= pre);
                }
            }
            return None;
        }
        i = i + 1;
    }
    assert(buf@.subrange(start as int, i as int) =~= d);
    assert(all_digits(d)) by {
        assert forall|j: int| 0 <= j < d.len() implies is_digit(#[trigger] d[j]) by {
            assert(d[j] == buf@[start + j]);
        }
    }
    Some(acc as u32)
}

/// The field values of `buf[lo..hi]`.
fn parse_fields(buf: &Vec<u8>, lo: usize, hi: usize) -> (r: Vec<Option<u32>>)
    requires
        lo <= hi <= buf.len(),
    ensures
        r@ == field_values(buf@.subrange(lo as int, hi as int)),
{
    let mut vals: Vec<Option<u32>> = Vec::new();
    let ghost done: Seq<Seq<u8>> = seq![];
    let mut start = lo;
    let mut i = lo;
    assert(buf@.subrange(lo as int, lo as int) =~= Seq::<u8>::empty());
    assert(split_fields(Seq::<u8>::empty()) =~= done.push(buf@.subrange(start as int, i as int)));
    while i < hi
        invariant
            lo <= start <= i <= hi <= buf.len(),
            split_fields(buf@.subrange(lo as int, i as int)) == done.push(
                buf@.subrange(start as int, i as int),
            ),
            vals@ == done.map_values(|f: Seq<u8>| field_number(f, u32::MAX)),
        decreases hi - i,
    {
        let c = buf[i];
        let ghost cur = buf@.subrange(start as int, i as int);
        let ghost pre = buf@.subrange(lo as int, i + 1);
        assert(pre.drop_last() =~= buf@.subrange(lo as int, i as int));
        assert(pre.last() == c);
        if c == 59 {
            let v = parse_field(buf, start, i, u32::MAX);
            vals.push(v);
            proof {
                assert(done.push(cur).map_values(|f: Seq<u8>| field_number(f, u32::MAX))
                    =~= done.map_values(|f: Seq<u8>| field_number(f, u32::MAX)).push(v));
                done = done.push(cur);
                assert(buf@.subrange(i + 1, i + 1) =~= Seq::<u8>::empty());
            }
            start = i + 1;
        } else {
            proof {
                assert(buf@.subrange(start as int, i + 1) =~= cur.push(c));
                assert(done.push(cur).update(done.len() as int, cur.push(c)) =~= done.push(
                    cur.push(c),
                ));
            }
        }
        i = i + 1;
    }
    let v = parse_field(buf, start, hi, u32::MAX);
    vals.push(v);
    proof {
        let cur = buf@.subrange(start as int, hi as int);
        assert(done.push(cur).map_values(|f: Seq<u8>| field_number(f, u32::MAX))
            =~= done.map_values(|f: Seq<u8>| field_number(f, u32::MAX)).push(v));
    }
    vals
}

fn value_or_exec(v: &Vec<Option<u32>>, i: usize, d: u32) -> (r: u32)
    ensures
        r == value_or(v@, i as int, d),
{
    if i < v.len() {
        match v[i] {
            Some(x) => x,
            None => d,
        }
    } else {
        d
    }
}

/// The first `c` in `buf[lo..hi]`, as an offset from `lo` (`hi - lo` if none).
fn find_byte(buf: &Vec<u8>, lo: usize, hi: usize, c: u8) -> (r: usize)
    requires
        lo <= hi <= buf.len(),
    ensures
        r == find_from(buf@.subrange(lo as int, hi as int), c, 0),
        r <= hi - lo,
{
    let ghost s = buf@.subrange(lo as int, hi as int);
    let mut i = lo;
    while i < hi
        invariant
            lo <= i <= hi <= buf.len(),
            s == buf@.subrange(lo as int, hi as int),
            find_from(s, c, 0) == find_from(s, c, (i - lo) as nat),
        decreases hi - i,
    {
        assert(s[i - lo] == buf@[i as int]);
        if buf[i] == c {
            return i - lo;
        }
        i = i + 1;
    }
    i - lo
}

fn control_action_exec(b: u8) -> (r: TerminalAction)
    ensures
        r@ == control_action(b),
{
    if b == 0x07 {
        TerminalAction::Bell
    } else if b == 0x08 {
        TerminalAction::Backspace
    } else if b == 0x09 {
        TerminalAction::Tab
    } else if b == 0x0a {
        TerminalAction::LineFeed
    } else if b == 0x0d {
        TerminalAction::CarriageReturn
    } else {
        TerminalAction::Print(b)
    }
}

fn simple_escape(b: u8) -> (r: Option<TerminalAction>)
    ensures
        option_view(r) == simple_escape_action(b),
{
    if b == 65 {
        Some(TerminalAction::CursorUp(1))
    } else if b == 66 {
        Some(TerminalAction::CursorDown(1))
    } else if b == 67 {
        Some(TerminalAction::CursorForward(1))
    } else if b == 68 {
        Some(TerminalAction::CursorBackward(1))
    } else if b == 69 {
        Some(TerminalAction::CursorNextLine(1))
    } else if b == 70 {
        Some(TerminalAction::CursorPreviousLine(1))
    } else if b == 72 {
        Some(TerminalAction::CursorPosition(1, 1))
    } else if b == 74 {
        Some(TerminalAction::EraseInDisplay(0))
    } else if b == 75 {
        Some(TerminalAction::EraseInLine(0))
    } else if b == 77 {
        Some(TerminalAction::ScrollUp(1))
    } else if b == 99 {
        Some(TerminalAction::Reset)
    } else {
        None
    }
}

/// The graphics rendition parameters of `buf[lo..hi]`.
fn sgr_params_exec(buf: &Vec<u8>, lo: usize, hi: usize) -> (r: Vec<u32>)
    requires
        lo <= hi <= buf.len(),
    ensures
        r@ == sgr_params(buf@.subrange(lo as int, hi as int)),
{
    let mut out: Vec<u32> = Vec::new();
    if lo == hi {
        return out;
    }
    let v = parse_fields(buf, lo, hi);
    let mut i: usize = 0;
    while i < v.len()
        invariant
            i <= v.len(),
            out@ =~= Seq::new(i as nat, |j: int| value_or(v@, j, 0)),
        decreases v.len() - i,
    {
        let x = value_or_exec(&v, i, 0);
        out.push(x);
        i = i + 1;
    }
    out
}

/// The action of a control sequence with parameters `buf[lo..hi]` and final byte `f`.
fn csi_dispatch(buf: &Vec<u8>, lo: usize, hi: usize, f: u8) -> (r: Option<TerminalAction>)
    requires
        lo <= hi <= buf.len(),
    ensures
        option_view(r) == csi_action(buf@.subrange(lo as int, hi as int), f),
{
    if f == 109 {
        return Some(TerminalAction::SetGraphicsRendition(sgr_params_exec(buf, lo, hi)));
    }
    if !(f == 72 || f == 102 || f == 74 || f == 75 || (65 <= f && f <= 68)) {
        return None;
    }
    let v = parse_fields(buf, lo, hi);
    if f == 72 || f == 102 {
        Some(TerminalAction::CursorPosition(value_or_exec(&v, 0, 1), value_or_exec(&v, 1, 1)))
    } else if f == 74 {
        Some(TerminalAction::EraseInDisplay(value_or_exec(&v, 0, 0)))
    } else if f == 75 {
        Some(TerminalAction::EraseInLine(value_or_exec(&v, 0, 0)))
    } else if f == 65 {
        Some(TerminalAction::CursorUp(value_or_exec(&v, 0, 1)))
    } else if f == 66 {
        Some(TerminalAction::CursorDown(value_or_exec(&v, 0, 1)))
    } else if f == 67 {
        Some(TerminalAction::CursorForward(value_or_exec(&v, 0, 1)))
    } else {
        Some(TerminalAction::CursorBackward(value_or_exec(&v, 0, 1)))
    }
}

/// The action of an operating system command whose content is `buf[lo..hi]`.
fn osc_dispatch(buf: &Vec<u8>, lo: usize, hi: usize) -> (r: Option<TerminalAction>)
    requires
        lo <= hi <= buf.len(),
    ensures
        option_view(r) == osc_action(buf@.subrange(lo as int, hi as int)),
{
    let ghost d = buf@.subrange(lo as int, hi as int);
    let p = find_byte(buf, lo, hi, 59);
    if p == hi - lo {
        return None;
    }
    let ghost cmd = d.subrange(0, p as int);
    let a = lo + p + 1;
    let ghost args = d.subrange(p + 1, d.len() as int);
    assert(args =~= buf@.subrange(a as int, hi as int));
    assert(cmd =~= buf@.subrange(lo as int, lo + p));
    if p == 1 && (buf[lo] == 48 || buf[lo] == 50) {
        assert(cmd =~= seq![buf@[lo as int]]);
        let title = decode_lossy(slice_subrange(buf.as_slice(), a, hi));
        return Some(TerminalAction::SetWindowTitle(title));
    }
    if !(p == 1 && buf[lo] == 52) {
        proof {
            if cmd.len() == 1 {
                assert(cmd[0] == buf@[lo as int]);
            }
            assert(cmd != seq![48u8] && cmd != seq![50u8] && cmd != seq![52u8]) by {
                if cmd.len() == 1 {
                    assert(seq![48u8][0] == 48 && seq![50u8][0] == 50 && seq![52u8][0] == 52);
                }
            }
        }
        return None;
    }
    assert(cmd =~= seq![52u8]);
    assert(cmd != seq![48u8] && cmd != seq![50u8]) by {
        assert(cmd[0] == 52);
        assert(seq![48u8][0] == 48 && seq![50u8][0] == 50);
    }
    let q = find_byte(buf, a, hi, 59);
    if q == hi - a {
        return None;
    }
    assert(args.subrange(0, q as int) =~= buf@.subrange(a as int, a + q));
    assert(args.subrange(q + 1, args.len() as int) =~= buf@.subrange(a + q + 1, hi as int));
    match parse_field(buf, a, a + q, 255) {
        Some(i) => {
            let color = decode_lossy(slice_subrange(buf.as_slice(), a + q + 1, hi));
            Some(TerminalAction::SetColorPalette(i as u8, color))
        },
        None => None,
    }
}

// ---------------------------------------------------------------------------
// The decoder

/// Turns the bytes a child process writes into terminal actions, keeping its
/// place across calls.
pub struct TerminalParser {
    state: ParserState,
    escape_buffer: Vec<u8>,
}

impl View for TerminalParser {
    type V = ParserModel;

    closed spec fn view(&self) -> ParserModel {
        ParserModel { state: self.state, buffer: self.escape_buffer@ }
    }
}

impl TerminalParser {
    /// A decoder in `Normal` state with an empty accumulator.
    pub fn new() -> (p: Self)
        ensures
            p@ == initial_model(),
            p@.wf(),
    {
        let p = TerminalParser { state: ParserState::Normal, escape_buffer: Vec::new() };
        assert(p@.buffer =~= Seq::<u8>::empty());
        p
    }

    fn push_action(actions: &mut Vec<TerminalAction>, a: Option<TerminalAction>)
        ensures
            actions_view(final(actions)@) == actions_view(old(actions)@) + option_seq(
                option_view(a),
            ),
    {
        match a {
            Some(x) => {
                actions.push(x);
                assert(actions_view(actions@) =~= actions_view(old(actions)@) + seq![x@]);
            },
            None => {
                assert(actions_view(actions@) =~= actions_view(old(actions)@) + seq![]);
            },
        }
    }

    /// Feeds one byte.
    fn advance(&mut self, byte: u8, actions: &mut Vec<TerminalAction>)
        requires
            old(self)@.wf(),
        ensures
            final(self)@ == step(old(self)@, byte).0,
            final(self)@.wf(),
            actions_view(final(actions)@) == actions_view(old(actions)@) + step(
                old(self)@,
                byte,
            ).1,
    {
        proof {
            lemma_step_wf(self@, byte);
        }
        match self.state {
            ParserState::Normal => {
                if byte == ESC {
                    self.escape_buffer.clear();
                    self.escape_buffer.push(byte);
                    self.state = ParserState::Escape;
                    assert(self.escape_buffer@ =~= seq![byte]);
                    assert(actions_view(actions@) =~= actions_view(actions@) + seq![]);
                } else {
                    let a = control_action_exec(byte);
                    actions.push(a);
                    assert(actions_view(actions@) =~= actions_view(old(actions)@) + seq![a@]);
                }
            },
            ParserState::Escape => {
                self.escape_buffer.push(byte);
                if byte == 93 {
                    self.state = ParserState::Osc;
                    assert(actions_view(actions@) =~= actions_view(actions@) + seq![]);
                } else if byte == 91 {
                    self.state = ParserState::Csi;
                    assert(actions_view(actions@) =~= actions_view(actions@) + seq![]);
                } else {
                    Self::push_action(actions, simple_escape(byte));
                    self.state = ParserState::Normal;
                }
            },
            ParserState::Csi => {
                self.escape_buffer.push(byte);
                let len = self.escape_buffer.len();
                if 0x40 <= byte && byte <= 0x7e {
                    let a = csi_dispatch(&self.escape_buffer, 2, len - 1, byte);
                    Self::push_action(actions, a);
                    self.state = ParserState::Normal;
                } else {
                    assert(actions_view(actions@) =~= actions_view(actions@) + seq![]);
                }
                if len > MAX_ESCAPE_LEN {
                    self.state = ParserState::Normal;
                }
            },
            ParserState::Osc => {
                self.escape_buffer.push(byte);
                let len = self.escape_buffer.len();
                if byte == BEL {
                    let a = osc_dispatch(&self.escape_buffer, 2, len - 1);
                    Self::push_action(actions, a);
                    self.state = ParserState::Normal;
                } else if byte == 0x5c && self.escape_buffer[len - 2] == ESC {
                    assert(len >= 4);
                    let a = osc_dispatch(&self.escape_buffer, 2, len - 2);
                    Self::push_action(actions, a);
                    self.state = ParserState::Normal;
                } else {
                    assert(actions_view(actions@) =~= actions_view(actions@) + seq![]);
                }
                if len > MAX_ESCAPE_LEN {
                    self.state = ParserState::Normal;
                }
            },
        }
    }

    /// Decodes `data`, continuing from where the previous call stopped.
    /// Never fails: a malformed or overlong sequence is dropped.
    pub fn parse(&mut self, data: &[u8]) -> (actions: Vec<TerminalAction>)
        requires
            old(self)@.wf(),
        ensures
            final(self)@ == run(old(self)@, data@).0,
            final(self)@.wf(),
            actions_view(actions@) == run(old(self)@, data@).1,
    {
        let ghost m0 = self@;
        let mut actions: Vec<TerminalAction> = Vec::new();
        let mut i: usize = 0;
        assert(data@.subrange(0, 0) =~= Seq::<u8>::empty());
        assert(actions_view(actions@) =~= Seq::<ActionModel>::empty());
        while i < data.len()
            invariant
                i <= data.len(),
                self@.wf(),
                self@ == run(m0, data@.subrange(0, i as int)).0,
                actions_view(actions@) == run(m0, data@.subrange(0, i as int)).1,
            decreases data.len() - i,
        {
            let ghost pre = data@.subrange(0, i + 1);
            assert(pre.drop_last() =~= data@.subrange(0, i as int));
            assert(pre.last() == data@[i as int]);
            self.advance(data[i], &mut actions);
            i = i + 1;
        }
        assert(data@.subrange(0, i as int) =~= data@);
        actions
    }
}

impl Default for TerminalParser {
    fn default() -> (p: Self)
        ensures
            p@ == initial_model(),
    {
        Self::new()
    }
}

} // verus!
