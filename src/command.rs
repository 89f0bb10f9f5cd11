use vstd::prelude::*;
use vstd::slice::slice_subrange;
use vstd::string::*;
use crate::text::push_char;

verus! {

/// A command line as entered, with its words.
#[derive(Debug, Clone)]
pub struct Command {
    /// The text as entered.
    pub raw: String,
    /// Its words, as `tokenize` splits them.
    pub tokens: Vec<String>,
    /// Variables to set for this command.
    pub env_vars: Vec<(String, String)>,
    /// The directory to run it in.
    pub working_dir: String,
}

pub open spec fn strings_view(v: Seq<String>) -> Seq<Seq<char>> {
    v.map_values(|s: String| s@)
}

/// Where the tokenizer stands after a prefix of the line.
pub struct TokState {
    pub tokens: Seq<Seq<char>>,
    pub current: Seq<char>,
    pub in_quotes: bool,
    pub quote: char,
    pub escape_next: bool,
}

pub open spec fn tok_start() -> TokState {
    TokState {
        tokens: seq![],
        current: seq![],
        in_quotes: false,
        quote: ' ',
        escape_next: false,
    }
}

/// One character: a backslash takes the next character literally; a quote
/// opens a quoted part that only the same quote closes (the other one is
/// kept); a space or tab outside quotes ends a non-empty word; anything else
/// is part of the word.
pub open spec fn tok_step(s: TokState, c: char) -> TokState {
    if s.escape_next {
        TokState { current: s.current.push(c), escape_next: false, ..s }
    } else if c == '\\' {
        TokState { escape_next: true, ..s }
    } else if c == '"' || c == '\'' {
        if s.in_quotes {
            if c == s.quote {
                TokState { in_quotes: false, ..s }
            } else {
                TokState { current: s.current.push(c), ..s }
            }
        } else {
            TokState { in_quotes: true, quote: c, ..s }
        }
    } else if c == ' ' || c == '\t' {
        if s.in_quotes {
            TokState { current: s.current.push(c), ..s }
        } else if s.current.len() > 0 {
            TokState { tokens: s.tokens.push(s.current), current: seq![], ..s }
        } else {
            s
        }
    } else {
        TokState { current: s.current.push(c), ..s }
    }
}

pub open spec fn tok_run(chars: Seq<char>) -> TokState
    decreases chars.len(),
{
    if chars.len() == 0 {
        tok_start()
    } else {
        tok_step(tok_run(chars.drop_last()), chars.last())
    }
}

/// The words of a command line.
pub open spec fn tokens_of(chars: Seq<char>) -> Seq<Seq<char>> {
    let s = tok_run(chars);
    if s.current.len() > 0 {
        s.tokens.push(s.current)
    } else {
        s.tokens
    }
}

/// Splits a command line into words, honouring quotes and backslashes.
pub fn tokenize(input: &str) -> (r: Vec<String>)
    ensures
        strings_view(r@) == tokens_of(input@),
{
    let n = input.unicode_len();
    let mut tokens: Vec<String> = Vec::new();
    let mut current = String::new();
    let mut in_quotes = false;
    let mut quote = ' ';
    let mut escape_next = false;
    let mut i: usize = 0;
    assert(input@.subrange(0, 0) =~= Seq::<char>::empty());
    assert(strings_view(tokens@) =~= Seq::<Seq<char>>::empty());
    while i < n
        invariant
            n == input@.len(),
            i <= n,
            (TokState {
                tokens: strings_view(tokens@),
                current: current@,
                in_quotes,
                quote,
                escape_next,
            }) == tok_run(input@.subrange(0, i as int)),
        decreases n - i,
    {
        let c = input.get_char(i);
        let ghost pre = input@.subrange(0, i + 1);
        assert(pre.drop_last() =~= input@.subrange(0, i as int));
        if escape_next {
            push_char(&mut current, c);
            escape_next = false;
        } else if c == '\\' {
            escape_next = true;
        } else if c == '"' || c == '\'' {
            if in_quotes {
                if c == quote {
                    in_quotes = false;
                } else {
                    push_char(&mut current, c);
                }
            } else {
                in_quotes = true;
                quote = c;
            }
        } else if c == ' ' || c == '\t' {
            if in_quotes {
                push_char(&mut current, c);
            } else if current.unicode_len() > 0 {
                let word = current;
                tokens.push(word);
                current = String::new();
                assert(strings_view(tokens@) =~= tok_run(input@.subrange(0, i as int)).tokens.push(
                    word@,
                ));
            }
        } else {
            push_char(&mut current, c);
        }
        i = i + 1;
    }
    assert(input@.subrange(0, i as int) =~= input@);
    if current.unicode_len() > 0 {
        let word = current;
        tokens.push(word);
        assert(strings_view(tokens@) =~= tok_run(input@).tokens.push(word@));
    }
    tokens
}

impl Command {
    /// The command line `raw`, split into words, to run in `working_dir`
    /// with no extra variables.
    pub fn new(raw: &str, working_dir: &str) -> (c: Self)
        ensures
            c.raw@ == raw@,
            strings_view(c.tokens@) == tokens_of(raw@),
            c.env_vars@.len() == 0,
            c.working_dir@ == working_dir@,
    {
        Command {
            raw: raw.to_string(),
            tokens: tokenize(raw),
            env_vars: Vec::new(),
            working_dir: working_dir.to_string(),
        }
    }

    /// The first word.
    pub fn program(&self) -> (r: Option<&str>)
        ensures
            match r {
                Some(p) => self.tokens@.len() > 0 && p@ == self.tokens@[0]@,
                None => self.tokens@.len() == 0,
            },
    {
        if self.tokens.len() == 0 {
            None
        } else {
            Some(self.tokens[0].as_str())
        }
    }

    /// The words after the first.
    pub fn args(&self) -> (r: &[String])
        ensures
            r@ == if self.tokens@.len() == 0 {
                Seq::<String>::empty()
            } else {
                self.tokens@.subrange(1, self.tokens@.len() as int)
            },
    {
        let n = self.tokens.len();
        if n == 0 {
            let r = slice_subrange(self.tokens.as_slice(), 0, 0);
            assert(r@ =~= Seq::<String>::empty());
            r
        } else {
            slice_subrange(self.tokens.as_slice(), 1, n)
        }
    }

    /// The same command with `key=value` added to its variables.
    pub fn with_env_var(self, key: &str, value: &str) -> (c: Self)
        ensures
            c.env_vars@.len() == self.env_vars@.len() + 1,
            c.env_vars@.subrange(0, self.env_vars@.len() as int) == self.env_vars@,
            c.env_vars@.last().0@ == key@,
            c.env_vars@.last().1@ == value@,
            c.raw == self.raw,
            c.tokens == self.tokens,
            c.working_dir == self.working_dir,
    {
        let mut c = self;
        c.env_vars.push((key.to_string(), value.to_string()));
        assert(c.env_vars@.subrange(0, self.env_vars@.len() as int) =~= self.env_vars@);
        c
    }

    /// The same command, to run in `dir`.
    pub fn with_working_dir(self, dir: &str) -> (c: Self)
        ensures
            c.working_dir@ == dir@,
            c.raw == self.raw,
            c.tokens == self.tokens,
            c.env_vars == self.env_vars,
    {
        let mut c = self;
        c.working_dir = dir.to_string();
        c
    }

    /// The command line as entered.
    pub fn to_string(&self) -> (s: String)
        ensures
            s@ == self.raw@,
    {
        self.raw.clone()
    }
}

} // verus!
