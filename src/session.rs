use vstd::prelude::*;

use crate::classify::same_text;

verus! {

/// One operator command of an interactive session.
#[derive(Clone, Copy, Debug, PartialEq, Eq, Structural)]
pub enum Command {
    Quit,
    ExpandAll,
    CollapseAll,
    Toggle(usize),
    Ignore,
}

/// What `str::trim` leaves of a line.
pub uninterp spec fn trim_of(s: Seq<char>) -> Seq<char>;

/// Relies on `str::trim`: the line without leading and trailing whitespace.
#[verifier::external_body]
fn trim_line(s: &str) -> (r: &str)
    ensures
        r@ == trim_of(s@),
{
    s.trim()
}

pub open spec fn is_digit(c: char) -> bool {
    '0' <= c && c <= '9'
}

/// The value of a sequence of decimal digits.
pub open spec fn digits_value(s: Seq<char>) -> nat
    decreases s.len(),
{
    if s.len() == 0 {
        0
    } else {
        digits_value(s.drop_last()) * 10 + ((s.last() as u32) - ('0' as u32)) as nat
    }
}

/// The `usize` that a text denotes: an optional `+` and then one or more
/// decimal digits, whose value fits.
pub open spec fn usize_of_text(s: Seq<char>) -> Option<usize> {
    let d = if s.len() > 0 && s[0] == '+' {
        s.drop_first()
    } else {
        s
    };
    if d.len() > 0 && (forall|i: int| 0 <= i < d.len() ==> is_digit(#[trigger] d[i]))
        && digits_value(d) <= usize::MAX {
        Some(digits_value(d) as usize)
    } else {
        None
    }
}

/// Relies on `<usize as FromStr>::from_str`: it accepts an optional `+`
/// followed by decimal digits, and fails when the value overflows.
#[verifier::external_body]
fn parse_usize(s: &str) -> (r: Option<usize>)
    ensures
        r == usize_of_text(s@),
{
    s.parse::<usize>().ok()
}

/// The command that a trimmed line stands for in a session over `count`
/// resources.
pub open spec fn command_of(s: Seq<char>, count: nat) -> Command {
    if s == "q"@ {
        Command::Quit
    } else if s == "a"@ {
        Command::ExpandAll
    } else if s == "c"@ {
        Command::CollapseAll
    } else {
        match usize_of_text(s) {
            Some(n) => if n < count {
                Command::Toggle(n)
            } else {
                Command::Ignore
            },
            None => Command::Ignore,
        }
    }
}

/// The command of a line whose surrounding whitespace is already removed.
pub fn parse_command(trimmed: &str, count: usize) -> (c: Command)
    ensures
        c == command_of(trimmed@, count as nat),
{
    if same_text(trimmed, "q") {
        Command::Quit
    } else if same_text(trimmed, "a") {
        Command::ExpandAll
    } else if same_text(trimmed, "c") {
        Command::CollapseAll
    } else {
        match parse_usize(trimmed) {
            Some(n) => if n < count {
                Command::Toggle(n)
            } else {
                Command::Ignore
            },
            None => Command::Ignore,
        }
    }
}

/// The command of one line of input; the end of input quits.
pub fn next_command(line: Option<&str>, count: usize) -> (c: Command)
    ensures
        c == match line {
            Some(l) => command_of(trim_of(l@), count as nat),
            None => Command::Quit,
        },
{
    match line {
        Some(l) => parse_command(trim_line(l), count),
        None => Command::Quit,
    }
}

/// The expanded flags after a command.
pub open spec fn step(state: Seq<bool>, cmd: Command) -> Seq<bool> {
    match cmd {
        Command::ExpandAll => Seq::new(state.len(), |i: int| true),
        Command::CollapseAll => Seq::new(state.len(), |i: int| false),
        Command::Toggle(n) => if n < state.len() {
            state.update(n as int, !state[n as int])
        } else {
            state
        },
        _ => state,
    }
}

/// Which resources of a plan are expanded, by position, and whether the
/// session goes on.
#[derive(Debug)]
pub struct InteractiveSession {
    expanded: Vec<bool>,
    running: bool,
}

impl View for InteractiveSession {
    type V = Seq<bool>;

    closed spec fn view(&self) -> Seq<bool> {
        self.expanded@
    }
}

impl InteractiveSession {
    pub closed spec fn is_running(&self) -> bool {
        self.running
    }

    /// A running session over `count` resources, none expanded.
    pub fn new(count: usize) -> (s: InteractiveSession)
        ensures
            s@ == Seq::new(count as nat, |i: int| false),
            s.is_running(),
    {
        let mut expanded: Vec<bool> = Vec::new();
        let mut i: usize = 0;
        while i < count
            invariant
                i <= count,
                expanded@ == Seq::new(i as nat, |j: int| false),
            decreases count - i,
        {
            expanded.push(false);
            assert(expanded@ =~= Seq::new((i + 1) as nat, |j: int| false));
            i = i + 1;
        }
        InteractiveSession { expanded, running: true }
    }

    /// How many resources the session covers.
    pub fn len(&self) -> (r: usize)
        ensures
            r == self@.len(),
    {
        self.expanded.len()
    }

    /// Whether the resource at `i` is expanded.
    pub fn is_expanded(&self, i: usize) -> (r: bool)
        requires
            i < self@.len(),
        ensures
            r == self@[i as int],
    {
        self.expanded[i]
    }

    /// Whether the session goes on.
    pub fn running(&self) -> (r: bool)
        ensures
            r == self.is_running(),
    {
        self.running
    }

    /// Carries out one command.
    pub fn apply(&mut self, cmd: Command)
        ensures
            final(self)@ == step(old(self)@, cmd),
            final(self).is_running() == (old(self).is_running() && cmd != Command::Quit),
    {
        let n = self.expanded.len();
        match cmd {
            Command::Quit => {
                self.running = false;
            },
            Command::ExpandAll => {
                self.fill(true);
            },
            Command::CollapseAll => {
                self.fill(false);
            },
            Command::Toggle(k) => {
                if k < n {
                    let v = self.expanded[k];
                    self.expanded.set(k, !v);
                }
            },
            Command::Ignore => {},
        }
    }

    fn fill(&mut self, v: bool)
        ensures
            final(self)@ == Seq::new(old(self)@.len(), |i: int| v),
            final(self).running == old(self).running,
    {
        let n = self.expanded.len();
        let mut i: usize = 0;
        while i < n
            invariant
                i <= n,
                n == self.expanded@.len(),
                n == old(self).expanded@.len(),
                self.running == old(self).running,
                forall|j: int| 0 <= j < i ==> self.expanded@[j] == v,
            decreases n - i,
        {
            self.expanded.set(i, v);
            i = i + 1;
        }
        assert(self@ =~= Seq::new(old(self)@.len(), |i: int| v));
    }
}

/// After expanding all, every resource is expanded.
pub proof fn lemma_expand_all(state: Seq<bool>, i: int)
    requires
        0 <= i < state.len(),
    ensures
        step(state, Command::ExpandAll)[i],
        step(state, Command::ExpandAll).len() == state.len(),
{
}

/// After collapsing all, no resource is expanded.
pub proof fn lemma_collapse_all(state: Seq<bool>, i: int)
    requires
        0 <= i < state.len(),
    ensures
        !step(state, Command::CollapseAll)[i],
        step(state, Command::CollapseAll).len() == state.len(),
{
}

/// Toggling the same resource twice restores the state.
pub proof fn lemma_toggle_twice(state: Seq<bool>, n: usize)
    ensures
        step(step(state, Command::Toggle(n)), Command::Toggle(n)) == state,
{
    if n < state.len() {
        assert(step(step(state, Command::Toggle(n)), Command::Toggle(n)) =~= state);
    }
}

/// Quitting changes no expanded flag.
pub proof fn lemma_quit_keeps_state(state: Seq<bool>)
    ensures
        step(state, Command::Quit) == state,
{
}

} // verus!
