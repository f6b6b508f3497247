//! Starting the driver process: how it is launched, how its output is
//! scanned for the line that says it is listening, and how a process that
//! exits too early is told from one that is ready.
//!
//! The caller owns the process. It spawns what [`Supervisor::launch_plan`]
//! says, hands each thing that happens to [`Supervisor::step`], and does
//! what the step answers.

use vstd::prelude::*;
use vstd::string::StringExecFns;
use crate::text::{chars_of, string_of};

verus! {

/// Whether `needle` stands in `hay` at position `i`.
pub open spec fn occurs_at(hay: Seq<char>, needle: Seq<char>, i: int) -> bool {
    0 <= i && i + needle.len() <= hay.len() && hay.subrange(i, i + needle.len()) == needle
}

/// Whether `needle` stands somewhere in `hay`.
pub open spec fn has_sub(hay: Seq<char>, needle: Seq<char>) -> bool {
    exists|i: int| occurs_at(hay, needle, i)
}

/// The character of the decimal digit `d`.
pub open spec fn digit_char(d: nat) -> char
    recommends
        d < 10,
{
    ((48 + d) as u8) as char
}

/// The decimal numeral of `n`, without leading zeros.
pub open spec fn decimal(n: nat) -> Seq<char>
    decreases n,
{
    if n < 10 {
        seq![digit_char(n)]
    } else {
        decimal(n / 10).push(digit_char(n % 10))
    }
}

/// The word that the driver prints when it is ready.
pub open spec fn listening() -> Seq<char> {
    "Listening"@
}

/// The address under which the driver is reached.
pub open spec fn local_url(port: u16) -> Seq<char> {
    "http://127.0.0.1:"@ + decimal(port as nat)
}

/// Whether an output line says that the driver listens on `port`: it holds
/// the word `Listening` and the decimal numeral of the port.
pub open spec fn is_ready_line(line: Seq<char>, port: u16) -> bool {
    has_sub(line, listening()) && has_sub(line, decimal(port as nat))
}

/// Whether `needle` stands somewhere in `hay`.
pub fn contains_chars(hay: &Vec<char>, needle: &Vec<char>) -> (r: bool)
    ensures
        r == has_sub(hay@, needle@),
{
    let n = needle.len();
    if n > hay.len() {
        assert forall|i: int| !occurs_at(hay@, needle@, i) by {}
        return false;
    }
    let last = hay.len() - n;
    let mut i: usize = 0;
    while i <= last
        invariant
            n == needle.len(),
            n <= hay.len(),
            last == hay.len() - n,
            i <= last + 1,
            forall|k: int| 0 <= k < i ==> !occurs_at(hay@, needle@, k),
        decreases last + 1 - i,
    {
        let mut j: usize = 0;
        while j < n && hay[i + j] == needle[j]
            invariant
                n == needle.len(),
                i + n <= hay.len(),
                j <= n,
                forall|k: int| 0 <= k < j ==> hay@[i + k] == needle@[k],
            decreases n - j,
        {
            j += 1;
        }
        if j == n {
            proof {
                assert(hay@.subrange(i as int, i + n) =~= needle@);
                assert(occurs_at(hay@, needle@, i as int));
            }
            return true;
        }
        proof {
            if occurs_at(hay@, needle@, i as int) {
                assert(hay@.subrange(i as int, i + n)[j as int] == needle@[j as int]);
            }
        }
        i += 1;
    }
    proof {
        assert forall|k: int| !occurs_at(hay@, needle@, k) by {}
    }
    false
}

/// The decimal numeral of `n`.
pub fn decimal_chars(n: u16) -> (r: Vec<char>)
    ensures
        r@ == decimal(n as nat),
    decreases n,
{
    let d: u8 = (n % 10) as u8;
    let c: char = (48 + d) as char;
    if n < 10 {
        let mut r: Vec<char> = Vec::new();
        r.push(c);
        assert(r@ == seq![c]);
        r
    } else {
        let mut r = decimal_chars(n / 10);
        r.push(c);
        r
    }
}

/// What to spawn, and where the driver will then be reached.
#[derive(Clone, Debug, PartialEq, Eq)]
pub struct LaunchPlan {
    /// The executable.
    pub command: String,
    /// Its arguments: verbose output, and the port to listen on.
    pub args: Vec<String>,
    /// The address of the driver once it listens.
    pub url: String,
}

/// Where the start-up stands.
#[derive(Clone, Copy, Debug, PartialEq, Eq, Structural)]
pub enum Phase {
    /// The process is not spawned yet.
    Starting,
    /// The process runs and its output is scanned.
    Scanning,
    /// The driver said that it listens.
    Ready,
    /// The process ended, or its output could not be read, before it said
    /// so.
    Failed,
}

/// Why the driver did not come up.
#[derive(Clone, Copy, Debug, PartialEq, Eq, Structural)]
pub enum ProcessError {
    /// The process exited before it said that it listens.
    Exited,
    /// The output of the process could not be read.
    ReadFailed,
}

/// What the caller saw of the process.
#[derive(Clone, Debug, PartialEq, Eq)]
pub enum Event {
    /// The process was spawned.
    Spawned,
    /// The process printed a line.
    Line(String),
    /// The process closed its output and still runs.
    OutputClosed,
    /// Reading the output failed.
    ReadFailed,
    /// The process exited.
    Exited,
}

/// What the caller does next.
#[derive(Clone, Copy, Debug, PartialEq, Eq, Structural)]
pub enum Action {
    /// Wait for the next line, or for the process to exit, whichever comes
    /// first.
    Watch,
    /// Open the session. The rest of the output goes to the diagnostic
    /// stream if `forward_output` is set, and is discarded if not.
    Connect { forward_output: bool },
    /// Give up with this error, and end the process.
    Fail(ProcessError),
    /// Nothing: the start-up is over, or has not begun.
    Idle,
}

/// The phase that follows `phase` on `event`, for a driver told to listen
/// on `port`.
pub open spec fn next_phase(phase: Phase, port: u16, event: Event) -> Phase {
    match phase {
        Phase::Starting => match event {
            Event::Spawned => Phase::Scanning,
            _ => Phase::Starting,
        },
        Phase::Scanning => match event {
            Event::Line(line) => if is_ready_line(line@, port) {
                Phase::Ready
            } else {
                Phase::Scanning
            },
            Event::Exited => Phase::Failed,
            Event::ReadFailed => Phase::Failed,
            _ => Phase::Scanning,
        },
        Phase::Ready => Phase::Ready,
        Phase::Failed => Phase::Failed,
    }
}

/// What the caller is told on `event` in `phase`.
pub open spec fn next_action(phase: Phase, port: u16, verbose: bool, event: Event) -> Action {
    match phase {
        Phase::Starting => match event {
            Event::Spawned => Action::Watch,
            _ => Action::Idle,
        },
        Phase::Scanning => match event {
            Event::Line(line) => if is_ready_line(line@, port) {
                Action::Connect { forward_output: verbose }
            } else {
                Action::Watch
            },
            Event::Exited => Action::Fail(ProcessError::Exited),
            Event::ReadFailed => Action::Fail(ProcessError::ReadFailed),
            _ => Action::Watch,
        },
        Phase::Ready => Action::Idle,
        Phase::Failed => Action::Idle,
    }
}

/// The phase reached from `phase` after all of `events`, in order.
pub open spec fn phase_after(phase: Phase, port: u16, events: Seq<Event>) -> Phase
    decreases events.len(),
{
    if events.len() == 0 {
        phase
    } else {
        next_phase(phase_after(phase, port, events.drop_last()), port, events.last())
    }
}

/// Whether `event` is a line that says the driver listens on `port`.
pub open spec fn is_ready_event(event: Event, port: u16) -> bool {
    match event {
        Event::Line(line) => is_ready_line(line@, port),
        _ => false,
    }
}

/// A process that exits before it has printed a line that says it listens
/// fails the start-up: whatever else it printed, the phase after its exit
/// is `Failed`, and the step that sees the exit answers with the error.
pub proof fn lemma_exit_before_ready_fails(port: u16, verbose: bool, events: Seq<Event>)
    requires
        events.len() > 0,
        events[0] == Event::Spawned,
        forall|i: int| 0 <= i < events.len() ==> !is_ready_event(#[trigger] events[i], port),
        forall|i: int|
            0 <= i < events.len() ==> #[trigger] events[i] != Event::Exited && events[i]
                != Event::ReadFailed,
    ensures
        phase_after(Phase::Starting, port, events) == Phase::Scanning,
        phase_after(Phase::Starting, port, events.push(Event::Exited)) == Phase::Failed,
        next_action(phase_after(Phase::Starting, port, events), port, verbose, Event::Exited)
            == Action::Fail(ProcessError::Exited),
    decreases events.len(),
{
    let head = events.drop_last();
    if head.len() == 0 {
        assert(phase_after(Phase::Starting, port, head) == Phase::Starting);
        assert(events.last() == events[0]);
    } else {
        assert(head[0] == events[0]);
        assert forall|i: int| 0 <= i < head.len() implies !is_ready_event(
            #[trigger] head[i],
            port,
        ) by {
            assert(head[i] == events[i]);
        }
        assert forall|i: int| 0 <= i < head.len() implies #[trigger] head[i] != Event::Exited
            && head[i] != Event::ReadFailed by {
            assert(head[i] == events[i]);
        }
        lemma_exit_before_ready_fails(port, verbose, head);
        assert(!is_ready_event(events[events.len() - 1], port));
        assert(events[events.len() - 1] != Event::Exited);
    }
    assert(events.push(Event::Exited).drop_last() == events);
}

/// The start-up of one driver process.
pub struct Supervisor {
    phase: Phase,
    port: u16,
    verbose: bool,
}

impl Supervisor {
    /// Where the start-up stands.
    pub closed spec fn spec_phase(&self) -> Phase {
        self.phase
    }

    /// The port that the driver is told to listen on.
    pub closed spec fn spec_port(&self) -> u16 {
        self.port
    }

    /// Whether the output of the driver is forwarded once it is ready.
    pub closed spec fn spec_verbose(&self) -> bool {
        self.verbose
    }

    /// The start-up of a driver that is to listen on `port`.
    pub fn new(port: u16, verbose: bool) -> (s: Supervisor)
        ensures
            s.spec_phase() == Phase::Starting,
            s.spec_port() == port,
            s.spec_verbose() == verbose,
    {
        Supervisor { phase: Phase::Starting, port, verbose }
    }

    /// Where the start-up stands.
    #[verifier::when_used_as_spec(spec_phase)]
    pub fn phase(&self) -> (p: Phase)
        ensures
            p == self.spec_phase(),
    {
        self.phase
    }

    /// What to spawn: `command`, or `geckodriver` where none is given, with
    /// verbose output and the port, and the address to reach it under.
    pub fn launch_plan(&self, command: Option<String>) -> (plan: LaunchPlan)
        ensures
            plan.command@ == (match command {
                Some(given) => given@,
                None => "geckodriver"@,
            }),
            plan.args@.len() == 3,
            plan.args@[0]@ == "-v"@,
            plan.args@[1]@ == "-p"@,
            plan.args@[2]@ == decimal(self.spec_port() as nat),
            plan.url@ == local_url(self.spec_port()),
    {
        let command = match command {
            Some(given) => given,
            None => String::from_str("geckodriver"),
        };
        let numeral = string_of(&decimal_chars(self.port));
        let mut url = String::from_str("http://127.0.0.1:");
        url.append(numeral.as_str());
        let mut args: Vec<String> = Vec::new();
        args.push(String::from_str("-v"));
        args.push(String::from_str("-p"));
        args.push(numeral);
        LaunchPlan { command, args, url }
    }

    /// Takes in what the caller saw of the process and says what to do
    /// next.
    ///
    /// While scanning, a line that holds `Listening` and the port ends the
    /// start-up as ready; the exit of the process, or a failure to read its
    /// output, ends it as failed. Anything else leaves the scan going.
    pub fn step(&mut self, event: &Event) -> (action: Action)
        ensures
            final(self).spec_phase() == next_phase(
                old(self).spec_phase(),
                old(self).spec_port(),
                *event,
            ),
            final(self).spec_port() == old(self).spec_port(),
            final(self).spec_verbose() == old(self).spec_verbose(),
            action == next_action(
                old(self).spec_phase(),
                old(self).spec_port(),
                old(self).spec_verbose(),
                *event,
            ),
    {
        match self.phase {
            Phase::Starting => match event {
                Event::Spawned => {
                    self.phase = Phase::Scanning;
                    Action::Watch
                },
                _ => Action::Idle,
            },
            Phase::Scanning => match event {
                Event::Line(line) => {
                    if ready_line(line.as_str(), self.port) {
                        self.phase = Phase::Ready;
                        Action::Connect { forward_output: self.verbose }
                    } else {
                        Action::Watch
                    }
                },
                Event::Exited => {
                    self.phase = Phase::Failed;
                    Action::Fail(ProcessError::Exited)
                },
                Event::ReadFailed => {
                    self.phase = Phase::Failed;
                    Action::Fail(ProcessError::ReadFailed)
                },
                _ => Action::Watch,
            },
            Phase::Ready => Action::Idle,
            Phase::Failed => Action::Idle,
        }
    }
}

/// Whether an output line says that the driver listens on `port`.
pub fn ready_line(line: &str, port: u16) -> (r: bool)
    ensures
        r == is_ready_line(line@, port),
{
    let hay = chars_of(line);
    let word = chars_of("Listening");
    let numeral = decimal_chars(port);
    contains_chars(&hay, &word) && contains_chars(&hay, &numeral)
}

} // verus!
