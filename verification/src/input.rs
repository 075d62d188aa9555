use vstd::prelude::*;

verus! {

/// How often the screen is refreshed, in nanoseconds.
pub const REFRESH_INTERVAL_NS: u64 = 100_000_000;

/// The arguments of the command line.
#[derive(Debug)]
pub struct CliArgs {
    /// The host to trace the route to.
    pub target: String,
}

/// What the terminal says of a key.
#[derive(Clone, Copy, Debug, PartialEq, Eq)]
pub struct KeyStroke {
    /// Whether the key went down, as opposed to being held or let go.
    pub is_press: bool,
    /// The character of the key, if it has one.
    pub character: Option<char>,
    /// Whether the control key is down.
    pub control: bool,
}

/// What the user asks for.
#[derive(Clone, Copy, Debug, PartialEq, Eq, Structural)]
pub enum KeyCommand {
    Quit,
    TogglePause,
    RestartStatistics,
    Nothing,
}

impl KeyStroke {
    /// What a key asks for.
    pub open spec fn meaning(self) -> KeyCommand {
        if !self.is_press {
            KeyCommand::Nothing
        } else if self.character == Some('q') || (self.character == Some('c') && self.control) {
            KeyCommand::Quit
        } else if self.character == Some('p') {
            KeyCommand::TogglePause
        } else if self.character == Some('r') {
            KeyCommand::RestartStatistics
        } else {
            KeyCommand::Nothing
        }
    }

    /// Says what a key asks for.
    pub fn command(self) -> (command: KeyCommand)
        ensures
            command == self.meaning(),
            command is Quit <==> self.is_press && (self.character == Some('q') || (self.character
                == Some('c') && self.control)),
            command is TogglePause <==> self.is_press && self.character == Some('p'),
            command is RestartStatistics <==> self.is_press && self.character == Some('r'),
    {
        if !self.is_press {
            return KeyCommand::Nothing;
        }
        match self.character {
            Some('q') => KeyCommand::Quit,
            Some('c') if self.control => KeyCommand::Quit,
            Some('p') => KeyCommand::TogglePause,
            Some('r') => KeyCommand::RestartStatistics,
            _ => KeyCommand::Nothing,
        }
    }
}

/// Whether a refresh is due, this long after the latest one.
pub open spec fn refresh_due_after(elapsed_ns: int) -> bool {
    elapsed_ns >= REFRESH_INTERVAL_NS
}

/// How long it takes until the next refresh is due.
pub open spec fn time_to_refresh(elapsed_ns: u64) -> int {
    if elapsed_ns <= REFRESH_INTERVAL_NS {
        REFRESH_INTERVAL_NS - elapsed_ns
    } else {
        0
    }
}

/// How long to wait for a key, this long after the latest refresh: until the
/// next one is due.
pub fn key_wait_ns(elapsed_ns: u64) -> (wait_ns: u64)
    ensures
        wait_ns == time_to_refresh(elapsed_ns),
        wait_ns == (if elapsed_ns <= REFRESH_INTERVAL_NS {
            REFRESH_INTERVAL_NS - elapsed_ns
        } else {
            0
        }),
        refresh_due_after(elapsed_ns + wait_ns),
{
    REFRESH_INTERVAL_NS.saturating_sub(elapsed_ns)
}

/// Tells whether a refresh is due, this long after the latest one.
pub fn refresh_is_due(elapsed_ns: u64) -> (due: bool)
    ensures
        due == refresh_due_after(elapsed_ns as int),
{
    elapsed_ns >= REFRESH_INTERVAL_NS
}

/// The screen is refreshed every 100 milliseconds: a refresh is due that long
/// after the latest one, and the wait for a key ends just then, or at once when the
/// time is over.
pub proof fn law_refresh_comes_ten_times_a_second(elapsed_ns: u64)
    ensures
        refresh_due_after(elapsed_ns as int) <==> elapsed_ns >= 100_000_000,
        elapsed_ns < 100_000_000 ==> elapsed_ns + time_to_refresh(elapsed_ns) == 100_000_000,
        elapsed_ns >= 100_000_000 ==> time_to_refresh(elapsed_ns) == 0,
{
}

/// The program ends for `q`, or for `c` with the control key, and for no other
/// key; `p` alone pauses or resumes, and `r` alone restarts. A key that is held or
/// let go asks for nothing.
pub proof fn law_keys_mean_one_thing(key: KeyStroke)
    ensures
        key.meaning() is Quit <==> key.is_press && (key.character == Some('q') || (key.control
            && key.character == Some('c'))),
        key.meaning() is TogglePause <==> key.is_press && key.character == Some('p'),
        key.meaning() is RestartStatistics <==> key.is_press && key.character == Some('r'),
{
}

} // verus!
