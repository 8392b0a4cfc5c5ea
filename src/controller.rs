//! The interactive session: category counts, focus navigation, the current
//! password with its rating, and a transient status message.

use crate::generator::{amount, generate_password, is_arrangement};
use crate::strength::{check_password_strength, label_of, strength_of};
use rand::rngs::StdRng;
use vstd::prelude::*;

verus! {

/// Smallest value of a category count.
pub const MIN_VALUE: i32 = 0;

/// Largest value of a category count.
pub const MAX_VALUE: i32 = 64;

/// Counts a new session starts with.
pub const DEFAULT_LETTERS: i32 = 6;

pub const DEFAULT_UPPERCASE: i32 = 2;

pub const DEFAULT_SYMBOLS: i32 = 2;

pub const DEFAULT_NUMBERS: i32 = 4;

/// Focus positions below this one are the four count fields.
pub const FOCUS_FIELDS: usize = 4;

/// Focus position of the generate action.
pub const FOCUS_GENERATE: usize = 4;

/// Focus position of the copy action.
pub const FOCUS_COPY: usize = 5;

/// Focus position of the quit action, the last one.
pub const FOCUS_QUIT: usize = 6;

/// How long a clipboard status message stays, in milliseconds.
pub const STATUS_DURATION_MS: u64 = 2000;

/// The four category counts of a password.
#[derive(Clone, Copy, Debug, PartialEq, Eq, Structural)]
pub struct CategoryCounts {
    pub letters: i32,
    pub uppercase: i32,
    pub symbols: i32,
    pub numbers: i32,
}

impl CategoryCounts {
    /// Every count lies in `MIN_VALUE..=MAX_VALUE`.
    pub open spec fn wf(self) -> bool {
        &&& MIN_VALUE <= self.letters <= MAX_VALUE
        &&& MIN_VALUE <= self.uppercase <= MAX_VALUE
        &&& MIN_VALUE <= self.symbols <= MAX_VALUE
        &&& MIN_VALUE <= self.numbers <= MAX_VALUE
    }
}

/// A decoded key press.
#[derive(Clone, Copy, Debug, PartialEq, Eq, Structural)]
pub enum Key {
    Char(char),
    Up,
    Down,
    Left,
    Right,
    Enter,
    Esc,
    Other,
}

/// A key press with whether Control, and no other modifier, was held.
#[derive(Clone, Copy, Debug, PartialEq, Eq, Structural)]
pub struct KeyInput {
    pub key: Key,
    pub control: bool,
}

/// What a key press asks of the session.
#[derive(Clone, Copy, Debug, PartialEq, Eq, Structural)]
pub enum Command {
    Quit,
    Up,
    Down,
    Decrease,
    Increase,
    Confirm,
    Copy,
    Regenerate,
    Ignore,
}

/// The side effect the session loop performs after a key press.
#[derive(Clone, Copy, Debug, PartialEq, Eq, Structural)]
pub enum Action {
    Nothing,
    Regenerate,
    Copy,
    Quit,
}

/// The command a key press stands for.
pub open spec fn command_of(k: KeyInput) -> Command {
    match k.key {
        Key::Esc => Command::Quit,
        Key::Up => Command::Up,
        Key::Down => Command::Down,
        Key::Left => Command::Decrease,
        Key::Right => Command::Increase,
        Key::Enter => Command::Confirm,
        Key::Other => Command::Ignore,
        Key::Char(c) => {
            if c == 'q' {
                Command::Quit
            } else if c == 'k' {
                Command::Up
            } else if c == 'j' {
                Command::Down
            } else if c == '-' || c == 'h' {
                Command::Decrease
            } else if c == '+' || c == '=' || c == 'l' {
                Command::Increase
            } else if c == 'g' {
                Command::Confirm
            } else if c == 'c' || c == 'C' {
                Command::Copy
            } else if c == 'r' && k.control {
                Command::Regenerate
            } else {
                Command::Ignore
            }
        },
    }
}

/// Decodes a key press into the command it stands for.
pub fn classify(k: KeyInput) -> (r: Command)
    ensures
        r == command_of(k),
{
    match k.key {
        Key::Esc => Command::Quit,
        Key::Up => Command::Up,
        Key::Down => Command::Down,
        Key::Left => Command::Decrease,
        Key::Right => Command::Increase,
        Key::Enter => Command::Confirm,
        Key::Other => Command::Ignore,
        Key::Char(c) => {
            if c == 'q' {
                Command::Quit
            } else if c == 'k' {
                Command::Up
            } else if c == 'j' {
                Command::Down
            } else if c == '-' || c == 'h' {
                Command::Decrease
            } else if c == '+' || c == '=' || c == 'l' {
                Command::Increase
            } else if c == 'g' {
                Command::Confirm
            } else if c == 'c' || c == 'C' {
                Command::Copy
            } else if c == 'r' && k.control {
                Command::Regenerate
            } else {
                Command::Ignore
            }
        },
    }
}

/// `v` clamped to `MIN_VALUE..=MAX_VALUE`.
pub open spec fn clamp_spec(v: int) -> int {
    if v < MIN_VALUE {
        MIN_VALUE as int
    } else if v > MAX_VALUE {
        MAX_VALUE as int
    } else {
        v
    }
}

/// The counts after adding `delta` to the field under `focus`, clamped;
/// unchanged when the focus is on an action.
pub open spec fn adjust(c: CategoryCounts, focus: int, delta: int) -> CategoryCounts {
    if focus == 0 {
        CategoryCounts { letters: clamp_spec(c.letters + delta) as i32, ..c }
    } else if focus == 1 {
        CategoryCounts { uppercase: clamp_spec(c.uppercase + delta) as i32, ..c }
    } else if focus == 2 {
        CategoryCounts { symbols: clamp_spec(c.symbols + delta) as i32, ..c }
    } else if focus == 3 {
        CategoryCounts { numbers: clamp_spec(c.numbers + delta) as i32, ..c }
    } else {
        c
    }
}

/// The focus after a command.
pub open spec fn next_focus(cmd: Command, focus: int) -> int {
    match cmd {
        Command::Up => if focus > 0 {
            focus - 1
        } else {
            0
        },
        Command::Down => if focus + 1 < FOCUS_QUIT {
            focus + 1
        } else {
            FOCUS_QUIT as int
        },
        _ => focus,
    }
}

/// The counts after a command.
pub open spec fn next_counts(cmd: Command, focus: int, c: CategoryCounts) -> CategoryCounts {
    match cmd {
        Command::Decrease => adjust(c, focus, -1),
        Command::Increase => adjust(c, focus, 1),
        _ => c,
    }
}

/// The side effect a command asks for.
pub open spec fn action_for(cmd: Command, focus: int) -> Action {
    match cmd {
        Command::Quit => Action::Quit,
        Command::Copy => Action::Copy,
        Command::Regenerate => Action::Regenerate,
        Command::Confirm => if focus <= FOCUS_GENERATE {
            Action::Regenerate
        } else if focus == FOCUS_COPY {
            Action::Copy
        } else if focus == FOCUS_QUIT {
            Action::Quit
        } else {
            Action::Nothing
        },
        _ => Action::Nothing,
    }
}

/// The message shown after a clipboard attempt.
pub open spec fn status_message(copied: bool) -> Seq<char> {
    if copied {
        "Copied to clipboard."@
    } else {
        "Clipboard unavailable."@
    }
}

/// The expiry of a status message set at `now`.
pub open spec fn expiry_from(now: u64) -> u64 {
    if now + STATUS_DURATION_MS > u64::MAX {
        u64::MAX
    } else {
        (now + STATUS_DURATION_MS) as u64
    }
}

/// The status expiry after the loop looks at the clock at `now`.
pub open spec fn expiry_after_check(until: Option<u64>, now: u64) -> Option<u64> {
    match until {
        Some(d) => if now >= d {
            None
        } else {
            Some(d)
        },
        None => None,
    }
}

/// The focus after a run of key presses.
pub open spec fn focus_after_keys(keys: Seq<KeyInput>, focus: int) -> int
    decreases keys.len(),
{
    if keys.len() == 0 {
        focus
    } else {
        focus_after_keys(keys.drop_first(), next_focus(command_of(keys[0]), focus))
    }
}

/// The counts after a run of key presses.
pub open spec fn counts_after_keys(
    keys: Seq<KeyInput>,
    focus: int,
    c: CategoryCounts,
) -> CategoryCounts
    decreases keys.len(),
{
    if keys.len() == 0 {
        c
    } else {
        counts_after_keys(
            keys.drop_first(),
            next_focus(command_of(keys[0]), focus),
            next_counts(command_of(keys[0]), focus, c),
        )
    }
}

/// The count of the field at focus position `f`.
pub open spec fn count_at(c: CategoryCounts, f: int) -> int {
    if f == 0 {
        c.letters as int
    } else if f == 1 {
        c.uppercase as int
    } else if f == 2 {
        c.symbols as int
    } else {
        c.numbers as int
    }
}

/// The clock expiry after the loop has looked at the clock at each of `times`.
pub open spec fn expiry_after_checks(until: Option<u64>, times: Seq<u64>) -> Option<u64>
    decreases times.len(),
{
    if times.len() == 0 {
        until
    } else {
        expiry_after_checks(expiry_after_check(until, times[0]), times.drop_first())
    }
}

/// Whatever keys are pressed, the focus stays within the seven positions.
pub proof fn lemma_focus_stays_in_range(keys: Seq<KeyInput>, focus: int)
    requires
        0 <= focus <= FOCUS_QUIT,
    ensures
        0 <= focus_after_keys(keys, focus) <= FOCUS_QUIT,
    decreases keys.len(),
{
    if keys.len() > 0 {
        lemma_focus_stays_in_range(keys.drop_first(), next_focus(command_of(keys[0]), focus));
    }
}

/// Any number of consecutive down presses stops at the last position.
pub proof fn lemma_down_presses_saturate(keys: Seq<KeyInput>, focus: int)
    requires
        0 <= focus <= FOCUS_QUIT,
        forall|i: int| 0 <= i < keys.len() ==> command_of(#[trigger] keys[i]) == Command::Down,
    ensures
        focus_after_keys(keys, focus) == if focus + keys.len() < FOCUS_QUIT {
            focus + keys.len()
        } else {
            FOCUS_QUIT as int
        },
    decreases keys.len(),
{
    if keys.len() > 0 {
        assert(command_of(keys[0]) == Command::Down);
        let rest = keys.drop_first();
        assert forall|i: int| 0 <= i < rest.len() implies command_of(#[trigger] rest[i])
            == Command::Down by {
            assert(rest[i] == keys[i + 1]);
        }
        lemma_down_presses_saturate(rest, next_focus(Command::Down, focus));
    }
}

/// Any number of consecutive up presses stops at the first position.
pub proof fn lemma_up_presses_saturate(keys: Seq<KeyInput>, focus: int)
    requires
        0 <= focus <= FOCUS_QUIT,
        forall|i: int| 0 <= i < keys.len() ==> command_of(#[trigger] keys[i]) == Command::Up,
    ensures
        focus_after_keys(keys, focus) == if focus - keys.len() > 0 {
            focus - keys.len()
        } else {
            0
        },
    decreases keys.len(),
{
    if keys.len() > 0 {
        assert(command_of(keys[0]) == Command::Up);
        let rest = keys.drop_first();
        assert forall|i: int| 0 <= i < rest.len() implies command_of(#[trigger] rest[i])
            == Command::Up by {
            assert(rest[i] == keys[i + 1]);
        }
        lemma_up_presses_saturate(rest, next_focus(Command::Up, focus));
    }
}

/// Whatever keys are pressed, every count stays within its bounds.
pub proof fn lemma_counts_stay_in_range(keys: Seq<KeyInput>, focus: int, c: CategoryCounts)
    requires
        c.wf(),
    ensures
        counts_after_keys(keys, focus, c).wf(),
    decreases keys.len(),
{
    if keys.len() > 0 {
        lemma_counts_stay_in_range(
            keys.drop_first(),
            next_focus(command_of(keys[0]), focus),
            next_counts(command_of(keys[0]), focus, c),
        );
    }
}

/// Any number of consecutive increments at a count field stops at the
/// largest value, and leaves the other counts as they were.
pub proof fn lemma_increments_saturate(keys: Seq<KeyInput>, focus: int, c: CategoryCounts)
    requires
        c.wf(),
        0 <= focus < FOCUS_FIELDS,
        forall|i: int| 0 <= i < keys.len() ==> command_of(#[trigger] keys[i]) == Command::Increase,
    ensures
        count_at(counts_after_keys(keys, focus, c), focus) == if count_at(c, focus) + keys.len()
            < MAX_VALUE {
            count_at(c, focus) + keys.len()
        } else {
            MAX_VALUE as int
        },
        forall|f: int|
            0 <= f < FOCUS_FIELDS && f != focus ==> count_at(counts_after_keys(keys, focus, c), f)
                == count_at(c, f),
    decreases keys.len(),
{
    if keys.len() > 0 {
        assert(command_of(keys[0]) == Command::Increase);
        let rest = keys.drop_first();
        assert forall|i: int| 0 <= i < rest.len() implies command_of(#[trigger] rest[i])
            == Command::Increase by {
            assert(rest[i] == keys[i + 1]);
        }
        lemma_increments_saturate(rest, focus, adjust(c, focus, 1));
        assert forall|f: int| 0 <= f < FOCUS_FIELDS && f != focus implies #[trigger] count_at(
            counts_after_keys(keys, focus, c),
            f,
        ) == count_at(c, f) by {
            assert(count_at(adjust(c, focus, 1), f) == count_at(c, f));
            assert(count_at(counts_after_keys(rest, focus, adjust(c, focus, 1)), f) == count_at(
                adjust(c, focus, 1),
                f,
            ));
        }
    }
}

/// Any number of consecutive decrements at a count field stops at the
/// smallest value, and leaves the other counts as they were.
pub proof fn lemma_decrements_saturate(keys: Seq<KeyInput>, focus: int, c: CategoryCounts)
    requires
        c.wf(),
        0 <= focus < FOCUS_FIELDS,
        forall|i: int| 0 <= i < keys.len() ==> command_of(#[trigger] keys[i]) == Command::Decrease,
    ensures
        count_at(counts_after_keys(keys, focus, c), focus) == if count_at(c, focus) - keys.len()
            > MIN_VALUE {
            count_at(c, focus) - keys.len()
        } else {
            MIN_VALUE as int
        },
        forall|f: int|
            0 <= f < FOCUS_FIELDS && f != focus ==> count_at(counts_after_keys(keys, focus, c), f)
                == count_at(c, f),
    decreases keys.len(),
{
    if keys.len() > 0 {
        assert(command_of(keys[0]) == Command::Decrease);
        let rest = keys.drop_first();
        assert forall|i: int| 0 <= i < rest.len() implies command_of(#[trigger] rest[i])
            == Command::Decrease by {
            assert(rest[i] == keys[i + 1]);
        }
        lemma_decrements_saturate(rest, focus, adjust(c, focus, -1));
        assert forall|f: int| 0 <= f < FOCUS_FIELDS && f != focus implies #[trigger] count_at(
            counts_after_keys(keys, focus, c),
            f,
        ) == count_at(c, f) by {
            assert(count_at(adjust(c, focus, -1), f) == count_at(c, f));
            assert(count_at(counts_after_keys(rest, focus, adjust(c, focus, -1)), f) == count_at(
                adjust(c, focus, -1),
                f,
            ));
        }
    }
}

/// A status message whose expiry is `until` is cleared by a run of clock
/// checks exactly when one of them sees a time at or past the expiry; until
/// then the expiry stays as it was.
pub proof fn lemma_status_cleared_exactly_at_expiry(until: u64, times: Seq<u64>)
    ensures
        expiry_after_checks(Some(until), times).is_none() <==> exists|i: int|
            0 <= i < times.len() && #[trigger] times[i] >= until,
        expiry_after_checks(Some(until), times).is_some() ==> expiry_after_checks(
            Some(until),
            times,
        ) == Some(until),
    decreases times.len(),
{
    if times.len() > 0 {
        let rest = times.drop_first();
        if times[0] >= until {
            lemma_status_stays_cleared(rest);
        } else {
            lemma_status_cleared_exactly_at_expiry(until, rest);
            if exists|i: int| 0 <= i < rest.len() && #[trigger] rest[i] >= until {
                let i = choose|i: int| 0 <= i < rest.len() && #[trigger] rest[i] >= until;
                assert(times[i + 1] >= until);
            }
            if exists|i: int| 0 <= i < times.len() && #[trigger] times[i] >= until {
                let i = choose|i: int| 0 <= i < times.len() && #[trigger] times[i] >= until;
                assert(rest[i - 1] >= until);
            }
        }
    }
}

/// Once cleared, a status stays cleared through any run of clock checks.
pub proof fn lemma_status_stays_cleared(times: Seq<u64>)
    ensures
        expiry_after_checks(None, times).is_none(),
    decreases times.len(),
{
    if times.len() > 0 {
        lemma_status_stays_cleared(times.drop_first());
    }
}

/// A clipboard status set at `set_at` and then checked at `now` is cleared
/// exactly when `now` has reached its expiry.
pub proof fn lemma_copy_status_expiry(set_at: u64, now: u64)
    ensures
        expiry_after_check(Some(expiry_from(set_at)), now).is_none() <==> now >= expiry_from(
            set_at,
        ),
        expiry_from(set_at) >= set_at,
        set_at + STATUS_DURATION_MS <= u64::MAX ==> expiry_from(set_at) == set_at
            + STATUS_DURATION_MS,
{
}

/// The session state.
pub struct App {
    pub counts: CategoryCounts,
    pub focus: usize,
    pub password: String,
    pub strength: String,
    pub status: String,
    /// When the status message expires, in milliseconds of the session clock.
    pub status_until: Option<u64>,
}

impl App {
    /// Counts within bounds and focus on one of the seven positions.
    pub open spec fn wf(&self) -> bool {
        &&& self.counts.wf()
        &&& self.focus <= FOCUS_QUIT
    }

    /// The password is an arrangement of the current counts, rated.
    pub open spec fn password_matches_counts(&self) -> bool {
        &&& is_arrangement(
            self.password@,
            amount(self.counts.letters),
            amount(self.counts.uppercase),
            amount(self.counts.symbols),
            amount(self.counts.numbers),
        )
        &&& self.password@.len() == amount(self.counts.letters) + amount(self.counts.uppercase)
            + amount(self.counts.symbols) + amount(self.counts.numbers)
        &&& self.strength@ == label_of(strength_of(self.password@))
    }

    /// A fresh session: default counts, focus on the first field, a
    /// generated password and no status message.
    pub fn new(rng: &mut StdRng) -> (r: App)
        ensures
            r.wf(),
            r.counts == (CategoryCounts {
                letters: DEFAULT_LETTERS,
                uppercase: DEFAULT_UPPERCASE,
                symbols: DEFAULT_SYMBOLS,
                numbers: DEFAULT_NUMBERS,
            }),
            r.focus == 0,
            r.password_matches_counts(),
            r.status@.len() == 0,
            r.status_until.is_none(),
    {
        let mut app = App {
            counts: CategoryCounts {
                letters: DEFAULT_LETTERS,
                uppercase: DEFAULT_UPPERCASE,
                symbols: DEFAULT_SYMBOLS,
                numbers: DEFAULT_NUMBERS,
            },
            focus: 0,
            password: String::new(),
            strength: String::new(),
            status: String::new(),
            status_until: None,
        };
        app.generate_password(rng);
        app
    }

    /// Replaces the password with a fresh one for the current counts, and
    /// its rating.
    pub fn generate_password(&mut self, rng: &mut StdRng)
        ensures
            final(self).counts == old(self).counts,
            final(self).focus == old(self).focus,
            final(self).status == old(self).status,
            final(self).status_until == old(self).status_until,
            final(self).password_matches_counts(),
    {
        self.password = generate_password(
            self.counts.letters,
            self.counts.uppercase,
            self.counts.symbols,
            self.counts.numbers,
            rng,
        );
        self.strength = check_password_strength(self.password.as_str()).to_owned();
    }

    /// Clamps a count to `MIN_VALUE..=MAX_VALUE`.
    pub fn clamp_value(value: i32) -> (r: i32)
        ensures
            r == clamp_spec(value as int),
    {
        if value < MIN_VALUE {
            MIN_VALUE
        } else if value > MAX_VALUE {
            MAX_VALUE
        } else {
            value
        }
    }

    /// Adds `delta` to the focused count, clamped; no change when the focus
    /// is on an action.
    pub fn update_value(&mut self, delta: i32)
        requires
            old(self).counts.wf(),
        ensures
            final(self).counts == adjust(old(self).counts, old(self).focus as int, delta as int),
            final(self).counts.wf(),
            final(self).focus == old(self).focus,
            final(self).password == old(self).password,
            final(self).strength == old(self).strength,
            final(self).status == old(self).status,
            final(self).status_until == old(self).status_until,
    {
        // Counts lie within 0..=64, so a step beyond 65 either way clamps alike.
        let step: i32 = if delta > 65 {
            65
        } else if delta < -65 {
            -65
        } else {
            delta
        };
        match self.focus {
            0 => self.counts.letters = Self::clamp_value(self.counts.letters + step),
            1 => self.counts.uppercase = Self::clamp_value(self.counts.uppercase + step),
            2 => self.counts.symbols = Self::clamp_value(self.counts.symbols + step),
            3 => self.counts.numbers = Self::clamp_value(self.counts.numbers + step),
            _ => {},
        }
    }

    /// Clears the status message once the clock has reached its expiry.
    pub fn clear_status_if_expired(&mut self, now: u64)
        ensures
            final(self).status_until == expiry_after_check(old(self).status_until, now),
            final(self).status_until.is_none() && old(self).status_until.is_some()
                ==> final(self).status@.len() == 0,
            final(self).status_until.is_some() || old(self).status_until.is_none()
                ==> final(self).status == old(self).status,
            final(self).counts == old(self).counts,
            final(self).focus == old(self).focus,
            final(self).password == old(self).password,
            final(self).strength == old(self).strength,
    {
        if let Some(deadline) = self.status_until {
            if now >= deadline {
                self.status = String::new();
                self.status_until = None;
            }
        }
    }

    /// Records the outcome of a clipboard attempt made at `now`.
    pub fn record_copy_result(&mut self, copied: bool, now: u64)
        ensures
            final(self).status@ == status_message(copied),
            final(self).status_until == Some(expiry_from(now)),
            final(self).counts == old(self).counts,
            final(self).focus == old(self).focus,
            final(self).password == old(self).password,
            final(self).strength == old(self).strength,
    {
        if copied {
            self.status = String::from_str("Copied to clipboard.");
        } else {
            self.status = String::from_str("Clipboard unavailable.");
        }
        self.status_until = Some(now.saturating_add(STATUS_DURATION_MS));
    }

    /// Applies a key press: moves the focus or adjusts a count, and returns
    /// the side effect the loop is to perform.
    pub fn handle_key(&mut self, key: KeyInput) -> (r: Action)
        requires
            old(self).wf(),
        ensures
            final(self).wf(),
            r == action_for(command_of(key), old(self).focus as int),
            final(self).focus == next_focus(command_of(key), old(self).focus as int),
            final(self).counts == next_counts(
                command_of(key),
                old(self).focus as int,
                old(self).counts,
            ),
            final(self).password == old(self).password,
            final(self).strength == old(self).strength,
            final(self).status == old(self).status,
            final(self).status_until == old(self).status_until,
    {
        match classify(key) {
            Command::Quit => Action::Quit,
            Command::Up => {
                self.focus = self.focus.saturating_sub(1);
                Action::Nothing
            },
            Command::Down => {
                self.focus = if self.focus + 1 < FOCUS_QUIT {
                    self.focus + 1
                } else {
                    FOCUS_QUIT
                };
                Action::Nothing
            },
            Command::Decrease => {
                self.update_value(-1);
                Action::Nothing
            },
            Command::Increase => {
                self.update_value(1);
                Action::Nothing
            },
            Command::Confirm => {
                if self.focus <= FOCUS_GENERATE {
                    Action::Regenerate
                } else if self.focus == FOCUS_COPY {
                    Action::Copy
                } else {
                    Action::Quit
                }
            },
            Command::Copy => Action::Copy,
            Command::Regenerate => Action::Regenerate,
            Command::Ignore => Action::Nothing,
        }
    }
}

} // verus!
