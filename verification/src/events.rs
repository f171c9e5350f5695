//! Event dispatch: the keyboard surface, and the loop's bookkeeping of
//! draw ticks and transfer completions.

use vstd::prelude::*;

verus! {

/// A decoded input key, as the event loop sees it.
#[derive(Debug, Clone, Copy, PartialEq, Eq, Structural)]
pub enum KeyInput {
    Char(char),
    Up,
    Down,
    Left,
    Right,
    Tab,
    Enter,
    Esc,
    Other,
}

/// What the loop does with one key press.
#[derive(Debug, Clone, Copy, PartialEq, Eq, Structural)]
pub enum Command {
    Quit,
    ToggleHelp,
    ToggleHidden,
    MoveDown,
    MoveUp,
    JumpTop,
    JumpBottom,
    SwitchPane,
    EnterDir,
    ExitDir,
    Transfer,
    Ignore,
}

/// The keyboard surface: quit on `q`, Escape or Ctrl-c; help on `?`;
/// hidden files on `a`; movement on `j`/`k` and the arrows; jumps on
/// `g`/`t`, `b` and Ctrl-arrows; pane switch on Tab, `w` or Ctrl-w;
/// enter and exit on `l`/`h` and the horizontal arrows; transfer on
/// Enter or `y`.  Everything else is ignored.
pub open spec fn decode_spec(key: KeyInput, ctrl: bool) -> Command {
    if ctrl {
        match key {
            KeyInput::Char(c) => if c == 'c' {
                Command::Quit
            } else if c == 'w' {
                Command::SwitchPane
            } else {
                Command::Ignore
            },
            KeyInput::Up => Command::JumpTop,
            KeyInput::Down => Command::JumpBottom,
            _ => Command::Ignore,
        }
    } else {
        match key {
            KeyInput::Char(c) => if c == 'q' {
                Command::Quit
            } else if c == '?' {
                Command::ToggleHelp
            } else if c == 'a' {
                Command::ToggleHidden
            } else if c == 'j' {
                Command::MoveDown
            } else if c == 'k' {
                Command::MoveUp
            } else if c == 'g' || c == 't' {
                Command::JumpTop
            } else if c == 'b' {
                Command::JumpBottom
            } else if c == 'w' {
                Command::SwitchPane
            } else if c == 'l' {
                Command::EnterDir
            } else if c == 'h' {
                Command::ExitDir
            } else if c == 'y' {
                Command::Transfer
            } else {
                Command::Ignore
            },
            KeyInput::Esc => Command::Quit,
            KeyInput::Down => Command::MoveDown,
            KeyInput::Up => Command::MoveUp,
            KeyInput::Tab => Command::SwitchPane,
            KeyInput::Right => Command::EnterDir,
            KeyInput::Left => Command::ExitDir,
            KeyInput::Enter => Command::Transfer,
            KeyInput::Other => Command::Ignore,
        }
    }
}

/// Decode one key press into the loop's command.
pub fn decode_key(key: KeyInput, ctrl: bool) -> (r: Command)
    ensures
        r == decode_spec(key, ctrl),
{
    if ctrl {
        match key {
            KeyInput::Char(c) => if c == 'c' {
                Command::Quit
            } else if c == 'w' {
                Command::SwitchPane
            } else {
                Command::Ignore
            },
            KeyInput::Up => Command::JumpTop,
            KeyInput::Down => Command::JumpBottom,
            _ => Command::Ignore,
        }
    } else {
        match key {
            KeyInput::Char(c) => if c == 'q' {
                Command::Quit
            } else if c == '?' {
                Command::ToggleHelp
            } else if c == 'a' {
                Command::ToggleHidden
            } else if c == 'j' {
                Command::MoveDown
            } else if c == 'k' {
                Command::MoveUp
            } else if c == 'g' || c == 't' {
                Command::JumpTop
            } else if c == 'b' {
                Command::JumpBottom
            } else if c == 'w' {
                Command::SwitchPane
            } else if c == 'l' {
                Command::EnterDir
            } else if c == 'h' {
                Command::ExitDir
            } else if c == 'y' {
                Command::Transfer
            } else {
                Command::Ignore
            },
            KeyInput::Esc => Command::Quit,
            KeyInput::Down => Command::MoveDown,
            KeyInput::Up => Command::MoveUp,
            KeyInput::Tab => Command::SwitchPane,
            KeyInput::Right => Command::EnterDir,
            KeyInput::Left => Command::ExitDir,
            KeyInput::Enter => Command::Transfer,
            KeyInput::Other => Command::Ignore,
        }
    }
}

/// How many draw ticks pass between refreshes of the two listings.
pub const TICKS_PER_REFRESH: u8 = 60;

/// The loop's bookkeeping: the draw-tick counter that spaces out listing
/// refreshes, how many transfers were started and how many finished, and
/// whether the user has pressed anything yet.
#[derive(Debug)]
pub struct LoopState {
    pub ticks_elapsed: u8,
    pub transfers_started: usize,
    pub completed_transfers: usize,
    pub user_has_pressed: bool,
}

impl LoopState {
    /// The loop's state at startup.
    pub fn new() -> (r: LoopState)
        ensures
            r.ticks_elapsed == 0,
            r.transfers_started == 0,
            r.completed_transfers == 0,
            !r.user_has_pressed,
    {
        LoopState {
            ticks_elapsed: 0,
            transfers_started: 0,
            completed_transfers: 0,
            user_has_pressed: false,
        }
    }

    /// Count one draw tick; the listings are refreshed once every
    /// `TICKS_PER_REFRESH` ticks, when the counter wraps to zero.
    pub fn on_tick(&mut self) -> (refresh: bool)
        requires
            old(self).ticks_elapsed < TICKS_PER_REFRESH,
        ensures
            final(self).ticks_elapsed == (old(self).ticks_elapsed + 1) % (
            TICKS_PER_REFRESH as int),
            final(self).ticks_elapsed < TICKS_PER_REFRESH,
            refresh <==> final(self).ticks_elapsed == 0,
            final(self).transfers_started == old(self).transfers_started,
            final(self).completed_transfers == old(self).completed_transfers,
            final(self).user_has_pressed == old(self).user_has_pressed,
    {
        let next = self.ticks_elapsed + 1;
        if next == TICKS_PER_REFRESH {
            self.ticks_elapsed = 0;
        } else {
            self.ticks_elapsed = next;
        }
        self.ticks_elapsed == 0
    }

    /// Note that the user pressed a key.
    pub fn on_key(&mut self)
        ensures
            final(self).user_has_pressed,
            final(self).ticks_elapsed == old(self).ticks_elapsed,
            final(self).transfers_started == old(self).transfers_started,
            final(self).completed_transfers == old(self).completed_transfers,
    {
        self.user_has_pressed = true;
    }

    /// Note that one transfer worker was spawned.
    pub fn on_transfer_started(&mut self)
        requires
            old(self).transfers_started < usize::MAX,
        ensures
            final(self).transfers_started == old(self).transfers_started + 1,
            final(self).ticks_elapsed == old(self).ticks_elapsed,
            final(self).completed_transfers == old(self).completed_transfers,
            final(self).user_has_pressed == old(self).user_has_pressed,
    {
        self.transfers_started = self.transfers_started + 1;
    }

    /// Take one worker's completion message: an empty message is success,
    /// anything else is the error text to surface.
    pub fn on_completion(&mut self, message: String) -> (r: Option<String>)
        requires
            old(self).completed_transfers < usize::MAX,
        ensures
            final(self).completed_transfers == old(self).completed_transfers + 1,
            r is Some <==> message@.len() > 0,
            r matches Some(e) ==> e@ == message@,
            final(self).ticks_elapsed == old(self).ticks_elapsed,
            final(self).transfers_started == old(self).transfers_started,
            final(self).user_has_pressed == old(self).user_has_pressed,
    {
        self.completed_transfers = self.completed_transfers + 1;
        if message.as_str().is_empty() {
            None
        } else {
            Some(message)
        }
    }

    /// Whether the notice window may be reset: the user has been active
    /// and no transfer is outstanding.
    pub fn idle(&self) -> (r: bool)
        ensures
            r == (self.user_has_pressed && self.transfers_started
                == self.completed_transfers),
    {
        self.user_has_pressed && self.transfers_started == self.completed_transfers
    }
}

} // verus!
