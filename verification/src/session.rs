use vstd::prelude::*;

use crate::instance::InstanceKind;
use crate::text::has_char;
use crate::theme::LauncherThemeLightness;

verus! {

/// The launcher's own log panel: whether it is open and how many lines it
/// is scrolled up from the newest.
#[derive(Debug, Clone, Copy, PartialEq, Eq, Structural)]
pub struct LogPanel {
    pub is_log_open: bool,
    pub log_scroll: isize,
}

impl LogPanel {
    /// Closed, showing the newest lines.
    pub fn new() -> (r: LogPanel)
        ensures
            !r.is_log_open,
            r.log_scroll == 0,
    {
        LogPanel { is_log_open: false, log_scroll: 0 }
    }

    /// Opens the panel when closed, closes it when open.
    pub fn toggle(&mut self)
        ensures
            final(self).is_log_open == !old(self).is_log_open,
            final(self).log_scroll == old(self).log_scroll,
    {
        self.is_log_open = !self.is_log_open;
    }

    /// Scrolls by `lines` (positive towards the newest line); a scroll past
    /// the newest line is ignored.
    pub fn scroll(&mut self, lines: isize)
        requires
            isize::MIN <= old(self).log_scroll - lines <= isize::MAX,
        ensures
            final(self).log_scroll == (if old(self).log_scroll - lines >= 0 {
                old(self).log_scroll - lines
            } else {
                old(self).log_scroll as int
            }),
            final(self).is_log_open == old(self).is_log_open,
    {
        let new_scroll = self.log_scroll - lines;
        if new_scroll >= 0 {
            self.log_scroll = new_scroll;
        }
    }

    /// Scrolls to the given position.
    pub fn scroll_to(&mut self, lines: isize)
        ensures
            final(self).log_scroll == lines,
            final(self).is_log_open == old(self).is_log_open,
    {
        self.log_scroll = lines;
    }
}

/// The tick count after one more tick; it starts over after the largest.
pub open spec fn next_tick_spec(t: usize) -> usize {
    if t == usize::MAX {
        0
    } else {
        (t + 1) as usize
    }
}

/// Counts one tick.
pub fn next_tick(t: usize) -> (r: usize)
    ensures
        r == next_tick_spec(t),
{
    if t == usize::MAX {
        0
    } else {
        t + 1
    }
}

/// How many ticks lie between two reads of the system's light or dark
/// setting.
pub const SYSTEM_THEME_INTERVAL: usize = 4;

/// Whether the system's light or dark setting is read on this tick: only
/// when the interface follows the system, every few ticks.
pub fn reads_system_theme(ui_mode: Option<LauncherThemeLightness>, tick_timer: usize) -> (r: bool)
    ensures
        r == ((ui_mode is None || ui_mode == Some(LauncherThemeLightness::Auto)) && tick_timer
            % SYSTEM_THEME_INTERVAL == 0),
{
    let is_auto_theme = match ui_mode {
        None => true,
        Some(LauncherThemeLightness::Auto) => true,
        Some(_) => false,
    };
    is_auto_theme && tick_timer % SYSTEM_THEME_INTERVAL == 0
}

/// What pressing "Play" does.
#[derive(Debug, Clone, Copy, PartialEq, Eq, Structural)]
pub enum LaunchAction {
    /// Nothing is selected, or the selection is already running.
    Nothing,
    /// The offline name cannot be played with; only the old log is dropped.
    Refused,
    /// The account's tokens are refreshed first, then the game starts.
    RefreshAccount,
    /// The game starts with the account as it is.
    LaunchGame,
    /// The server starts.
    RunServer,
}

/// Whether an offline name cannot be played with: it is empty or holds a
/// space.
pub open spec fn offline_name_refused(username: Seq<char>) -> bool {
    username.len() == 0 || username.contains(' ')
}

/// What pressing "Play" does, given the selection, whether it is running,
/// whether the offline account is chosen, the offline name, and whether the
/// chosen account must be refreshed before use.
pub open spec fn launch_action_spec(
    selected: Option<InstanceKind>,
    is_running: bool,
    offline: bool,
    username: Seq<char>,
    needs_refresh: bool,
) -> LaunchAction {
    match selected {
        None => LaunchAction::Nothing,
        Some(kind) => if is_running {
            LaunchAction::Nothing
        } else {
            match kind {
                InstanceKind::Server => LaunchAction::RunServer,
                InstanceKind::Client => if offline && offline_name_refused(username) {
                    LaunchAction::Refused
                } else if needs_refresh {
                    LaunchAction::RefreshAccount
                } else {
                    LaunchAction::LaunchGame
                },
            }
        },
    }
}

impl LaunchAction {
    /// Whether the selection's previous log is dropped.
    pub open spec fn clears_log(self) -> bool {
        self != LaunchAction::Nothing
    }

    /// Whether the launcher shows that the game is being launched.
    pub open spec fn marks_launching(self) -> bool {
        self == LaunchAction::RefreshAccount || self == LaunchAction::LaunchGame
    }

    /// Whether the selection's previous log is dropped.
    pub fn drops_old_log(self) -> (r: bool)
        ensures
            r == self.clears_log(),
    {
        !matches!(self, LaunchAction::Nothing)
    }

    /// Whether the launcher shows that the game is being launched.
    pub fn shows_launching(self) -> (r: bool)
        ensures
            r == self.marks_launching(),
    {
        matches!(self, LaunchAction::RefreshAccount | LaunchAction::LaunchGame)
    }
}

/// Decides what pressing "Play" does.
pub fn launch_action(
    selected: Option<InstanceKind>,
    is_running: bool,
    offline: bool,
    username: &str,
    needs_refresh: bool,
) -> (r: LaunchAction)
    ensures
        r == launch_action_spec(selected, is_running, offline, username@, needs_refresh),
{
    match selected {
        None => LaunchAction::Nothing,
        Some(kind) => {
            if is_running {
                return LaunchAction::Nothing;
            }
            match kind {
                InstanceKind::Server => LaunchAction::RunServer,
                InstanceKind::Client => {
                    if offline && (username.unicode_len() == 0 || has_char(username, ' ')) {
                        LaunchAction::Refused
                    } else if needs_refresh {
                        LaunchAction::RefreshAccount
                    } else {
                        LaunchAction::LaunchGame
                    }
                },
            }
        },
    }
}

/// The number written by decimal digits.
pub open spec fn digits_value(d: Seq<char>) -> nat
    decreases d.len(),
{
    if d.len() == 0 {
        0
    } else {
        digits_value(d.drop_last()) * 10 + ((d.last() as int) - ('0' as int)) as nat
    }
}

/// Whether every character is a decimal digit.
pub open spec fn all_digits(d: Seq<char>) -> bool {
    forall|i: int| 0 <= i < d.len() ==> '0' <= #[trigger] d[i] <= '9'
}

/// The digits of an unsigned number's text: a leading '+' is dropped when
/// something follows it.
pub open spec fn unsigned_digits(s: Seq<char>) -> Seq<char> {
    if s.len() > 1 && s[0] == '+' {
        s.drop_first()
    } else {
        s
    }
}

/// The `usize` a text reads as: digits, after an optional '+', whose value
/// fits.
pub open spec fn usize_text(s: Seq<char>) -> Option<usize> {
    let d = unsigned_digits(s);
    if d.len() > 0 && all_digits(d) && digits_value(d) <= usize::MAX {
        Some(digits_value(d) as usize)
    } else {
        None
    }
}

/// Reads a `usize` written in decimal.
pub fn parse_usize(s: &str) -> (r: Option<usize>)
    ensures
        r == usize_text(s@),
{
    let n = s.unicode_len();
    let start: usize = if n > 1 && s.get_char(0) == '+' { 1 } else { 0 };
    let ghost d = unsigned_digits(s@);
    proof {
        assert(d =~= s@.subrange(start as int, n as int));
    }
    if start == n {
        return None;
    }
    let mut acc: u128 = 0;
    let mut too_big = false;
    let mut i: usize = start;
    while i < n
        invariant
            start <= i <= n,
            n == s@.len(),
            d == s@.subrange(start as int, n as int),
            d == unsigned_digits(s@),
            all_digits(d.take(i - start)),
            !too_big ==> acc == digits_value(d.take(i - start)) && acc <= usize::MAX,
            too_big ==> digits_value(d.take(i - start)) > usize::MAX,
        decreases n - i,
    {
        let c = s.get_char(i);
        proof {
            assert(d.take(i - start + 1).drop_last() =~= d.take(i - start));
            assert(d.take(i - start + 1).last() == c);
        }
        if !('0' <= c && c <= '9') {
            proof {
                assert(!('0' <= d[i - start] <= '9'));
            }
            return None;
        }
        let dig = (c as u32 - '0' as u32) as u128;
        if !too_big {
            acc = acc * 10 + dig;
            if acc > usize::MAX as u128 {
                too_big = true;
            }
        }
        i += 1;
        proof {
            assert forall|k: int| 0 <= k < d.take(i - start).len() implies '0' <= #[trigger] d.take(i - start)[k] <= '9' by {
                if k < i - start - 1 {
                    assert(d.take(i - start)[k] == d.take(i - start - 1)[k]);
                }
            }
        }
    }
    proof {
        assert(d.take(n - start) =~= d);
    }
    if too_big {
        None
    } else {
        Some(acc as usize)
    }
}

/// The memory, in megabytes, that a typed text sets: a positive whole
/// number; anything else leaves the setting as it was.
pub fn memory_input(input: &str) -> (r: Option<usize>)
    ensures
        r == (match usize_text(input@) {
            Some(mb) => if mb > 0 { Some(mb) } else { None },
            None => None,
        }),
{
    match parse_usize(input) {
        Some(mb) => if mb > 0 { Some(mb) } else { None },
        None => None,
    }
}

} // verus!
