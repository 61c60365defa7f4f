//! Values given on the command line that need parsing and can fail.
use crate::sort::{SortKey, SortMode};
use crate::text::{
    add_text, chars_of, owned, parse_unsigned, parsed_unsigned, same, string_of, trim, trimmed,
};
use vstd::prelude::*;

verus! {

/// Files larger than this are left out where no limit is named, both when an
/// index is built and when a tree is searched.
pub const DEFAULT_MAX_FILE_SIZE: u64 = 67_108_864;

/// What a sort criterion comes to; `none` leaves results unordered.
pub open spec fn sort_result(key: Seq<char>, reverse: bool) -> Result<Option<SortMode>, Seq<char>> {
    if key == "none"@ {
        Ok(None)
    } else {
        match SortKey::named(key) {
            Some(key) => Ok(Some(SortMode { key, reverse })),
            None => Err("unrecognized sort criteria: "@ + key),
        }
    }
}

/// A result with the view of its message.
pub open spec fn with_message<T>(r: Result<T, String>) -> Result<T, Seq<char>> {
    match r {
        Ok(v) => Ok(v),
        Err(m) => Err(m@),
    }
}

/// Parses a sort criterion.
pub fn parse_sort(key: &str, reverse: bool) -> (r: Result<Option<SortMode>, String>)
    ensures
        with_message(r) == sort_result(key@, reverse),
{
    if same(key, "none") {
        return Ok(None);
    }
    match SortKey::from_str_opt(key) {
        Some(key) => Ok(Some(SortMode { key, reverse })),
        None => {
            let mut message = owned("unrecognized sort criteria: ");
            add_text(&mut message, key);
            Err(message)
        },
    }
}

/// The factor that a suffix stands for, if it is one.
pub open spec fn suffix_factor(c: char) -> Option<u64> {
    if c == 'K' || c == 'k' {
        Some(1024)
    } else if c == 'M' || c == 'm' {
        Some(1_048_576)
    } else if c == 'G' || c == 'g' {
        Some(1_073_741_824)
    } else {
        None
    }
}

/// The digits of a size and the factor they are multiplied by.
pub open spec fn size_parts(s: Seq<char>) -> (Seq<char>, u64) {
    if s.len() > 0 && suffix_factor(s.last()) is Some {
        (trimmed(s.drop_last()), suffix_factor(s.last())->0)
    } else {
        (trimmed(s), 1)
    }
}

/// The bytes that a size stands for. The message of an error names the flag.
pub open spec fn size_result(flag: Seq<char>, given: Seq<char>) -> Result<u64, Seq<char>> {
    let s = trimmed(given);
    let (digits, factor) = size_parts(s);
    match parsed_unsigned(digits) {
        None => Err("invalid "@ + flag + " value: "@ + s),
        Some(n) => if n * factor <= u64::MAX {
            Ok((n * factor) as u64)
        } else {
            Err(flag + " value is too large: "@ + s)
        },
    }
}

fn factor_of(c: char) -> (r: Option<u64>)
    ensures
        r == suffix_factor(c),
{
    if c == 'K' || c == 'k' {
        Some(1024)
    } else if c == 'M' || c == 'm' {
        Some(1_048_576)
    } else if c == 'G' || c == 'g' {
        Some(1_073_741_824)
    } else {
        None
    }
}

/// Parses a size in bytes, with a suffix or without.
pub fn parse_byte_size(flag: &str, given: &str) -> (r: Result<u64, String>)
    ensures
        with_message(r) == size_result(flag@, given@),
{
    let s = trim(given);
    let chars = chars_of(s.as_str());
    let suffix = if chars.len() > 0 {
        factor_of(chars[chars.len() - 1])
    } else {
        None
    };
    let (digits, factor): (String, u64) = match suffix {
        Some(factor) => {
            let front = string_of(&chars, 0, chars.len() - 1);
            assert(front@ =~= s@.drop_last());
            (trim(front.as_str()), factor)
        },
        None => (trim(s.as_str()), 1),
    };
    match parse_unsigned(digits.as_str()) {
        None => {
            let mut message = owned("invalid ");
            add_text(&mut message, flag);
            add_text(&mut message, " value: ");
            add_text(&mut message, s.as_str());
            Err(message)
        },
        Some(n) => match n.checked_mul(factor) {
            Some(bytes) => Ok(bytes),
            None => {
                let mut message = owned(flag);
                add_text(&mut message, " value is too large: ");
                add_text(&mut message, s.as_str());
                Err(message)
            },
        },
    }
}

/// What a limit comes to that a machine word has to hold. One that does not fit
/// is refused, never cut down to another limit than was asked for.
pub open spec fn limit_result(flag: Seq<char>, given: Seq<char>) -> Result<usize, Seq<char>> {
    match size_result(flag, given) {
        Err(m) => Err(m),
        Ok(bytes) => if bytes <= usize::MAX {
            Ok(bytes as usize)
        } else {
            Err(flag + " value is too large for this platform: "@ + given)
        },
    }
}

/// Parses a limit that a machine word has to hold.
pub fn parse_size_limit(flag: &str, given: &str) -> (r: Result<usize, String>)
    ensures
        with_message(r) == limit_result(flag@, given@),
{
    match parse_byte_size(flag, given) {
        Err(m) => Err(m),
        Ok(bytes) => {
            let most: u64 = usize::MAX as u64;
            if bytes <= most {
                Ok(bytes as usize)
            } else {
                let mut message = owned(flag);
                add_text(&mut message, " value is too large for this platform: ");
                add_text(&mut message, given);
                Err(message)
            }
        },
    }
}

/// How a server learns of changes.
#[derive(Clone, Copy, Debug, PartialEq, Eq, Structural)]
pub enum WatchMode {
    /// Native notifications, with polling where they cannot be had.
    Auto,
    /// Polling alone.
    Poll,
}

impl WatchMode {
    /// The mode with a name.
    pub open spec fn named(s: Seq<char>) -> Option<WatchMode> {
        if s == "auto"@ {
            Some(WatchMode::Auto)
        } else if s == "poll"@ {
            Some(WatchMode::Poll)
        } else {
            None
        }
    }

    /// The mode with a name.
    pub fn from_str_opt(s: &str) -> (r: Option<WatchMode>)
        ensures
            r == WatchMode::named(s@),
    {
        if same(s, "auto") {
            Some(WatchMode::Auto)
        } else if same(s, "poll") {
            Some(WatchMode::Poll)
        } else {
            None
        }
    }
}

/// How a server refreshes its index.
#[derive(Clone, Copy, Debug, PartialEq, Eq, Structural)]
pub struct Refresh {
    pub no_watch: bool,
    pub watch_mode: WatchMode,
    /// Seconds between the end of one reconciliation and the next.
    pub poll_interval: u64,
    /// How many native watches there may be.
    pub watch_budget: u32,
}

/// Why a choice of refresh is refused.
#[derive(Clone, Copy, Debug, PartialEq, Eq, Structural)]
pub enum RefreshError {
    /// No such watch mode.
    BadMode,
    /// An interval that is not from one second to a day.
    BadInterval,
    /// A budget that is not a positive 32-bit number.
    BadBudget,
    /// Watching is disabled, and something that governs it is given too.
    Disabled,
    /// A budget of native watches is given for polling, which has none.
    BudgetOfPolling,
}

/// The seconds between reconciliations where no interval is given.
pub const DEFAULT_POLL_INTERVAL: u64 = 120;

/// The longest interval that can be given, a day.
pub const MAX_POLL_INTERVAL: u64 = 86_400;

/// The native watches that are allowed where no budget is given.
pub const DEFAULT_WATCH_BUDGET: u32 = 8192;

/// What a choice of refresh comes to. A value counts as given only where the
/// flag is there, so a default never conflicts with anything.
pub open spec fn refresh_result(
    no_watch: bool,
    mode: Option<Seq<char>>,
    interval: Option<Seq<char>>,
    budget: Option<Seq<char>>,
) -> Result<Refresh, RefreshError> {
    let watch_mode = match mode {
        Some(s) => WatchMode::named(s),
        None => Some(WatchMode::Auto),
    };
    let poll_interval = match interval {
        Some(s) => parsed_unsigned(s),
        None => Some(DEFAULT_POLL_INTERVAL),
    };
    let watch_budget = match budget {
        Some(s) => parsed_unsigned(s),
        None => Some(DEFAULT_WATCH_BUDGET as u64),
    };
    if watch_mode is None {
        Err(RefreshError::BadMode)
    } else if !(poll_interval is Some && 1 <= poll_interval->0 <= MAX_POLL_INTERVAL) {
        Err(RefreshError::BadInterval)
    } else if !(watch_budget is Some && 1 <= watch_budget->0 <= u32::MAX) {
        Err(RefreshError::BadBudget)
    } else if no_watch && (mode is Some || interval is Some || budget is Some) {
        Err(RefreshError::Disabled)
    } else if watch_mode == Some(WatchMode::Poll) && budget is Some {
        Err(RefreshError::BudgetOfPolling)
    } else {
        Ok(
            Refresh {
                no_watch,
                watch_mode: watch_mode->0,
                poll_interval: poll_interval->0,
                watch_budget: watch_budget->0 as u32,
            },
        )
    }
}

/// The view of a value that may not be given.
pub open spec fn given(value: Option<&str>) -> Option<Seq<char>> {
    match value {
        Some(s) => Some(s@),
        None => None,
    }
}

/// Decides how a server refreshes its index.
pub fn parse_refresh(
    no_watch: bool,
    mode: Option<&str>,
    interval: Option<&str>,
    budget: Option<&str>,
) -> (r: Result<Refresh, RefreshError>)
    ensures
        r == refresh_result(no_watch, given(mode), given(interval), given(budget)),
{
    let watch_mode = match mode {
        Some(s) => match WatchMode::from_str_opt(s) {
            Some(m) => m,
            None => {
                return Err(RefreshError::BadMode);
            },
        },
        None => WatchMode::Auto,
    };
    let poll_interval: u64 = match interval {
        Some(s) => match parse_unsigned(s) {
            Some(n) => n,
            None => {
                return Err(RefreshError::BadInterval);
            },
        },
        None => DEFAULT_POLL_INTERVAL,
    };
    if poll_interval < 1 || poll_interval > MAX_POLL_INTERVAL {
        return Err(RefreshError::BadInterval);
    }
    let watch_budget: u64 = match budget {
        Some(s) => match parse_unsigned(s) {
            Some(n) => n,
            None => {
                return Err(RefreshError::BadBudget);
            },
        },
        None => DEFAULT_WATCH_BUDGET as u64,
    };
    if watch_budget < 1 || watch_budget > u32::MAX as u64 {
        return Err(RefreshError::BadBudget);
    }
    if no_watch && (mode.is_some() || interval.is_some() || budget.is_some()) {
        return Err(RefreshError::Disabled);
    }
    if watch_mode == WatchMode::Poll && budget.is_some() {
        return Err(RefreshError::BudgetOfPolling);
    }
    Ok(Refresh { no_watch, watch_mode, poll_interval, watch_budget: watch_budget as u32 })
}

impl RefreshError {
    /// What a refusal says.
    pub open spec fn text(self) -> Seq<char> {
        match self {
            RefreshError::BadMode => "--watch-mode is auto or poll"@,
            RefreshError::BadInterval => "--poll-interval is from 1 to 86400"@,
            RefreshError::BadBudget => "--watch-budget is from 1 to 4294967295"@,
            RefreshError::Disabled =>
                "--no-watch cannot be used with --watch-mode, --poll-interval or --watch-budget"@,
            RefreshError::BudgetOfPolling =>
                "--watch-budget cannot be used with --watch-mode poll"@,
        }
    }

    /// What a refusal says.
    pub fn message(self) -> (r: &'static str)
        ensures
            r@ == self.text(),
    {
        match self {
            RefreshError::BadMode => "--watch-mode is auto or poll",
            RefreshError::BadInterval => "--poll-interval is from 1 to 86400",
            RefreshError::BadBudget => "--watch-budget is from 1 to 4294967295",
            RefreshError::Disabled =>
                "--no-watch cannot be used with --watch-mode, --poll-interval or --watch-budget",
            RefreshError::BudgetOfPolling =>
                "--watch-budget cannot be used with --watch-mode poll",
        }
    }
}

} // verus!
