//! Time windows of the status page and the archives behind them.
use crate::text::same_str;
use vstd::prelude::*;

verus! {

/// Step width of the fine archive; the other archives are multiples of it.
pub const WINDOW_SECS: u64 = 5;

/// 60 min at 5 s.
pub const FINE_SLOTS: usize = 720;

/// 24 h at 60 s.
pub const MINUTE_SLOTS: usize = 1440;

/// 30 d at 1 h.
pub const HOURLY_SLOTS: usize = 720;

/// 1 year at 1 d.
pub const DAILY_SLOTS: usize = 365;

/// Fine slots per minute slot.
pub const MINUTE_RATIO: u64 = 12;

/// Minute slots per hourly slot.
pub const HOURLY_RATIO: u64 = 60;

/// Hourly slots per daily slot.
pub const DAILY_RATIO: u64 = 24;

/// Time window for sparklines and top-path queries.
#[derive(Clone, Copy, Debug, PartialEq, Eq, Structural)]
pub enum TimePeriod {
    Min5,
    Min15,
    Min60,
    Hr3,
    Hr6,
    Hr12,
    Day1,
    Day7,
    Day30,
    Month1,
    Month3,
    Month6,
    Month12,
}

/// The archive that backs a time window.
#[derive(Clone, Copy, Debug, PartialEq, Eq, Structural)]
pub enum ArchiveKind {
    Fine,
    Minute,
    Hourly,
    Daily,
}

impl ArchiveKind {
    /// Seconds that one slot of the archive spans.
    pub open spec fn step(self) -> int {
        match self {
            ArchiveKind::Fine => 5,
            ArchiveKind::Minute => 60,
            ArchiveKind::Hourly => 3600,
            ArchiveKind::Daily => 86400,
        }
    }

    /// Slots that the archive holds.
    pub open spec fn slots(self) -> int {
        match self {
            ArchiveKind::Fine => 720,
            ArchiveKind::Minute => 1440,
            ArchiveKind::Hourly => 720,
            ArchiveKind::Daily => 365,
        }
    }
}

impl TimePeriod {
    /// The window that a query token names, if it names one.
    pub open spec fn named(s: Seq<char>) -> Option<TimePeriod> {
        if s == "5min"@ || s == "5m"@ {
            Some(TimePeriod::Min5)
        } else if s == "15min"@ || s == "15m"@ {
            Some(TimePeriod::Min15)
        } else if s == "1h"@ || s == "60min"@ || s == "60m"@ {
            Some(TimePeriod::Min60)
        } else if s == "3h"@ {
            Some(TimePeriod::Hr3)
        } else if s == "6h"@ {
            Some(TimePeriod::Hr6)
        } else if s == "12h"@ {
            Some(TimePeriod::Hr12)
        } else if s == "1d"@ {
            Some(TimePeriod::Day1)
        } else if s == "7d"@ {
            Some(TimePeriod::Day7)
        } else if s == "30d"@ {
            Some(TimePeriod::Day30)
        } else if s == "1mo"@ {
            Some(TimePeriod::Month1)
        } else if s == "3mo"@ {
            Some(TimePeriod::Month3)
        } else if s == "6mo"@ {
            Some(TimePeriod::Month6)
        } else if s == "1y"@ || s == "12mo"@ {
            Some(TimePeriod::Month12)
        } else {
            None
        }
    }

    /// Parses a query token such as "15min" or "7d"; `Min15` for an
    /// unrecognised one.
    pub fn from_query(s: &str) -> (r: Self)
        ensures
            r == (match Self::named(s@) {
                Some(p) => p,
                None => TimePeriod::Min15,
            }),
    {
        if same_str(s, "5min") || same_str(s, "5m") {
            TimePeriod::Min5
        } else if same_str(s, "15min") || same_str(s, "15m") {
            TimePeriod::Min15
        } else if same_str(s, "1h") || same_str(s, "60min") || same_str(s, "60m") {
            TimePeriod::Min60
        } else if same_str(s, "3h") {
            TimePeriod::Hr3
        } else if same_str(s, "6h") {
            TimePeriod::Hr6
        } else if same_str(s, "12h") {
            TimePeriod::Hr12
        } else if same_str(s, "1d") {
            TimePeriod::Day1
        } else if same_str(s, "7d") {
            TimePeriod::Day7
        } else if same_str(s, "30d") {
            TimePeriod::Day30
        } else if same_str(s, "1mo") {
            TimePeriod::Month1
        } else if same_str(s, "3mo") {
            TimePeriod::Month3
        } else if same_str(s, "6mo") {
            TimePeriod::Month6
        } else if same_str(s, "1y") || same_str(s, "12mo") {
            TimePeriod::Month12
        } else {
            TimePeriod::Min15
        }
    }

    /// The canonical query token of a window.
    pub open spec fn token(self) -> Seq<char> {
        match self {
            TimePeriod::Min5 => "5min"@,
            TimePeriod::Min15 => "15min"@,
            TimePeriod::Min60 => "1h"@,
            TimePeriod::Hr3 => "3h"@,
            TimePeriod::Hr6 => "6h"@,
            TimePeriod::Hr12 => "12h"@,
            TimePeriod::Day1 => "1d"@,
            TimePeriod::Day7 => "7d"@,
            TimePeriod::Day30 => "30d"@,
            TimePeriod::Month1 => "1mo"@,
            TimePeriod::Month3 => "3mo"@,
            TimePeriod::Month6 => "6mo"@,
            TimePeriod::Month12 => "1y"@,
        }
    }

    pub fn as_str(self) -> (r: &'static str)
        ensures
            r@ == self.token(),
    {
        match self {
            TimePeriod::Min5 => "5min",
            TimePeriod::Min15 => "15min",
            TimePeriod::Min60 => "1h",
            TimePeriod::Hr3 => "3h",
            TimePeriod::Hr6 => "6h",
            TimePeriod::Hr12 => "12h",
            TimePeriod::Day1 => "1d",
            TimePeriod::Day7 => "7d",
            TimePeriod::Day30 => "30d",
            TimePeriod::Month1 => "1mo",
            TimePeriod::Month3 => "3mo",
            TimePeriod::Month6 => "6mo",
            TimePeriod::Month12 => "1y",
        }
    }

    /// Seconds that the window spans; a month counts 30 days and a year 365.
    pub open spec fn span_secs(self) -> int {
        match self {
            TimePeriod::Min5 => 300,
            TimePeriod::Min15 => 900,
            TimePeriod::Min60 => 3600,
            TimePeriod::Hr3 => 10800,
            TimePeriod::Hr6 => 21600,
            TimePeriod::Hr12 => 43200,
            TimePeriod::Day1 => 86400,
            TimePeriod::Day7 => 604800,
            TimePeriod::Day30 => 2592000,
            TimePeriod::Month1 => 2592000,
            TimePeriod::Month3 => 7776000,
            TimePeriod::Month6 => 15552000,
            TimePeriod::Month12 => 31536000,
        }
    }

    /// The finest archive that reaches back over the window.
    pub open spec fn backing(self) -> ArchiveKind {
        let span = self.span_secs();
        if span <= 720 * 5 {
            ArchiveKind::Fine
        } else if span <= 1440 * 60 {
            ArchiveKind::Minute
        } else if span <= 720 * 3600 {
            ArchiveKind::Hourly
        } else {
            ArchiveKind::Daily
        }
    }

    /// The archive that backs the window and the number of its slots that the
    /// window takes.
    pub fn archive(&self) -> (r: (ArchiveKind, usize))
        ensures
            r.0 == self.backing(),
            r.1 * self.backing().step() == self.span_secs(),
            0 < r.1 <= self.backing().slots(),
    {
        match self {
            TimePeriod::Min5 => (ArchiveKind::Fine, 60),
            TimePeriod::Min15 => (ArchiveKind::Fine, 180),
            TimePeriod::Min60 => (ArchiveKind::Fine, FINE_SLOTS),
            TimePeriod::Hr3 => (ArchiveKind::Minute, 180),
            TimePeriod::Hr6 => (ArchiveKind::Minute, 360),
            TimePeriod::Hr12 => (ArchiveKind::Minute, 720),
            TimePeriod::Day1 => (ArchiveKind::Minute, MINUTE_SLOTS),
            TimePeriod::Day7 => (ArchiveKind::Hourly, 168),
            TimePeriod::Day30 => (ArchiveKind::Hourly, HOURLY_SLOTS),
            TimePeriod::Month1 => (ArchiveKind::Hourly, HOURLY_SLOTS),
            TimePeriod::Month3 => (ArchiveKind::Daily, 90),
            TimePeriod::Month6 => (ArchiveKind::Daily, 180),
            TimePeriod::Month12 => (ArchiveKind::Daily, DAILY_SLOTS),
        }
    }

    /// Step width in seconds of the archive that backs the window.
    pub fn step_secs(self) -> (r: u64)
        ensures
            r == self.backing().step(),
    {
        match self.archive().0 {
            ArchiveKind::Fine => WINDOW_SECS,
            ArchiveKind::Minute => WINDOW_SECS * MINUTE_RATIO,
            ArchiveKind::Hourly => WINDOW_SECS * MINUTE_RATIO * HOURLY_RATIO,
            ArchiveKind::Daily => WINDOW_SECS * MINUTE_RATIO * HOURLY_RATIO * DAILY_RATIO,
        }
    }
}

/// The token of a window names that window.
pub proof fn law_token_names_period(p: TimePeriod)
    ensures
        TimePeriod::named(p.token()) == Some(p),
{
    reveal_strlit("5min");
    reveal_strlit("5m");
    reveal_strlit("15min");
    reveal_strlit("15m");
    reveal_strlit("1h");
    reveal_strlit("60min");
    reveal_strlit("60m");
    reveal_strlit("3h");
    reveal_strlit("6h");
    reveal_strlit("12h");
    reveal_strlit("1d");
    reveal_strlit("7d");
    reveal_strlit("30d");
    reveal_strlit("1mo");
    reveal_strlit("3mo");
    reveal_strlit("6mo");
    reveal_strlit("1y");
    reveal_strlit("12mo");
    assert("5min"@[0] == '5' && "5min"@[1] == 'm');
    assert("5m"@[0] == '5' && "5m"@[1] == 'm');
    assert("15min"@[0] == '1' && "15min"@[1] == '5');
    assert("15m"@[0] == '1' && "15m"@[1] == '5');
    assert("1h"@[0] == '1' && "1h"@[1] == 'h');
    assert("60min"@[0] == '6' && "60min"@[1] == '0');
    assert("60m"@[0] == '6' && "60m"@[1] == '0');
    assert("3h"@[0] == '3' && "3h"@[1] == 'h');
    assert("6h"@[0] == '6' && "6h"@[1] == 'h');
    assert("12h"@[0] == '1' && "12h"@[1] == '2');
    assert("1d"@[0] == '1' && "1d"@[1] == 'd');
    assert("7d"@[0] == '7' && "7d"@[1] == 'd');
    assert("30d"@[0] == '3' && "30d"@[1] == '0');
    assert("1mo"@[0] == '1' && "1mo"@[1] == 'm');
    assert("3mo"@[0] == '3' && "3mo"@[1] == 'm');
    assert("6mo"@[0] == '6' && "6mo"@[1] == 'm');
    assert("1y"@[0] == '1' && "1y"@[1] == 'y');
    assert("12mo"@[0] == '1' && "12mo"@[1] == '2');
}

} // verus!
