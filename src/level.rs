use vstd::prelude::*;

verus! {

/// Severity of an event, from the least to the most severe.
#[derive(Clone, Copy, Debug, PartialEq, Eq, Structural)]
pub enum Level {
    Trace,
    Debug,
    Info,
    Warn,
    Error,
}

/// Position of a level in the severity order: trace is 0, error is 4.
pub open spec fn rank(l: Level) -> nat {
    match l {
        Level::Trace => 0,
        Level::Debug => 1,
        Level::Info => 2,
        Level::Warn => 3,
        Level::Error => 4,
    }
}

pub open spec fn emoji_of(l: Level) -> Seq<char> {
    match l {
        Level::Trace => ":mag:"@,
        Level::Debug => ":bug:"@,
        Level::Info => ":information_source:"@,
        Level::Warn => ":warning:"@,
        Level::Error => ":x:"@,
    }
}

pub open spec fn color_of(l: Level) -> u32 {
    match l {
        Level::Trace => 0x1abc9c,
        Level::Debug => 0x1abc9c,
        Level::Info => 0x57f287,
        Level::Warn => 0xe67e22,
        Level::Error => 0xed4245,
    }
}

pub open spec fn name_of(l: Level) -> Seq<char> {
    match l {
        Level::Trace => "TRACE"@,
        Level::Debug => "DEBUG"@,
        Level::Info => "INFO"@,
        Level::Warn => "WARN"@,
        Level::Error => "ERROR"@,
    }
}

/// ASCII lower-case form of a character; other characters are kept.
pub open spec fn lower(c: char) -> char {
    if 'A' <= c && c <= 'Z' {
        ((c as u8) + 32) as char
    } else {
        c
    }
}

pub open spec fn lower_seq(s: Seq<char>) -> Seq<char> {
    s.map_values(|c: char| lower(c))
}

/// The level whose lower-case name is `s` once ASCII letters are lowered.
pub open spec fn parsed_level(s: Seq<char>) -> Option<Level> {
    let t = lower_seq(s);
    if t == "trace"@ {
        Some(Level::Trace)
    } else if t == "debug"@ {
        Some(Level::Debug)
    } else if t == "info"@ {
        Some(Level::Info)
    } else if t == "warn"@ {
        Some(Level::Warn)
    } else if t == "error"@ {
        Some(Level::Error)
    } else {
        None
    }
}

fn lower_char(c: char) -> (r: char)
    ensures
        r == lower(c),
{
    if 'A' <= c && c <= 'Z' {
        ((c as u8) + 32) as char
    } else {
        c
    }
}

/// Whether `s`, with its ASCII letters lowered, is exactly `name`.
fn matches_name(s: &str, name: &str) -> (r: bool)
    ensures
        r == (lower_seq(s@) == name@),
{
    let n = s.unicode_len();
    let m = name.unicode_len();
    if n != m {
        proof {
            if lower_seq(s@) == name@ {
                assert(lower_seq(s@).len() == s@.len());
            }
        }
        return false;
    }
    let mut i: usize = 0;
    while i < n
        invariant
            n == s@.len(),
            m == name@.len(),
            n == m,
            0 <= i <= n,
            forall|j: int| 0 <= j < i ==> lower(s@[j]) == name@[j],
        decreases n - i,
    {
        if lower_char(s.get_char(i)) != name.get_char(i) {
            proof {
                assert(lower_seq(s@)[i as int] != name@[i as int]);
            }
            return false;
        }
        i = i + 1;
    }
    proof {
        assert(lower_seq(s@) =~= name@);
    }
    true
}

impl Level {
    /// The emoji shown in front of an event of this level.
    pub fn as_emoji(&self) -> (r: &'static str)
        ensures
            r@ == emoji_of(*self),
    {
        match *self {
            Level::Trace => ":mag:",
            Level::Debug => ":bug:",
            Level::Info => ":information_source:",
            Level::Warn => ":warning:",
            Level::Error => ":x:",
        }
    }

    /// The embed color of an event of this level; trace and debug share one.
    pub fn as_color(&self) -> (r: u32)
        ensures
            r == color_of(*self),
    {
        match *self {
            Level::Trace => 0x1abc9c,
            Level::Debug => 0x1abc9c,
            Level::Info => 0x57f287,
            Level::Warn => 0xe67e22,
            Level::Error => 0xed4245,
        }
    }

    /// The upper-case name of the level.
    pub fn as_str(&self) -> (r: &'static str)
        ensures
            r@ == name_of(*self),
    {
        match *self {
            Level::Trace => "TRACE",
            Level::Debug => "DEBUG",
            Level::Info => "INFO",
            Level::Warn => "WARN",
            Level::Error => "ERROR",
        }
    }

    /// Whether this level is at least as severe as `threshold`.
    pub fn is_at_least(&self, threshold: Level) -> (r: bool)
        ensures
            r == (rank(*self) >= rank(threshold)),
    {
        self.rank() >= threshold.rank()
    }

    fn rank(&self) -> (r: u8)
        ensures
            r as nat == rank(*self),
    {
        match *self {
            Level::Trace => 0,
            Level::Debug => 1,
            Level::Info => 2,
            Level::Warn => 3,
            Level::Error => 4,
        }
    }

    /// Reads a level from its name, ignoring ASCII case; `None` for any other text.
    pub fn parse(s: &str) -> (r: Option<Level>)
        ensures
            r == parsed_level(s@),
    {
        if matches_name(s, "trace") {
            Some(Level::Trace)
        } else if matches_name(s, "debug") {
            Some(Level::Debug)
        } else if matches_name(s, "info") {
            Some(Level::Info)
        } else if matches_name(s, "warn") {
            Some(Level::Warn)
        } else if matches_name(s, "error") {
            Some(Level::Error)
        } else {
            None
        }
    }
}

} // verus!
