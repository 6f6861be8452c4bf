//! Severity levels: a closed set of named levels plus an escape hatch for
//! arbitrary numeric codes, ordered numerically for threshold comparison.

use vstd::prelude::*;

verus! {

#[derive(Debug, Eq, PartialEq, Clone, Hash)]
pub enum LogLevel {
    TRACE,
    DEBUG,
    INFO,
    WARN,
    ERROR,
    FATAL,
    OTHER(u16),
}

impl LogLevel {
    /// The numeric code of this level.
    pub open spec fn spec_u16(&self) -> u16 {
        match *self {
            LogLevel::TRACE => 10,
            LogLevel::DEBUG => 20,
            LogLevel::INFO => 30,
            LogLevel::WARN => 40,
            LogLevel::ERROR => 50,
            LogLevel::FATAL => 60,
            LogLevel::OTHER(code) => code,
        }
    }

    #[verifier::when_used_as_spec(spec_u16)]
    pub fn as_u16(&self) -> (code: u16)
        ensures
            code == self.spec_u16(),
    {
        match *self {
            LogLevel::TRACE => 10,
            LogLevel::DEBUG => 20,
            LogLevel::INFO => 30,
            LogLevel::WARN => 40,
            LogLevel::ERROR => 50,
            LogLevel::FATAL => 60,
            LogLevel::OTHER(code) => code,
        }
    }

    /// The display name of this level: the well-known name, or `LVL<code>`.
    pub open spec fn spec_name(self) -> Seq<char> {
        match self {
            LogLevel::TRACE => "TRACE"@,
            LogLevel::DEBUG => "DEBUG"@,
            LogLevel::INFO => "INFO"@,
            LogLevel::WARN => "WARN"@,
            LogLevel::ERROR => "ERROR"@,
            LogLevel::FATAL => "FATAL"@,
            LogLevel::OTHER(code) => "LVL"@ + crate::text::dec_str_of(code as nat),
        }
    }

    pub fn as_string(&self) -> (name: String)
        ensures
            name@ == self.spec_name(),
    {
        match *self {
            LogLevel::TRACE => String::from_str("TRACE"),
            LogLevel::DEBUG => String::from_str("DEBUG"),
            LogLevel::INFO => String::from_str("INFO"),
            LogLevel::WARN => String::from_str("WARN"),
            LogLevel::ERROR => String::from_str("ERROR"),
            LogLevel::FATAL => String::from_str("FATAL"),
            LogLevel::OTHER(code) => {
                let mut s = String::from_str("LVL");
                crate::text::push_dec_u64(&mut s, code as u64);
                s
            },
        }
    }

    /// The level that a numeric code denotes.
    pub open spec fn spec_from_u16(code: u16) -> LogLevel {
        if code == 10 {
            LogLevel::TRACE
        } else if code == 20 {
            LogLevel::DEBUG
        } else if code == 30 {
            LogLevel::INFO
        } else if code == 40 {
            LogLevel::WARN
        } else if code == 50 {
            LogLevel::ERROR
        } else if code == 60 {
            LogLevel::FATAL
        } else {
            LogLevel::OTHER(code)
        }
    }

    pub fn from_u16(code: u16) -> (level: LogLevel)
        ensures
            level == LogLevel::spec_from_u16(code),
    {
        match code {
            10u16 => LogLevel::TRACE,
            20u16 => LogLevel::DEBUG,
            30u16 => LogLevel::INFO,
            40u16 => LogLevel::WARN,
            50u16 => LogLevel::ERROR,
            60u16 => LogLevel::FATAL,
            _ => LogLevel::OTHER(code),
        }
    }

    /// The display name right-padded on the left to a width of five columns;
    /// names longer than five columns get no padding.
    pub open spec fn spec_padded_name(self) -> Seq<char> {
        let name = self.spec_name();
        if name.len() > 5 {
            name
        } else {
            crate::text::spaces((5 - name.len()) as nat) + name
        }
    }

    /// What a level token denotes, compared without regard to ASCII case:
    /// a well-known name, or a numeral — with an optional `LVL` prefix —
    /// that fits sixteen bits; anything else is no level.
    pub open spec fn spec_parse(s: Seq<char>) -> Option<LogLevel> {
        if crate::text::eq_ignore_case(s, "TRACE"@) {
            Some(LogLevel::TRACE)
        } else if crate::text::eq_ignore_case(s, "DEBUG"@) {
            Some(LogLevel::DEBUG)
        } else if crate::text::eq_ignore_case(s, "INFO"@) {
            Some(LogLevel::INFO)
        } else if crate::text::eq_ignore_case(s, "WARN"@) {
            Some(LogLevel::WARN)
        } else if crate::text::eq_ignore_case(s, "ERROR"@) {
            Some(LogLevel::ERROR)
        } else if crate::text::eq_ignore_case(s, "FATAL"@) {
            Some(LogLevel::FATAL)
        } else {
            let body = if s.len() >= 3 && crate::text::eq_ignore_case(s.subrange(0, 3), "LVL"@) {
                s.subrange(3, s.len() as int)
            } else {
                s
            };
            match crate::text::parse_unsigned_str(body, u16::MAX as nat) {
                Some(code) => Some(LogLevel::OTHER(code as u16)),
                None => None,
            }
        }
    }

    /// Parses a level token. The error carries the token unchanged.
    pub fn parse(level: &str) -> (r: Result<LogLevel, String>)
        ensures
            match r {
                Ok(l) => LogLevel::spec_parse(level@) == Some(l),
                Err(m) => LogLevel::spec_parse(level@) is None && m@ == level@,
            },
    {
        if crate::text::str_eq_ignore_case(level, "TRACE") {
            Ok(LogLevel::TRACE)
        } else if crate::text::str_eq_ignore_case(level, "DEBUG") {
            Ok(LogLevel::DEBUG)
        } else if crate::text::str_eq_ignore_case(level, "INFO") {
            Ok(LogLevel::INFO)
        } else if crate::text::str_eq_ignore_case(level, "WARN") {
            Ok(LogLevel::WARN)
        } else if crate::text::str_eq_ignore_case(level, "ERROR") {
            Ok(LogLevel::ERROR)
        } else if crate::text::str_eq_ignore_case(level, "FATAL") {
            Ok(LogLevel::FATAL)
        } else {
            let n = level.unicode_len();
            let has_prefix = if n >= 3 {
                let head = level.substring_char(0, 3);
                crate::text::str_eq_ignore_case(head, "LVL")
            } else {
                false
            };
            let body = if has_prefix {
                level.substring_char(3, n)
            } else {
                level
            };
            match crate::text::parse_u16_str(body) {
                Some(code) => Ok(LogLevel::OTHER(code)),
                None => Err(String::from_str(level)),
            }
        }
    }

    pub fn padded_name(&self) -> (padded: String)
        ensures
            padded@ == self.spec_padded_name(),
    {
        let name = self.as_string();
        let name_len = name.as_str().unicode_len();
        let mut out = String::new();
        if name_len <= 5 {
            crate::text::push_spaces(&mut out, 5 - name_len);
        }
        out.append(name.as_str());
        out
    }
}

} // verus!
