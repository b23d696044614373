//! The server's configuration, read from the values of its environment.

use vstd::prelude::*;
use vstd::string::StrSliceExecFns;

verus! {

/// Where the server listens, and where its optional database is.
#[derive(Debug, PartialEq, Eq)]
pub struct Config {
    pub host: String,
    pub port: u16,
    pub database_url: Option<String>,
}

/// Why the environment's values make no configuration.
#[derive(Clone, Copy, Debug, PartialEq, Eq, Structural)]
pub enum ConfigError {
    /// No host is set.
    MissingHost,
    /// No port is set.
    MissingPort,
    /// The port's text is not a decimal number that fits a port.
    InvalidPort,
}

/// Whether `c` is a decimal digit.
pub open spec fn is_digit(c: char) -> bool {
    '0' <= c <= '9'
}

/// The number that a string of decimal digits writes.
pub open spec fn digits_value(digits: Seq<char>) -> nat
    decreases digits.len(),
{
    if digits.len() == 0 {
        0
    } else {
        (digits_value(digits.drop_last()) * 10 + (digits.last() as int - '0' as int)) as nat
    }
}

/// The digits of a port's text: the text without a leading plus sign.
pub open spec fn port_digits(text: Seq<char>) -> Seq<char> {
    if text.len() > 0 && text[0] == '+' {
        text.subrange(1, text.len() as int)
    } else {
        text
    }
}

/// The port that `text` writes: an optional plus sign, then at least one
/// decimal digit and nothing else, with a value that fits sixteen bits.
pub open spec fn port_of(text: Seq<char>) -> Option<u16> {
    let digits = port_digits(text);
    if digits.len() > 0 && (forall|i: int| 0 <= i < digits.len() ==> is_digit(#[trigger] digits[i]))
        && digits_value(digits) <= u16::MAX {
        Some(digits_value(digits) as u16)
    } else {
        None
    }
}

/// Reads a port from its text.
pub fn parse_port(text: &str) -> (port: Option<u16>)
    ensures
        port == port_of(text@),
{
    let ghost digits = port_digits(text@);
    if !text.is_ascii() {
        proof {
            let i = choose|i: int|
                0 <= i < text@.len() && !('\0' <= #[trigger] text@[i] <= '\u{7f}');
            if digits.len() == text@.len() {
                assert(!is_digit(digits[i]));
            } else {
                assert(!is_digit(digits[i - 1]));
            }
        }
        return None;
    }
    let length = text.unicode_len();
    let start: usize = if length > 0 && text.get_ascii(0) == '+' as u8 {
        1
    } else {
        0
    };
    if start == length {
        return None;
    }
    let mut value: u32 = 0;
    let mut fits = true;
    let mut at: usize = start;
    while at < length
        invariant
            start <= at <= length,
            length == text@.len(),
            text.is_ascii(),
            digits == port_digits(text@),
            digits.len() == length - start,
            forall|i: int| 0 <= i < digits.len() ==> digits[i] == text@[start + i],
            forall|i: int| 0 <= i < at - start ==> is_digit(#[trigger] digits[i]),
            fits ==> value == digits_value(digits.take(at - start)) && value <= u16::MAX,
            !fits ==> digits_value(digits.take(at - start)) > u16::MAX,
        decreases length - at,
    {
        let byte = text.get_ascii(at);
        if byte < '0' as u8 || byte > '9' as u8 {
            assert(!is_digit(digits[at - start]));
            return None;
        }
        proof {
            let longer = digits.take(at - start + 1);
            assert(longer.drop_last() =~= digits.take(at - start));
            assert(longer.last() as int - '0' as int == byte - '0' as u8);
        }
        if fits {
            value = value * 10 + (byte - '0' as u8) as u32;
            if value > u16::MAX as u32 {
                fits = false;
            }
        }
        at += 1;
    }
    assert(digits.take(length - start) =~= digits);
    if fits {
        Some(value as u16)
    } else {
        None
    }
}

impl Config {
    /// The configuration that the environment's values make: the host as it is
    /// set, the port read from its text, and the database's address if one is
    /// set. The host is looked at first, then the port.
    pub fn from_env(
        host: Option<String>,
        port: Option<String>,
        database_url: Option<String>,
    ) -> (result: Result<Config, ConfigError>)
        ensures
            match result {
                Ok(config) => host == Some(config.host) && port is Some && port_of(port->0@)
                    == Some(config.port) && config.database_url == database_url,
                Err(ConfigError::MissingHost) => host is None,
                Err(ConfigError::MissingPort) => host is Some && port is None,
                Err(ConfigError::InvalidPort) => host is Some && port is Some && port_of(
                    port->0@,
                ) is None,
            },
    {
        let host = match host {
            Some(host) => host,
            None => return Err(ConfigError::MissingHost),
        };
        let text = match port {
            Some(text) => text,
            None => return Err(ConfigError::MissingPort),
        };
        match parse_port(text.as_str()) {
            Some(port) => Ok(Config { host, port, database_url }),
            None => Err(ConfigError::InvalidPort),
        }
    }
}

} // verus!
