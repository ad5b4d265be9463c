use vstd::prelude::*;
use crate::text::{chars_of, same_text};

verus! {

/// Settings of the service.
#[derive(Debug, Clone)]
pub struct Config {
    pub database: DatabaseConfig,
    pub server: ServerConfig,
    pub cors: CorsConfig,
}

/// Where the store is.
#[derive(Debug, Clone)]
pub struct DatabaseConfig {
    pub url: String,
}

/// Where the service listens.
#[derive(Debug, Clone)]
pub struct ServerConfig {
    pub host: String,
    pub port: u16,
}

/// Which origin may call the service; "*" stands for any.
#[derive(Debug, Clone)]
pub struct CorsConfig {
    pub allowed_origin: String,
}

/// Port used when none is configured.
pub const DEFAULT_PORT: u16 = 8000;

/// The character is an ASCII decimal digit.
pub open spec fn is_digit(c: char) -> bool {
    '0' <= c && c <= '9'
}

/// The decimal value of a run of ASCII digits.
pub open spec fn digits_value(s: Seq<char>) -> int
    decreases s.len(),
{
    if s.len() == 0 {
        0
    } else {
        digits_value(s.drop_last()) * 10 + (s.last() as int - '0' as int)
    }
}

/// The digits of a port number: the text without one leading '+', if any.
pub open spec fn port_digits(s: Seq<char>) -> Seq<char> {
    if s.len() > 0 && s[0] == '+' {
        s.drop_first()
    } else {
        s
    }
}

/// The text is a port number: an optional '+' and one or more decimal digits
/// whose value fits in 16 bits.
pub open spec fn is_port_text(s: Seq<char>) -> bool {
    let d = port_digits(s);
    &&& d.len() > 0
    &&& forall|i: int| 0 <= i < d.len() ==> is_digit(#[trigger] d[i])
    &&& digits_value(d) <= 0xffff
}

/// Reads a port number written in decimal.
pub fn parse_port(s: &str) -> (r: Option<u16>)
    ensures
        r is Some <==> is_port_text(s@),
        r matches Some(p) ==> p == digits_value(port_digits(s@)),
{
    let chars = chars_of(s);
    let start: usize = if chars.len() > 0 && chars[0] == '+' {
        1
    } else {
        0
    };
    let ghost d = port_digits(s@);
    assert(d =~= chars@.subrange(start as int, chars@.len() as int));
    if start == chars.len() {
        return None;
    }
    let mut value: u32 = 0;
    let mut i: usize = start;
    assert(d.subrange(0, 0) =~= Seq::<char>::empty());
    while i < chars.len()
        invariant
            start <= i <= chars.len(),
            d == port_digits(s@),
            d == chars@.subrange(start as int, chars@.len() as int),
            forall|k: int| 0 <= k < i - start ==> is_digit(#[trigger] d[k]),
            value as int == if digits_value(d.subrange(0, i - start)) <= 0x10000 {
                digits_value(d.subrange(0, i - start))
            } else {
                0x10000
            },
        decreases chars.len() - i,
    {
        let c = chars[i];
        if !('0' <= c && c <= '9') {
            assert(!is_digit(d[i - start]));
            return None;
        }
        let digit = (c as u32) - ('0' as u32);
        let ghost pre = d.subrange(0, i - start);
        let ghost next = d.subrange(0, i - start + 1);
        assert(next.drop_last() =~= pre);
        assert(next.last() == c);
        assert(digits_value(pre) >= 0) by {
            lemma_digits_nonnegative(pre);
        }
        let step: u32 = value * 10 + digit;
        value = if step > 0x10000 {
            0x10000
        } else {
            step
        };
        i = i + 1;
    }
    assert(d.subrange(0, i - start) =~= d);
    if value > 0xffff {
        None
    } else {
        Some(value as u16)
    }
}

/// A run of digits has a value of at least 0.
proof fn lemma_digits_nonnegative(s: Seq<char>)
    requires
        forall|i: int| 0 <= i < s.len() ==> is_digit(#[trigger] s[i]),
    ensures
        digits_value(s) >= 0,
    decreases s.len(),
{
    if s.len() > 0 {
        lemma_digits_nonnegative(s.drop_last());
        assert(is_digit(s[s.len() - 1]));
    }
}

impl Config {
    /// Assembles the settings from configured values: host "127.0.0.1",
    /// port `DEFAULT_PORT` and any origin when a value is not given. `None`
    /// when a port is given that is not a port number.
    pub fn from_values(
        database_url: String,
        host: Option<String>,
        port: Option<String>,
        allowed_origin: Option<String>,
    ) -> (r: Option<Config>)
        ensures
            r is None <==> (port matches Some(p) && !is_port_text(p@)),
            r matches Some(c) ==> {
                &&& c.database.url == database_url
                &&& (host matches Some(h) ==> c.server.host == h)
                &&& (host is None ==> c.server.host@ == "127.0.0.1"@)
                &&& (port matches Some(p) ==> c.server.port == digits_value(port_digits(p@)))
                &&& (port is None ==> c.server.port == DEFAULT_PORT)
                &&& (allowed_origin matches Some(o) ==> c.cors.allowed_origin == o)
                &&& (allowed_origin is None ==> c.cors.allowed_origin@ == "*"@)
            },
    {
        let port = match port {
            Some(p) => match parse_port(p.as_str()) {
                Some(v) => v,
                None => return None,
            },
            None => DEFAULT_PORT,
        };
        let host = match host {
            Some(h) => h,
            None => "127.0.0.1".to_owned(),
        };
        let allowed_origin = match allowed_origin {
            Some(o) => o,
            None => "*".to_owned(),
        };
        Some(
            Config {
                database: DatabaseConfig { url: database_url },
                server: ServerConfig { host, port },
                cors: CorsConfig { allowed_origin },
            },
        )
    }
}

impl CorsConfig {
    /// Whether every origin may call the service.
    pub fn allows_any_origin(&self) -> (r: bool)
        ensures
            r == (self.allowed_origin@ == "*"@),
    {
        same_text(&self.allowed_origin, "*")
    }
}

} // verus!
