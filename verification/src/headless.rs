//! How the server runs without a window: its port, address and data
//! directory, read from the environment, and how its token is shown.
use vstd::prelude::*;
use crate::text::{append_str, chars_of, owned};

verus! {

/// The port served where none is set.
pub const DEFAULT_PORT: u16 = 3690;

/// The digit value of an ASCII digit.
pub open spec fn digit_value(c: char) -> nat {
    (c as u32 - '0' as u32) as nat
}

/// An ASCII digit.
pub open spec fn is_digit(c: char) -> bool {
    '0' <= c <= '9'
}

/// The number that a string of ASCII digits writes in decimal.
pub open spec fn digits_value(s: Seq<char>) -> nat
    decreases s.len(),
{
    if s.len() == 0 {
        0
    } else {
        digits_value(s.drop_last()) * 10 + digit_value(s.last())
    }
}

/// Every character is an ASCII digit.
pub open spec fn all_digits(d: Seq<char>) -> bool {
    forall|i: int| 0 <= i < d.len() ==> is_digit(#[trigger] d[i])
}

/// The text without a leading `+`.
pub open spec fn unsigned_part(s: Seq<char>) -> Seq<char> {
    if s.len() > 0 && s[0] == '+' {
        s.skip(1)
    } else {
        s
    }
}

/// The digits of a port number as text: an optional `+` and then at least
/// one ASCII digit, and nothing else.
pub open spec fn port_digits(s: Seq<char>) -> Option<Seq<char>> {
    let d = unsigned_part(s);
    if d.len() > 0 && all_digits(d) {
        Some(d)
    } else {
        None
    }
}

/// The port a text names (`u16`'s `FromStr`): its digits' value where that
/// fits in 16 bits.
pub open spec fn port_value(s: Seq<char>) -> Option<u16> {
    match port_digits(s) {
        Some(d) => if digits_value(d) <= u16::MAX {
            Some(digits_value(d) as u16)
        } else {
            None
        },
        None => None,
    }
}

proof fn lemma_digits_value_grows(s: Seq<char>, n: int)
    requires
        0 <= n <= s.len(),
        all_digits(s),
    ensures
        digits_value(s.take(n)) <= digits_value(s),
    decreases s.len() - n,
{
    if n < s.len() {
        lemma_digits_value_grows(s, n + 1);
        assert(s.take(n + 1).drop_last() =~= s.take(n));
    } else {
        assert(s.take(n) =~= s);
    }
}

/// Reads a port number.
pub fn parse_port(s: &str) -> (r: Option<u16>)
    ensures
        r == port_value(s@),
{
    let cs = chars_of(s);
    let start: usize = if cs.len() > 0 && cs[0] == '+' {
        1
    } else {
        0
    };
    let ghost d = unsigned_part(cs@);
    assert(d =~= cs@.skip(start as int));
    if start >= cs.len() {
        return None;
    }
    let mut value: u32 = 0;
    let mut i: usize = start;
    while i < cs.len()
        invariant
            start <= i <= cs@.len(),
            start < cs@.len(),
            cs@ == s@,
            d == unsigned_part(s@),
            d == cs@.skip(start as int),
            forall|k: int| 0 <= k < i - start ==> is_digit(#[trigger] d[k]),
            value == digits_value(d.take(i - start)),
            value <= u16::MAX,
        decreases cs@.len() - i,
    {
        let c = cs[i];
        assert(d[i - start] == c);
        if !('0' <= c && c <= '9') {
            assert(!is_digit(d[i - start]));
            assert(!all_digits(d));
            return None;
        }
        assert(d.take(i + 1 - start).drop_last() =~= d.take(i - start));
        let next: u32 = value * 10 + (c as u32 - '0' as u32);
        assert(next == digits_value(d.take(i + 1 - start)));
        if next > 65535 {
            proof {
                if all_digits(d) {
                    lemma_digits_value_grows(d, i + 1 - start);
                }
            }
            return None;
        }
        value = next;
        i = i + 1;
    }
    assert(d.take(d.len() as int) =~= d);
    Some(value as u16)
}

/// Where and how the server runs.
pub struct HeadlessSettings {
    pub port: u16,
    pub bind_addr: String,
    pub data_dir: String,
}

/// `name` put under the directory `base`, with a separator between them
/// unless `base` is empty or already ends with one.
pub open spec fn joined_path(base: Seq<char>, name: Seq<char>) -> Seq<char> {
    if base.len() == 0 {
        name
    } else if base.last() == '/' {
        base + name
    } else {
        base + "/"@ + name
    }
}

/// The settings read from the environment: the port where it names one,
/// else the default; the address, else all interfaces; the data directory,
/// else `.vida-ai` in the home directory (or in `/tmp` without one).
pub fn headless_settings(
    port: Option<&str>,
    bind_addr: Option<&str>,
    data_dir: Option<&str>,
    home: Option<&str>,
) -> (r: HeadlessSettings)
    ensures
        r.port == match port {
            Some(p) => match port_value(p@) {
                Some(n) => n,
                None => DEFAULT_PORT,
            },
            None => DEFAULT_PORT,
        },
        r.bind_addr@ == match bind_addr {
            Some(b) => b@,
            None => "0.0.0.0"@,
        },
        r.data_dir@ == match data_dir {
            Some(d) => d@,
            None => joined_path(
                match home {
                    Some(h) => h@,
                    None => "/tmp"@,
                },
                ".vida-ai"@,
            ),
        },
{
    let port = match port {
        Some(p) => match parse_port(p) {
            Some(n) => n,
            None => DEFAULT_PORT,
        },
        None => DEFAULT_PORT,
    };
    let bind_addr = match bind_addr {
        Some(b) => owned(b),
        None => owned("0.0.0.0"),
    };
    let data_dir = match data_dir {
        Some(d) => owned(d),
        None => {
            let base = match home {
                Some(h) => h,
                None => "/tmp",
            };
            let cs = chars_of(base);
            if cs.len() == 0 {
                owned(".vida-ai")
            } else if cs[cs.len() - 1] == '/' {
                let mut out = owned(base);
                append_str(&mut out, ".vida-ai");
                out
            } else {
                let mut out = owned(base);
                append_str(&mut out, "/");
                append_str(&mut out, ".vida-ai");
                out
            }
        },
    };
    HeadlessSettings { port, bind_addr, data_dir }
}

} // verus!
