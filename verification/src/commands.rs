//! What the command line accepts: a host, a port and a username.
use vstd::prelude::*;
use vstd::string::StrSliceExecFns;

verus! {

/// The port a server listens on when none is given.
pub const DEFAULT_TCP_PORT: u16 = 8000;

/// Whether every character of a text is an ASCII digit.
pub open spec fn all_digits(s: Seq<char>) -> bool {
    forall|i: int| 0 <= i < s.len() ==> '0' <= #[trigger] s[i] <= '9'
}

/// The number that a text of decimal digits writes.
pub open spec fn digits_value(s: Seq<char>) -> int
    decreases s.len(),
{
    if s.len() == 0 {
        0
    } else {
        digits_value(s.drop_last()) * 10 + (s.last() as int - '0' as int)
    }
}

/// A `u16` written in decimal, as the standard library reads it: an optional `+`, then one
/// or more ASCII digits and nothing else, of a value that fits.
pub open spec fn decimal_u16(s: Seq<char>) -> Option<u16> {
    let body = if s.len() > 0 && s[0] == '+' {
        s.drop_first()
    } else {
        s
    };
    if body.len() > 0 && all_digits(body) && digits_value(body) <= u16::MAX {
        Some(digits_value(body) as u16)
    } else {
        None
    }
}

/// A prefix of a text of digits writes a number no greater than the whole text does.
proof fn lemma_digits_prefix(s: Seq<char>, k: int)
    requires
        all_digits(s),
        0 <= k <= s.len(),
    ensures
        0 <= digits_value(s.subrange(0, k)) <= digits_value(s),
    decreases s.len(),
{
    if s.len() > 0 {
        let rest = s.drop_last();
        assert(all_digits(rest)) by {
            assert forall|i: int| 0 <= i < rest.len() implies '0' <= #[trigger] rest[i] <= '9' by {
                assert(rest[i] == s[i]);
            }
        }
        assert('0' <= s[s.len() - 1] <= '9');
        if k < s.len() {
            lemma_digits_prefix(rest, k);
            assert(rest.subrange(0, k) =~= s.subrange(0, k));
        } else {
            lemma_digits_prefix(rest, rest.len() as int);
            assert(s.subrange(0, k) =~= s);
        }
        assert(rest.subrange(0, rest.len() as int) =~= rest);
    }
}

/// Reads a `u16` written in decimal: an optional `+` followed by at least one ASCII digit,
/// of a value that fits.
fn parse_u16(s: &str) -> (r: Option<u16>)
    ensures
        r == decimal_u16(s@),
{
    let len = s.unicode_len();
    let start: usize = if len > 0 && s.get_char(0) == '+' {
        1
    } else {
        0
    };
    let ghost body = if s@.len() > 0 && s@[0] == '+' {
        s@.drop_first()
    } else {
        s@
    };
    proof {
        assert(body =~= s@.subrange(start as int, len as int));
    }
    if start >= len {
        return None;
    }
    let mut value: u32 = 0;
    let mut i: usize = start;
    while i < len
        invariant
            start <= i <= len,
            len == s@.len(),
            body == s@.subrange(start as int, len as int),
            body == (if s@.len() > 0 && s@[0] == '+' {
                s@.drop_first()
            } else {
                s@
            }),
            all_digits(s@.subrange(start as int, i as int)),
            value == digits_value(s@.subrange(start as int, i as int)),
            value <= u16::MAX,
        decreases len - i,
    {
        let c = s.get_char(i);
        let ghost prefix = s@.subrange(start as int, i as int);
        let ghost next = s@.subrange(start as int, i + 1);
        proof {
            assert(next.drop_last() =~= prefix);
            assert(next.last() == c);
            assert(body[i - start] == c);
        }
        if c < '0' || c > '9' {
            proof {
                assert(!('0' <= body[i - start] <= '9'));
                assert(!all_digits(body));
            }
            return None;
        }
        value = value * 10 + (c as u32 - '0' as u32);
        proof {
            assert(all_digits(next)) by {
                assert forall|k: int| 0 <= k < next.len() implies '0' <= #[trigger] next[k] <= '9' by {
                    if k < prefix.len() {
                        assert(next[k] == prefix[k]);
                    }
                }
            }
        }
        proof {
            assert(value == digits_value(next));
        }
        if value > 65535 {
            proof {
                if all_digits(body) {
                    lemma_digits_prefix(body, i + 1 - start);
                    assert(body.subrange(0, i + 1 - start) =~= next);
                    assert(digits_value(body) > u16::MAX);
                }
            }
            return None;
        }
        i = i + 1;
    }
    proof {
        assert(s@.subrange(start as int, len as int) == body);
    }
    Some(value as u16)
}

/// A port outside the range of `u16`, or not a number.
#[derive(Debug, Clone, Copy, PartialEq, Eq, Structural)]
pub struct PortError;

/// Reads the TCP port of the command line.
pub fn port_parser(port: &str) -> (r: Result<u16, PortError>)
    ensures
        decimal_u16(port@) matches Some(p) ==> r == Ok::<u16, PortError>(p),
        decimal_u16(port@) is None ==> r == Err::<u16, PortError>(PortError),
{
    match parse_u16(port) {
        Some(p) => Ok(p),
        None => Err(PortError),
    }
}

/// The text of the host address to read: the `localhost` keyword stands for 127.0.0.1.
pub fn host_text(addr: &str) -> (r: &str)
    ensures
        addr@ == "localhost"@ ==> r@ == "127.0.0.1"@,
        addr@ != "localhost"@ ==> r@ == addr@,
{
    if is_localhost(addr) {
        "127.0.0.1"
    } else {
        addr
    }
}

/// Whether a text is the `localhost` keyword.
fn is_localhost(addr: &str) -> (r: bool)
    ensures
        r == (addr@ == "localhost"@),
{
    let word = "localhost";
    proof {
        reveal_strlit("localhost");
    }
    let n = addr.unicode_len();
    if n != 9 {
        return false;
    }
    let mut i: usize = 0;
    while i < 9
        invariant
            i <= 9,
            addr@.len() == 9,
            word@ == "localhost"@,
            word@.len() == 9,
            forall|j: int| 0 <= j < i ==> addr@[j] == word@[j],
        decreases 9 - i,
    {
        if addr.get_char(i) != word.get_char(i) {
            return false;
        }
        i = i + 1;
    }
    proof {
        assert(addr@ =~= word@);
    }
    true
}

} // verus!
