//! The static connection configuration, and the verified parsing of the
//! command-line destination, address and port values.

use vstd::prelude::*;
use vstd::string::StrSliceExecFns;

use crate::strutil::split_all;
use crate::strutil::split_on;

verus! {

/// How the session authenticates.  When every method fails the program
/// would fall back to asking the user directly; that fallback is left
/// unprovided.
#[derive(Debug)]
pub enum AuthMethod {
    Password(String),
    PrivateKey(String),
    Agent,
    Manual,
}

/// The static, immutable connection configuration.
#[derive(Debug)]
pub struct Config {
    pub user: String,
    pub addr: String,
    pub auth_method: AuthMethod,
    pub pubkey: Option<String>,
    pub passphrase: Option<String>,
    pub port: u16,
}

/// Whether an `@` occurs in `s`.
pub open spec fn has_at(s: Seq<char>) -> bool {
    exists|i: int| 0 <= i < s.len() && s[i] == '@'
}

/// The position of the first `@` of `s` (its length when there is none).
pub open spec fn first_at(s: Seq<char>) -> int
    decreases s.len(),
{
    if s.len() == 0 {
        0
    } else if s[0] == '@' {
        0
    } else {
        1 + first_at(s.drop_first())
    }
}

proof fn lemma_first_at(s: Seq<char>, i: int)
    requires
        0 <= i < s.len(),
        s[i] == '@',
        forall|k: int| 0 <= k < i ==> s[k] != '@',
    ensures
        first_at(s) == i,
    decreases s.len(),
{
    if s[0] == '@' {
    } else {
        let s2 = s.drop_first();
        assert(s2[i - 1] == '@');
        assert(forall|k: int| 0 <= k < i - 1 ==> s2[k] == s[k + 1] && s2[k] != '@');
        lemma_first_at(s2, i - 1);
    }
}

proof fn lemma_no_at(s: Seq<char>)
    requires
        forall|k: int| 0 <= k < s.len() ==> s[k] != '@',
    ensures
        first_at(s) == s.len(),
    decreases s.len(),
{
    if s.len() > 0 {
        let s2 = s.drop_first();
        assert(forall|k: int| 0 <= k < s2.len() ==> s2[k] == s[k + 1] && s2[k] != '@');
        lemma_no_at(s2);
    }
}

/// Split the destination argument on its first `@` into user and host.
/// With no `@` at all the destination is malformed and nothing is
/// returned.
pub fn parse_destination(s: &str) -> (r: Option<(String, String)>)
    ensures
        r is None <==> !has_at(s@),
        r matches Some(parts) ==> {
            &&& parts.0@ == s@.take(first_at(s@))
            &&& parts.1@ == s@.skip(first_at(s@) + 1)
        },
{
    let n = s.unicode_len();
    let mut i: usize = 0;
    while i < n
        invariant
            n == s@.len(),
            0 <= i <= n,
            forall|k: int| 0 <= k < i ==> s@[k] != '@',
        decreases n - i,
    {
        if s.get_char(i) == '@' {
            proof {
                lemma_first_at(s@, i as int);
            }
            let user = s.substring_char(0, i).to_owned();
            let host = s.substring_char(i + 1, n).to_owned();
            proof {
                assert(s@.subrange(0, i as int) =~= s@.take(i as int));
                assert(s@.subrange(i as int + 1, n as int) =~= s@.skip(i as int + 1));
            }
            return Some((user, host));
        }
        i = i + 1;
    }
    proof {
        lemma_no_at(s@);
    }
    None
}

/// A decimal digit.
pub open spec fn is_digit(c: char) -> bool {
    48 <= c as u32 <= 57
}

/// The value of a decimal digit.
pub open spec fn digit_val(c: char) -> int {
    c as u32 - 48
}

/// The value of a digit run, most significant first.
pub open spec fn dec_val(s: Seq<char>) -> int
    decreases s.len(),
{
    if s.len() == 0 {
        0
    } else {
        dec_val(s.drop_last()) * 10 + digit_val(s.last())
    }
}

/// All characters of `s` are decimal digits.
pub open spec fn all_digits(s: Seq<char>) -> bool {
    forall|i: int| 0 <= i < s.len() ==> is_digit(#[trigger] s[i])
}

proof fn lemma_dec_val_nonneg(s: Seq<char>)
    requires
        all_digits(s),
    ensures
        dec_val(s) >= 0,
    decreases s.len(),
{
    if s.len() > 0 {
        assert(all_digits(s.drop_last()));
        lemma_dec_val_nonneg(s.drop_last());
    }
}

/// One octet of a dotted IPv4 literal: one to three digits, no leading
/// zero unless it is exactly `0`, value at most 255.
pub open spec fn octet_ok(s: Seq<char>) -> bool {
    &&& 1 <= s.len() <= 3
    &&& all_digits(s)
    &&& (s.len() > 1 ==> s[0] != '0')
    &&& dec_val(s) <= 255
}

/// A literal IPv4 address: four octets separated by dots.
pub open spec fn is_ipv4(s: Seq<char>) -> bool {
    let parts = split_all(s, '.');
    parts.len() == 4 && octet_ok(parts[0]) && octet_ok(parts[1]) && octet_ok(parts[2]) && octet_ok(
        parts[3],
    )
}

/// Read one octet of a dotted address.
fn parse_octet(s: &String) -> (r: Option<u8>)
    ensures
        r is Some <==> octet_ok(s@),
        r matches Some(v) ==> v == dec_val(s@),
{
    let n = s.as_str().unicode_len();
    if n == 0 || n > 3 {
        return None;
    }
    let mut val: u32 = 0;
    let mut i: usize = 0;
    proof {
        assert(s@.take(0) =~= Seq::<char>::empty());
    }
    while i < n
        invariant
            n == s@.len(),
            1 <= n <= 3,
            0 <= i <= n,
            all_digits(s@.take(i as int)),
            val == dec_val(s@.take(i as int)),
            i == 0 ==> val == 0,
            i == 1 ==> val <= 9,
            i == 2 ==> val <= 99,
            i == 3 ==> val <= 999,
        decreases n - i,
    {
        let c = s.as_str().get_char(i);
        let cv = c as u32;
        if cv < 48 || cv > 57 {
            proof {
                assert(!is_digit(s@[i as int]));
            }
            return None;
        }
        proof {
            let t = s@.take(i as int + 1);
            assert(t.drop_last() =~= s@.take(i as int));
            assert(t.last() == s@[i as int]);
            assert(all_digits(t));
        }
        val = val * 10 + (cv - 48);
        i = i + 1;
    }
    proof {
        assert(s@.take(n as int) =~= s@);
    }
    if n > 1 && s.as_str().get_char(0) == '0' {
        return None;
    }
    if val > 255 {
        return None;
    }
    Some(val as u8)
}

/// Read a literal IPv4 address, or nothing when the host is not one and
/// must be resolved by name instead.
pub fn parse_ipv4(s: &str) -> (r: Option<(u8, u8, u8, u8)>)
    ensures
        r is Some <==> is_ipv4(s@),
        r matches Some(q) ==> {
            let parts = split_all(s@, '.');
            &&& q.0 == dec_val(parts[0])
            &&& q.1 == dec_val(parts[1])
            &&& q.2 == dec_val(parts[2])
            &&& q.3 == dec_val(parts[3])
        },
{
    let parts = split_on(s, '.');
    proof {
        assert(parts.deep_view() == split_all(s@, '.'));
    }
    if parts.len() != 4 {
        return None;
    }
    proof {
        assert(parts@[0]@ == parts.deep_view()[0]);
        assert(parts@[1]@ == parts.deep_view()[1]);
        assert(parts@[2]@ == parts.deep_view()[2]);
        assert(parts@[3]@ == parts.deep_view()[3]);
    }
    let a = match parse_octet(&parts[0]) {
        Some(v) => v,
        None => {
            return None;
        },
    };
    let b = match parse_octet(&parts[1]) {
        Some(v) => v,
        None => {
            return None;
        },
    };
    let c = match parse_octet(&parts[2]) {
        Some(v) => v,
        None => {
            return None;
        },
    };
    let d = match parse_octet(&parts[3]) {
        Some(v) => v,
        None => {
            return None;
        },
    };
    Some((a, b, c, d))
}

/// A port argument: an optional `+`, then digits, with a value that fits.
pub open spec fn is_port(s: Seq<char>) -> bool {
    let digits = if s.len() > 0 && s[0] == '+' {
        s.drop_first()
    } else {
        s
    };
    digits.len() > 0 && all_digits(digits) && dec_val(digits) <= 65535
}

/// The port's value, for a well-formed port argument.
pub open spec fn port_val(s: Seq<char>) -> int {
    if s.len() > 0 && s[0] == '+' {
        dec_val(s.drop_first())
    } else {
        dec_val(s)
    }
}

/// Read the port argument; anything malformed falls back to the standard
/// port 22.
pub fn parse_port_or_default(s: &str) -> (r: u16)
    ensures
        is_port(s@) ==> r == port_val(s@),
        !is_port(s@) ==> r == 22,
{
    let n = s.unicode_len();
    let mut i: usize = 0;
    let ghost digits = if s@.len() > 0 && s@[0] == '+' {
        s@.drop_first()
    } else {
        s@
    };
    if n > 0 && s.get_char(0) == '+' {
        i = 1;
    }
    proof {
        assert(digits =~= s@.skip(i as int));
    }
    if i == n {
        proof {
            assert(digits.len() == 0);
        }
        return 22;
    }
    let start = i;
    let mut val: u32 = 0;
    let mut over = false;
    proof {
        assert(digits.take(0) =~= Seq::<char>::empty());
    }
    while i < n
        invariant
            n == s@.len(),
            start <= i <= n,
            start <= 1,
            digits =~= s@.skip(start as int),
            digits == (if s@.len() > 0 && s@[0] == '+' {
                s@.drop_first()
            } else {
                s@
            }),
            all_digits(digits.take(i - start as int)),
            !over ==> val == dec_val(digits.take(i - start as int)) && val <= 65535,
            over ==> dec_val(digits.take(i - start as int)) > 65535,
        decreases n - i,
    {
        let c = s.get_char(i);
        let cv = c as u32;
        proof {
            assert(digits[i - start as int] == s@[i as int]);
        }
        if cv < 48 || cv > 57 {
            proof {
                assert(!is_digit(digits[i - start as int]));
                assert(!all_digits(digits));
            }
            return 22;
        }
        proof {
            let t = digits.take(i - start as int + 1);
            assert(t.drop_last() =~= digits.take(i - start as int));
            assert(t.last() == digits[i - start as int]);
            assert(all_digits(t));
            if over {
                lemma_dec_val_nonneg(t.drop_last());
                assert(dec_val(t) > 65535);
            }
        }
        if !over {
            let next = val * 10 + (cv - 48);
            if next > 65535 {
                over = true;
            } else {
                val = next;
            }
        }
        i = i + 1;
    }
    proof {
        assert(digits.take(n - start as int) =~= digits);
        assert(digits.len() > 0);
    }
    if over {
        return 22;
    }
    val as u16
}

} // verus!
