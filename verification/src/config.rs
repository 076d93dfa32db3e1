use vstd::prelude::*;

use crate::text::{chars_of, owned, str_eq};

verus! {

/// The service settings.
pub struct Config {
    pub database_url: String,
    pub jwt_secret: String,
    pub host: String,
    pub port: u16,
    pub frontend_url: String,
    pub dev_auth: bool,
    pub dev_impersonation: bool,
    pub impersonate_query_key: String,
    pub seed_demo_data: bool,
    pub google_client_id: Option<String>,
    pub google_client_secret: Option<String>,
    pub google_redirect_uri: Option<String>,
}

/// Google sign-in is configured: client id, secret and redirect URI are all set.
pub open spec fn oauth_configured(c: Config) -> bool {
    c.google_client_id is Some && c.google_client_secret is Some && c.google_redirect_uri is Some
}

impl Config {
    /// Google sign-in is available when its client id, secret and redirect URI are all set.
    pub fn google_oauth_enabled(&self) -> (r: bool)
        ensures
            r == oauth_configured(*self),
    {
        self.google_client_id.is_some() && self.google_client_secret.is_some()
            && self.google_redirect_uri.is_some()
    }
}

/// A boolean setting: `true` or `1` turn it on, any other value off, and an
/// unset variable leaves the default.
pub fn flag_value(value: Option<&str>, default: bool) -> (r: bool)
    ensures
        r == match value {
            Some(v) => v@ == "true"@ || v@ == "1"@,
            None => default,
        },
{
    match value {
        Some(v) => str_eq(v, "true") || str_eq(v, "1"),
        None => default,
    }
}

/// A text setting, or its default when unset.
pub fn text_value(value: Option<String>, default: &str) -> (r: String)
    ensures
        r@ == match value {
            Some(v) => v@,
            None => default@,
        },
{
    match value {
        Some(v) => v,
        None => owned(default),
    }
}

/// An optional setting that counts as unset when empty.
pub fn non_empty(value: Option<String>) -> (r: Option<String>)
    ensures
        match value {
            Some(v) => if v@.len() == 0 { r is None } else { r == Some(v) },
            None => r is None,
        },
{
    match value {
        Some(v) => if v.as_str().is_empty() { None } else { Some(v) },
        None => None,
    }
}

pub open spec fn is_digit(c: char) -> bool {
    '0' <= c <= '9'
}

/// The value of the decimal digits `s`.
pub open spec fn digits_value(s: Seq<char>) -> nat
    decreases s.len(),
{
    if s.len() == 0 {
        0
    } else {
        digits_value(s.drop_last()) * 10 + ((s.last() as int) - ('0' as int)) as nat
    }
}

/// `s` without one leading `+`.
pub open spec fn unsigned_part(s: Seq<char>) -> Seq<char> {
    if s.len() > 0 && s[0] == '+' { s.drop_first() } else { s }
}

/// Every character of `d` is an ASCII digit.
pub open spec fn all_digits(d: Seq<char>) -> bool {
    forall|i: int| 0 <= i < d.len() ==> is_digit(#[trigger] d[i])
}

/// How `u16::from_str` reads `s`: an optional `+`, then one or more ASCII digits
/// whose value fits in 16 bits.
pub open spec fn parse_u16_spec(s: Seq<char>) -> Option<u16> {
    let d = unsigned_part(s);
    if d.len() > 0 && all_digits(d) && digits_value(d) <= 65535 {
        Some(digits_value(d) as u16)
    } else {
        None
    }
}

proof fn lemma_digits_value_grows(d: Seq<char>, i: int)
    requires
        0 <= i <= d.len(),
        forall|k: int| 0 <= k < d.len() ==> is_digit(#[trigger] d[k]),
    ensures
        digits_value(d.take(i)) <= digits_value(d),
    decreases d.len() - i,
{
    if i < d.len() {
        lemma_digits_value_grows(d, i + 1);
        assert(d.take(i + 1).drop_last() =~= d.take(i));
    } else {
        assert(d.take(i) =~= d);
    }
}

/// Reads a decimal `u16` as `u16::from_str` does.
pub fn parse_u16(s: &str) -> (r: Option<u16>)
    ensures
        r == parse_u16_spec(s@),
{
    let v = chars_of(s);
    let start: usize = if v.len() > 0 && v[0] == '+' { 1 } else { 0 };
    let ghost d = unsigned_part(v@);
    proof {
        assert(d =~= v@.subrange(start as int, v@.len() as int));
    }
    if start >= v.len() {
        return None;
    }
    let mut value: u32 = 0;
    let mut i: usize = start;
    while i < v.len()
        invariant
            v@ == s@,
            start <= i <= v@.len(),
            d =~= v@.subrange(start as int, v@.len() as int),
            d == unsigned_part(v@),
            forall|k: int| start <= k < i ==> is_digit(#[trigger] v@[k]),
            value == digits_value(v@.subrange(start as int, i as int)),
            value <= 65535,
        decreases v@.len() - i,
    {
        let c = v[i];
        if !('0' <= c && c <= '9') {
            proof {
                assert(d[i - start] == c);
                assert(!is_digit(d[i - start]));
                assert(!all_digits(d));
            }
            return None;
        }
        let digit: u32 = (c as u32) - ('0' as u32);
        proof {
            assert(v@.subrange(start as int, i + 1).drop_last() =~= v@.subrange(start as int, i as int));
        }
        let next: u32 = value * 10 + digit;
        if next > 65535 {
            proof {
                if all_digits(d) {
                    let taken = (i + 1 - start) as int;
                    assert(d.take(taken) =~= v@.subrange(start as int, i + 1));
                    lemma_digits_value_grows(d, taken);
                }
            }
            return None;
        }
        value = next;
        i += 1;
    }
    proof {
        assert(v@.subrange(start as int, v@.len() as int) =~= d);
    }
    Some(value as u16)
}

/// The listening port: a valid `u16` setting, or 3000.
pub fn port_value(value: Option<&str>) -> (r: u16)
    ensures
        r == match value {
            Some(v) => match parse_u16_spec(v@) {
                Some(p) => p,
                None => 3000,
            },
            None => 3000,
        },
{
    match value {
        Some(v) => match parse_u16(v) {
            Some(p) => p,
            None => 3000,
        },
        None => 3000,
    }
}

} // verus!
