//! Request methods: which one is answered here, which one carries a body,
//! and which one the upstream is asked with.

use crate::text::texts_equal;
use std::str::FromStr;
use vstd::prelude::*;

verus! {

/// A character that may stand in a request method: a letter or digit of
/// ASCII, or one of ``! # $ % & ' * + - . ^ _ ` | ~``.
pub open spec fn is_token_char(c: char) -> bool {
    let u = c as u32;
    ||| 0x30 <= u <= 0x39
    ||| 0x41 <= u <= 0x5A
    ||| 0x61 <= u <= 0x7A
    ||| c == '!'
    ||| c == '#'
    ||| c == '$'
    ||| c == '%'
    ||| c == '&'
    ||| c == '\''
    ||| c == '*'
    ||| c == '+'
    ||| c == '-'
    ||| c == '.'
    ||| c == '^'
    ||| c == '_'
    ||| c == '`'
    ||| c == '|'
    ||| c == '~'
}

/// `method` can be sent as a request method: it is not empty and holds
/// token characters only.
pub open spec fn is_method_token(method: Seq<char>) -> bool {
    &&& method.len() > 0
    &&& forall|i: int| 0 <= i < method.len() ==> is_token_char(method[i])
}

/// A request of this method is a preflight probe.
pub open spec fn is_preflight(method: Seq<char>) -> bool {
    method == "OPTIONS"@
}

/// A request of this method takes its body along to the upstream.
pub open spec fn carries_body(method: Seq<char>) -> bool {
    method != "GET"@ && method != "HEAD"@
}

/// The method that the upstream is asked with for a request of method
/// `method`: the same one, or `GET` where it cannot be sent.
pub open spec fn upstream_method(method: Seq<char>) -> Seq<char> {
    if is_method_token(method) {
        method
    } else {
        "GET"@
    }
}

/// Asks `reqwest::Method::from_str` whether it takes `method`. It refuses
/// the empty string and any string with a byte outside its table of token
/// characters, which holds the letters and digits of ASCII and
/// ``! # $ % & ' * + - . ^ _ ` | ~``; it takes every other string.
#[verifier::external_body]
fn method_is_accepted(method: &str) -> (ok: bool)
    ensures
        ok == is_method_token(method@),
{
    reqwest::Method::from_str(method).is_ok()
}

/// Tells whether a request of this method is a preflight probe.
pub fn is_preflight_method(method: &str) -> (r: bool)
    ensures
        r == is_preflight(method@),
{
    texts_equal(method, "OPTIONS")
}

/// Tells whether a request of this method takes its body along.
pub fn method_carries_body(method: &str) -> (r: bool)
    ensures
        r == carries_body(method@),
{
    !texts_equal(method, "GET") && !texts_equal(method, "HEAD")
}

/// The method that the upstream is asked with.
pub fn choose_upstream_method(method: &str) -> (r: String)
    ensures
        r@ == upstream_method(method@),
{
    if method_is_accepted(method) {
        method.to_owned()
    } else {
        "GET".to_owned()
    }
}

} // verus!
