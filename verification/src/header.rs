//! The calls into the HTTP header types that `reqwest` re-exports: which
//! names and values they accept. The contracts are taken on trust.

use vstd::prelude::*;

verus! {

/// Whether `c` may stand in the name of an HTTP header: a letter or digit
/// of ASCII, or one of ``! # $ % & ' * + - . ^ _ ` | ~``.
pub open spec fn is_name_char(c: char) -> bool {
    ||| 'a' <= c <= 'z'
    ||| 'A' <= c <= 'Z'
    ||| '0' <= c <= '9'
    ||| c == '!'
    ||| c == '#'
    ||| c == '$'
    ||| c == '%'
    ||| c == '&'
    ||| c == '\''
    ||| c == '*'
    ||| c == '+'
    ||| c == '-'
    ||| c == '.'
    ||| c == '^'
    ||| c == '_'
    ||| c == '`'
    ||| c == '|'
    ||| c == '~'
}

/// Whether `name` is accepted as the name of an HTTP header: between 1
/// and 65535 characters, each of them a name character.
pub open spec fn valid_header_name(name: Seq<char>) -> bool {
    &&& 0 < name.len() <= 65535
    &&& forall|i: int| 0 <= i < name.len() ==> is_name_char(#[trigger] name[i])
}

/// Whether `c` may stand in the value of an HTTP header: a tab, or any
/// character from the space on but DEL.
pub open spec fn is_value_char(c: char) -> bool {
    c == '\t' || (c as u32 >= 32 && c as u32 != 127)
}

/// Whether `value` is accepted as the value of an HTTP header.
pub open spec fn valid_header_value(value: Seq<char>) -> bool {
    forall|i: int| 0 <= i < value.len() ==> is_value_char(#[trigger] value[i])
}

/// `HeaderName::from_bytes` on the octets of `name`, reduced to whether it
/// succeeds. It fails on an empty name, on one of more than 65535 octets,
/// and on any octet outside the name characters, hence on every
/// character beyond ASCII.
#[verifier::external_body]
pub(crate) fn accepts_header_name(name: &str) -> (ok: bool)
    ensures
        ok == valid_header_name(name@),
{
    reqwest::header::HeaderName::from_bytes(name.as_bytes()).is_ok()
}

/// `HeaderValue::from_str`, reduced to whether it succeeds. It fails on
/// any octet below 32 other than the tab, and on 127; octets from 128 on,
/// hence all characters beyond ASCII, pass.
#[verifier::external_body]
pub(crate) fn accepts_header_value(value: &str) -> (ok: bool)
    ensures
        ok == valid_header_value(value@),
{
    reqwest::header::HeaderValue::from_str(value).is_ok()
}

} // verus!
