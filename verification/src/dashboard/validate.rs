//! Validation of user-supplied account fields.
use vstd::prelude::*;
use vstd::utf8::encode_utf8;
use crate::dashboard::error::{AppError, Result};
use crate::text::{chars_of, find_char, find_char_exec, str_eq, trim, trim_bounds};

verus! {

/// Names that cannot be registered.
pub open spec fn reserved_username(s: Seq<char>) -> bool {
    ||| s == "admin"@
    ||| s == "root"@
    ||| s == "system"@
    ||| s == "lynx"@
    ||| s == "support"@
    ||| s == "api"@
    ||| s == "null"@
    ||| s == "undefined"@
}

/// A character allowed in a username.
pub open spec fn username_char(c: char) -> bool {
    ('a' <= c && c <= 'z') || ('0' <= c && c <= '9') || c == '-' || c == '_'
}

/// The reason a username is refused, if it is.
pub open spec fn username_error(s: &str) -> Option<Seq<char>> {
    let c = s@;
    if s.len() < 3 || s.len() > 32 {
        Some("username: 3\u{2013}32 characters"@)
    } else if !(forall|i: int| 0 <= i < c.len() ==> username_char(#[trigger] c[i])) {
        Some("username: only lowercase letters, digits, - and _"@)
    } else if c.len() > 0 && (c[0] == '-' || c[0] == '_' || c.last() == '-' || c.last() == '_') {
        Some("username: cannot start or end with - or _"@)
    } else if reserved_username(c) {
        Some("username: reserved"@)
    } else {
        None
    }
}

/// The error that a validation outcome stands for.
pub open spec fn validation_matches(r: Result<()>, e: Option<Seq<char>>) -> bool {
    match r {
        Ok(()) => e is None,
        Err(AppError::Validation(m)) => e == Some(m@),
        Err(_) => false,
    }
}

fn refuse(msg: &str) -> (r: Result<()>)
    ensures
        r matches Err(AppError::Validation(m)) && m@ == msg@,
{
    Err(AppError::Validation(msg.to_string()))
}

pub fn username(s: &str) -> (r: Result<()>)
    ensures
        validation_matches(r, username_error(s)),
{
    if s.len() < 3 || s.len() > 32 {
        return refuse("username: 3\u{2013}32 characters");
    }
    let c = chars_of(s);
    let mut i: usize = 0;
    while i < c.len()
        invariant
            c@ == s@,
            3 <= s.len() <= 32,
            i <= c@.len(),
            forall|j: int| 0 <= j < i ==> username_char(#[trigger] c@[j]),
        decreases c@.len() - i,
    {
        let x = c[i];
        if !(('a' <= x && x <= 'z') || ('0' <= x && x <= '9') || x == '-' || x == '_') {
            assert(!username_char(s@[i as int]));
            assert(!(forall|j: int| 0 <= j < s@.len() ==> username_char(#[trigger] s@[j])));

            return refuse("username: only lowercase letters, digits, - and _");
        }
        i = i + 1;
    }
    let n = c.len();
    if n > 0 && (c[0] == '-' || c[0] == '_' || c[n - 1] == '-' || c[n - 1] == '_') {
        return refuse("username: cannot start or end with - or _");
    }
    if str_eq(s, "admin") || str_eq(s, "root") || str_eq(s, "system") || str_eq(s, "lynx")
        || str_eq(s, "support") || str_eq(s, "api") || str_eq(s, "null") || str_eq(s, "undefined") {
        return refuse("username: reserved");
    }
    Ok(())
}

/// `char::is_alphanumeric`: the Unicode `Alphabetic` or `Numeric` property.
pub uninterp spec fn unicode_alphanumeric(c: char) -> bool;

/// ASCII letters and digits.
pub open spec fn ascii_alphanumeric(c: char) -> bool {
    ('a' <= c && c <= 'z') || ('A' <= c && c <= 'Z') || ('0' <= c && c <= '9')
}

/// `char::is_alphanumeric`.  Its documentation defines it by the Unicode
/// `Alphabetic` and `Numeric` properties, which on ASCII characters hold
/// exactly for letters and digits; for other characters only the name is
/// stated.
#[verifier::external_body]
fn is_alphanumeric(c: char) -> (r: bool)
    ensures
        r == unicode_alphanumeric(c),
        (c as u32) < 128 ==> r == ascii_alphanumeric(c),
{
    c.is_alphanumeric()
}

/// The reason a password is refused, if it is.
pub open spec fn password_error(s: &str) -> Option<Seq<char>> {
    let c = s@;
    if s.len() < 12 || s.len() > 30 {
        Some("password: 12\u{2013}30 characters"@)
    } else if !(exists|i: int| 0 <= i < c.len() && 'A' <= #[trigger] c[i] && c[i] <= 'Z')
        || !(exists|i: int| 0 <= i < c.len() && 'a' <= #[trigger] c[i] && c[i] <= 'z')
        || !(exists|i: int| 0 <= i < c.len() && '0' <= #[trigger] c[i] && c[i] <= '9')
        || !(exists|i: int| 0 <= i < c.len() && !unicode_alphanumeric(#[trigger] c[i])) {
        Some("password: requires uppercase, lowercase, digit, and special character"@)
    } else {
        None
    }
}

pub fn password(s: &str) -> (r: Result<()>)
    ensures
        validation_matches(r, password_error(s)),
{
    if s.len() < 12 || s.len() > 30 {
        return refuse("password: 12\u{2013}30 characters");
    }
    let c = chars_of(s);
    let mut upper = false;
    let mut lower = false;
    let mut digit = false;
    let mut special = false;
    let mut i: usize = 0;
    while i < c.len()
        invariant
            c@ == s@,
            i <= c@.len(),
            upper <==> exists|j: int| 0 <= j < i && 'A' <= #[trigger] c@[j] && c@[j] <= 'Z',
            lower <==> exists|j: int| 0 <= j < i && 'a' <= #[trigger] c@[j] && c@[j] <= 'z',
            digit <==> exists|j: int| 0 <= j < i && '0' <= #[trigger] c@[j] && c@[j] <= '9',
            special <==> exists|j: int| 0 <= j < i && !unicode_alphanumeric(#[trigger] c@[j]),
        decreases c@.len() - i,
    {
        let x = c[i];
        if 'A' <= x && x <= 'Z' {
            upper = true;
        }
        if 'a' <= x && x <= 'z' {
            lower = true;
        }
        if '0' <= x && x <= '9' {
            digit = true;
        }
        if !is_alphanumeric(x) {
            special = true;
        }
        i = i + 1;
    }
    if !upper || !lower || !digit || !special {
        return refuse("password: requires uppercase, lowercase, digit, and special character");
    }
    Ok(())
}

/// The reason an email address is refused, if it is.
pub open spec fn email_error(s: &str) -> Option<Seq<char>> {
    let t = trim(s@);
    if encode_utf8(t).len() as usize > 254 {
        Some("email: too long"@)
    } else {
        match find_char(t, '@') {
            None => Some("email: invalid format"@),
            Some(i) => if i == 0 || i == t.len() - 1 {
                Some("email: invalid format"@)
            } else if find_char(t.skip(i + 1), '.') is None {
                Some("email: invalid domain"@)
            } else {
                None
            },
        }
    }
}

pub fn email(s: &str) -> (r: Result<()>)
    ensures
        validation_matches(r, email_error(s)),
{
    let c = chars_of(s);
    let (a, b) = trim_bounds(c.as_slice());
    let t = s.substring_char(a, b);
    assert(t@ == trim(s@));
    if t.len() > 254 {
        return refuse("email: too long");
    }
    let tv = chars_of(t);
    assert(tv@ == trim(s@));
    match find_char_exec(tv.as_slice(), '@') {
        None => refuse("email: invalid format"),
        Some(i) => {
            let n = tv.len();
            if i == 0 || i == n - 1 {
                return refuse("email: invalid format");
            }
            let dom = crate::text::slice_chars(tv.as_slice(), i + 1, n);
            assert(dom@ =~= tv@.skip(i + 1));
            match find_char_exec(dom.as_slice(), '.') {
                None => refuse("email: invalid domain"),
                Some(_) => Ok(()),
            }
        },
    }
}

} // verus!
