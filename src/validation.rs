use vstd::prelude::*;
use crate::text::chars_of;

verus! {

/// Characters that never occur in an email address.
pub open spec fn is_email_blank(c: char) -> bool {
    c == ' ' || c == '\t' || c == '\r' || c == '\n'
}

/// Whether the regex class `\d` (Unicode decimal digits, `\p{Nd}`) holds `c`.
pub uninterp spec fn is_decimal_digit(c: char) -> bool;

/// Relies on `regex::Regex::is_match` with the pattern `\d`: whether `c` is a
/// Unicode decimal digit. The class holds the ASCII digits.
#[verifier::external_body]
fn decimal_digit(c: char) -> (r: bool)
    ensures
        r == is_decimal_digit(c),
        '0' <= c <= '9' ==> r,
{
    let mut buf = [0u8; 4];
    regex::Regex::new(r"\d").unwrap().is_match(c.encode_utf8(&mut buf))
}

/// The punctuation set from which a password must hold at least one symbol.
pub open spec fn is_symbol(c: char) -> bool {
    c == '!' || c == '@' || c == '#' || c == '$' || c == '%' || c == '^' || c == '&'
        || c == '*' || c == '(' || c == ')' || c == '_' || c == '+' || c == '?'
        || c == '/' || c == ':' || c == ';' || c == '[' || c == ']' || c == '{'
        || c == '}' || c == '|' || c == '<' || c == '>' || c == '.' || c == ','
}

pub open spec fn contains_digit(s: Seq<char>) -> bool {
    exists|i: int| 0 <= i < s.len() && is_decimal_digit(#[trigger] s[i])
}

pub open spec fn contains_symbol(s: Seq<char>) -> bool {
    exists|i: int| 0 <= i < s.len() && is_symbol(#[trigger] s[i])
}

/// `local@domain.tld`: no blanks, exactly one `@` with a non-empty part before
/// it, and a `.` after it that has at least one character on each side.
pub open spec fn is_email_shape(s: Seq<char>) -> bool {
    &&& forall|i: int| 0 <= i < s.len() ==> !is_email_blank(#[trigger] s[i])
    &&& exists|at: int|
        0 < at < s.len() && #[trigger] s[at] == '@' && (forall|i: int|
            0 <= i < s.len() && i != at ==> #[trigger] s[i] != '@') && (exists|dot: int|
            at + 1 < dot < s.len() - 1 && #[trigger] s[dot] == '.')
}

/// True when some character of `haystack` is a decimal digit, of any script.
pub fn has_number(haystack: &str) -> (r: bool)
    ensures
        r == contains_digit(haystack@),
{
    let cs = chars_of(haystack);
    let mut i: usize = 0;
    while i < cs.len()
        invariant
            i <= cs@.len(),
            cs@ == haystack@,
            forall|j: int| 0 <= j < i ==> !is_decimal_digit(#[trigger] cs@[j]),
        decreases cs.len() - i,
    {
        if decimal_digit(cs[i]) {
            return true;
        }
        i += 1;
    }
    false
}

/// True when some character of `haystack` is one of the password symbols.
pub fn has_symbol(haystack: &str) -> (r: bool)
    ensures
        r == contains_symbol(haystack@),
{
    let cs = chars_of(haystack);
    let mut i: usize = 0;
    while i < cs.len()
        invariant
            i <= cs@.len(),
            cs@ == haystack@,
            forall|j: int| 0 <= j < i ==> !is_symbol(#[trigger] cs@[j]),
        decreases cs.len() - i,
    {
        let c = cs[i];
        if c == '!' || c == '@' || c == '#' || c == '$' || c == '%' || c == '^' || c == '&'
            || c == '*' || c == '(' || c == ')' || c == '_' || c == '+' || c == '?'
            || c == '/' || c == ':' || c == ';' || c == '[' || c == ']' || c == '{'
            || c == '}' || c == '|' || c == '<' || c == '>' || c == '.' || c == ',' {
            return true;
        }
        i += 1;
    }
    false
}

/// True when `email` has the `local@domain.tld` shape.
pub fn valid_email(email: &str) -> (r: bool)
    ensures
        r == is_email_shape(email@),
{
    let cs = chars_of(email);
    let n = cs.len();
    // Locate the `@` and reject blanks or a second `@`.
    let mut at: usize = n;
    let mut i: usize = 0;
    while i < n
        invariant
            n == cs@.len(),
            cs@ == email@,
            i <= n,
            at <= n,
            forall|j: int| 0 <= j < i ==> !is_email_blank(#[trigger] cs@[j]),
            at == n ==> forall|j: int| 0 <= j < i ==> #[trigger] cs@[j] != '@',
            at < n ==> at < i && cs@[at as int] == '@' && forall|j: int|
                0 <= j < i && j != at ==> #[trigger] cs@[j] != '@',
        decreases n - i,
    {
        let c = cs[i];
        if c == ' ' || c == '\t' || c == '\r' || c == '\n' {
            return false;
        }
        if c == '@' {
            if at < n {
                assert(!is_email_shape(email@)) by {
                    if is_email_shape(email@) {
                        let k = choose|k: int|
                            0 < k < email@.len() && #[trigger] email@[k] == '@' && (forall|j: int|
                                0 <= j < email@.len() && j != k ==> #[trigger] email@[j] != '@')
                                && (exists|dot: int|
                                k + 1 < dot < email@.len() - 1 && #[trigger] email@[dot] == '.');
                        if k == at as int {
                            assert(email@[i as int] == '@');
                        } else {
                            assert(email@[at as int] == '@');
                        }
                    }
                }
                return false;
            }
            at = i;
        }
        i += 1;
    }
    if at == n || at == 0 {
        return false;
    }
    // Look for a `.` strictly inside the domain part.
    let mut d: usize = at + 1;
    while d < n - 1
        invariant
            n == cs@.len(),
            cs@ == email@,
            0 < at < n,
            cs@[at as int] == '@',
            forall|j: int| 0 <= j < n && j != at ==> #[trigger] cs@[j] != '@',
            forall|j: int| 0 <= j < n ==> !is_email_blank(#[trigger] cs@[j]),
            at + 1 <= d,
            forall|j: int| at + 1 < j < d && j < n - 1 ==> #[trigger] cs@[j] != '.',
        decreases n - d,
    {
        if d > at + 1 && cs[d] == '.' {
            assert(email@[at as int] == '@');
            return true;
        }
        d += 1;
    }
    false
}

} // verus!
