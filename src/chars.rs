use vstd::prelude::*;
use vstd::string::StrSliceExecFns;

verus! {

/// ASCII upper case of one character; every other character is kept.
pub open spec fn upper_char(c: char) -> char {
    if 'a' <= c && c <= 'z' {
        ((c as u32) - 32) as char
    } else {
        c
    }
}

/// ASCII lower case of one character; every other character is kept.
pub open spec fn lower_char(c: char) -> char {
    if 'A' <= c && c <= 'Z' {
        ((c as u32) + 32) as char
    } else {
        c
    }
}

/// The characters of `s`, upper-cased when `caps` holds and lower-cased otherwise.
pub open spec fn case_mapped(s: Seq<char>, caps: bool) -> Seq<char> {
    s.map_values(|c: char| if caps { upper_char(c) } else { lower_char(c) })
}

pub fn to_upper(c: char) -> (r: char)
    ensures
        r == upper_char(c),
{
    if 'a' <= c && c <= 'z' {
        ((c as u32) - 32) as u8 as char
    } else {
        c
    }
}

pub fn to_lower(c: char) -> (r: char)
    ensures
        r == lower_char(c),
{
    if 'A' <= c && c <= 'Z' {
        ((c as u32) + 32) as u8 as char
    } else {
        c
    }
}

/// Case-maps every character of `s`.
pub fn map_case(s: &Vec<char>, caps: bool) -> (r: Vec<char>)
    ensures
        r@ == case_mapped(s@, caps),
{
    let mut r: Vec<char> = Vec::new();
    let mut i: usize = 0;
    while i < s.len()
        invariant
            i <= s@.len(),
            r@ == case_mapped(s@.subrange(0, i as int), caps),
        decreases s@.len() - i,
    {
        let c = if caps { to_upper(s[i]) } else { to_lower(s[i]) };
        r.push(c);
        i = i + 1;
        assert(r@ =~= case_mapped(s@.subrange(0, i as int), caps));
    }
    assert(s@.subrange(0, s@.len() as int) =~= s@);
    r
}

/// Whether `c` is ASCII whitespace: space, tab, line feed, form feed or carriage return.
pub open spec fn is_space(c: char) -> bool {
    c == ' ' || c == '\t' || c == '\n' || c == '\x0C' || c == '\r'
}

pub fn space(c: char) -> (r: bool)
    ensures
        r == is_space(c),
{
    c == ' ' || c == '\t' || c == '\n' || c == '\x0C' || c == '\r'
}

/// The characters of a string slice, in order.
pub fn chars_of(s: &str) -> (r: Vec<char>)
    ensures
        r@ == s@,
{
    let n = s.unicode_len();
    let mut r: Vec<char> = Vec::new();
    let mut i: usize = 0;
    while i < n
        invariant
            n == s@.len(),
            i <= n,
            r@ == s@.subrange(0, i as int),
        decreases n - i,
    {
        r.push(s.get_char(i));
        i = i + 1;
        assert(r@ =~= s@.subrange(0, i as int));
    }
    assert(s@.subrange(0, n as int) =~= s@);
    r
}

/// Relies on `String`'s `FromIterator<char>`: the string holds the characters in order.
#[verifier::external_body]
pub(crate) fn string_of(cs: &Vec<char>) -> (r: String)
    ensures
        r@ == cs@,
{
    cs.iter().collect()
}

} // verus!
