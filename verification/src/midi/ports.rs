//! The choice of the input port that the surface is read from.

use vstd::prelude::*;
use vstd::string::*;
use crate::text::{chars_of, contains, integer_in_range, occurs, parse_integer};

verus! {

/// The lowercase form of a text, as `str::to_lowercase` gives it.
pub uninterp spec fn lowercase(s: Seq<char>) -> Seq<char>;

/// Whether a character is white space, as `char::is_whitespace` tells it.
pub uninterp spec fn whitespace(c: char) -> bool;

/// `str::to_lowercase` gives the lowercase form of the text, which depends on the
/// text alone.
#[verifier::external_body]
fn to_lowercase(s: &str) -> (lower: String)
    ensures
        lower@ == lowercase(s@),
{
    s.to_lowercase()
}

/// `char::is_whitespace` tells whether the character is white space, which
/// depends on the character alone.
#[verifier::external_body]
fn is_whitespace(c: char) -> (white: bool)
    ensures
        white == whitespace(c),
{
    c.is_whitespace()
}

/// What to do about the input port.
#[derive(Debug, PartialEq, Eq, Clone, Copy, Structural)]
pub enum PortChoice {
    /// Open the port at this position: its name holds the wanted name.
    Named(usize),
    /// No name holds the wanted name, but there is one port only: open it.
    Only,
    /// No name holds the wanted name and there are several ports: ask which.
    Ask,
    /// There is no port at all.
    Missing,
}

/// Whether the name of a port holds the wanted name, both taken in lowercase.
pub open spec fn names_port(name: Seq<char>, wanted: Seq<char>) -> bool {
    occurs(lowercase(name), lowercase(wanted))
}

/// Chooses the input port: the first whose name holds `wanted`, without regard to
/// case; else the only port; else the user is to be asked.
pub fn choose_port(names: &Vec<String>, wanted: &str) -> (choice: PortChoice)
    ensures
        match choice {
            PortChoice::Named(i) => {
                &&& i < names.len()
                &&& names_port(names[i as int]@, wanted@)
                &&& forall|j: int| 0 <= j < i ==> !names_port(names[j]@, wanted@)
            },
            PortChoice::Only => names.len() == 1 && !names_port(names[0]@, wanted@),
            PortChoice::Ask => names.len() > 1 && forall|j: int|
                0 <= j < names.len() ==> !names_port(names[j]@, wanted@),
            PortChoice::Missing => names.len() == 0,
        },
{
    let pattern = chars_of(to_lowercase(wanted).as_str());
    let mut i: usize = 0;
    while i < names.len()
        invariant
            i <= names.len(),
            pattern@ == lowercase(wanted@),
            forall|j: int| 0 <= j < i ==> !names_port(names[j]@, wanted@),
        decreases names.len() - i,
    {
        let name = chars_of(to_lowercase(names[i].as_str()).as_str());
        if contains(&name, &pattern) {
            return PortChoice::Named(i);
        }
        i = i + 1;
    }
    if names.len() == 0 {
        PortChoice::Missing
    } else if names.len() == 1 {
        PortChoice::Only
    } else {
        PortChoice::Ask
    }
}

/// The number of white-space characters at the start of `s`.
pub open spec fn leading_space(s: Seq<char>) -> nat
    decreases s.len(),
{
    if s.len() > 0 && whitespace(s[0]) {
        1 + leading_space(s.skip(1))
    } else {
        0
    }
}

/// The number of white-space characters at the end of `s`.
pub open spec fn trailing_space(s: Seq<char>) -> nat
    decreases s.len(),
{
    if s.len() > 0 && whitespace(s.last()) {
        1 + trailing_space(s.drop_last())
    } else {
        0
    }
}

/// `s` without the white space at its start and at its end.
pub open spec fn trimmed(s: Seq<char>) -> Seq<char> {
    if leading_space(s) == s.len() {
        Seq::empty()
    } else {
        s.subrange(leading_space(s) as int, s.len() - trailing_space(s))
    }
}

/// The port that an answer picks among `count` ports: the answer, without the
/// white space around it, writes the position of one of them.
pub open spec fn answered_port(answer: Seq<char>, count: int) -> Option<int> {
    match integer_in_range(trimmed(answer), false, 0, 0x1_0000_0000) {
        Some(i) => if i < count {
            Some(i)
        } else {
            None
        },
        None => None,
    }
}

/// The white space at the start of a text ends before the first other character.
proof fn lemma_leading_space(s: Seq<char>, n: int)
    requires
        0 <= n <= s.len(),
        forall|j: int| 0 <= j < n ==> whitespace(s[j]),
        n < s.len() ==> !whitespace(s[n]),
    ensures
        leading_space(s) == n,
    decreases s.len(),
{
    if n > 0 {
        let rest = s.skip(1);
        assert forall|j: int| 0 <= j < n - 1 implies whitespace(rest[j]) by {
            assert(rest[j] == s[j + 1]);
        }
        lemma_leading_space(rest, n - 1);
    }
}

/// The white space at the end of a text starts after the last other character.
proof fn lemma_trailing_space(s: Seq<char>, n: int)
    requires
        0 <= n <= s.len(),
        forall|j: int| s.len() - n <= j < s.len() ==> whitespace(s[j]),
        n < s.len() ==> !whitespace(s[s.len() - n - 1]),
    ensures
        trailing_space(s) == n,
    decreases s.len(),
{
    if n > 0 {
        let rest = s.drop_last();
        lemma_trailing_space(rest, n - 1);
    }
}

/// Reads the port that the user's answer picks among `count` ports.
pub fn port_from_answer(answer: &str, count: usize) -> (port: Result<usize, String>)
    ensures
        match port {
            Ok(i) => answered_port(answer@, count as int) == Some(i as int),
            Err(reason) => answered_port(answer@, count as int) is None && reason@
                == "invalid input port selected"@,
        },
{
    let chars = chars_of(answer);
    let n = chars.len();
    let mut start: usize = 0;
    while start < n && is_whitespace(chars[start])
        invariant
            start <= n,
            n == chars.len(),
            forall|j: int| 0 <= j < start ==> whitespace(chars[j]),
        decreases n - start,
    {
        start = start + 1;
    }
    let mut end: usize = n;
    while end > start && is_whitespace(chars[end - 1])
        invariant
            start <= end <= n,
            n == chars.len(),
            forall|j: int| end <= j < n ==> whitespace(chars[j]),
        decreases end,
    {
        end = end - 1;
    }
    let mut body: Vec<char> = Vec::new();
    let mut i: usize = start;
    while i < end
        invariant
            start <= i <= end <= n,
            n == chars.len(),
            body@ == chars@.subrange(start as int, i as int),
        decreases end - i,
    {
        body.push(chars[i]);
        assert(body@ =~= chars@.subrange(start as int, i + 1));
        i = i + 1;
    }
    proof {
        lemma_leading_space(chars@, start as int);
        if start == n {
            assert(body@ =~= Seq::<char>::empty());
        } else {
            lemma_trailing_space(chars@, n - end);
        }
    }
    match parse_integer(&body, false, 0, 0x1_0000_0000) {
        Some(v) => {
            if (v as u64) < count as u64 {
                Ok(v as usize)
            } else {
                Err(String::from_str("invalid input port selected"))
            }
        },
        None => Err(String::from_str("invalid input port selected")),
    }
}

} // verus!
