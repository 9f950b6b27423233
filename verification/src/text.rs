//! Text as sequences of characters: decimal numbers written and read, and the
//! splitting and searching that the textual formats of the bridge are read with.

use vstd::prelude::*;

verus! {

/// `String::push` appends exactly the given character to the string.
pub assume_specification[ String::push ](s: &mut String, c: char)
    ensures
        final(s)@ == old(s)@.push(c),
;

/// The character that writes the decimal digit `d`.
pub open spec fn digit_char(d: int) -> char
    recommends
        0 <= d <= 9,
{
    ((d + 48) as u8) as char
}

/// The decimal digits of `n`, most significant first, without leading zeros.
pub open spec fn decimal_digits(n: nat) -> Seq<char>
    decreases n,
{
    if n < 10 {
        seq![digit_char(n as int)]
    } else {
        decimal_digits(n / 10).push(digit_char((n % 10) as int))
    }
}

/// The decimal text of an integer: a minus sign for negative numbers, then its digits.
pub open spec fn int_text(n: int) -> Seq<char> {
    if n < 0 {
        seq!['-'] + decimal_digits((-n) as nat)
    } else {
        decimal_digits(n as nat)
    }
}

/// Appends the decimal digits of `n` to `out`.
pub fn push_decimal(out: &mut String, n: u64)
    ensures
        final(out)@ == old(out)@ + decimal_digits(n as nat),
    decreases n,
{
    if n >= 10 {
        push_decimal(out, n / 10);
    }
    let d: u8 = (n % 10) as u8;
    out.push((d + 48) as char);
}

/// Appends the decimal text of `n` to `out`.
pub fn push_int(out: &mut String, n: i64)
    ensures
        final(out)@ == old(out)@ + int_text(n as int),
{
    if n < 0 {
        out.push('-');
        let magnitude: u64 = if n == i64::MIN {
            9223372036854775808u64
        } else {
            (-n) as u64
        };
        push_decimal(out, magnitude);
    } else {
        push_decimal(out, n as u64);
    }
}

/// The characters of a string slice, in order.
pub fn chars_of(s: &str) -> (chars: Vec<char>)
    ensures
        chars@ == s@,
{
    let mut chars: Vec<char> = Vec::new();
    for c in it: s.chars()
        invariant
            it.seq() == s@,
            chars@ == it.seq().take(it.index()),
    {
        chars.push(c);
    }
    chars
}

/// Whether `c` is one of the ten decimal digits.
pub open spec fn is_digit(c: char) -> bool {
    48 <= c as int <= 57
}

/// The number that a string of decimal digits writes.
pub open spec fn digits_value(s: Seq<char>) -> nat
    decreases s.len(),
{
    if s.len() == 0 {
        0
    } else {
        (digits_value(s.drop_last()) * 10 + (s.last() as int - 48)) as nat
    }
}

/// Whether `s` is made of decimal digits only.
pub open spec fn all_digits(s: Seq<char>) -> bool {
    forall|i: int| 0 <= i < s.len() ==> is_digit(#[trigger] s[i])
}

/// The number that `s` writes: at least one decimal digit, after an optional sign.
/// A minus sign is accepted only where `signed` holds.
pub open spec fn integer_value(s: Seq<char>, signed: bool) -> Option<int> {
    let negative = signed && s.len() > 0 && s[0] == '-';
    let body = if s.len() > 0 && (s[0] == '+' || negative) {
        s.skip(1)
    } else {
        s
    };
    if body.len() > 0 && all_digits(body) {
        if negative {
            Some(-(digits_value(body) as int))
        } else {
            Some(digits_value(body) as int)
        }
    } else {
        None
    }
}

/// The number that `s` writes, where it lies between `low` and `high`.
pub open spec fn integer_in_range(s: Seq<char>, signed: bool, low: int, high: int) -> Option<int> {
    match integer_value(s, signed) {
        Some(v) => if low <= v <= high {
            Some(v)
        } else {
            None
        },
        None => None,
    }
}

/// A string of digits writes a number at least as large as any of its beginnings does.
pub proof fn lemma_digits_value_grows(s: Seq<char>, n: int)
    requires
        all_digits(s),
        0 <= n <= s.len(),
    ensures
        digits_value(s.take(n)) <= digits_value(s),
    decreases s.len() - n,
{
    if n == s.len() {
        assert(s.take(n) =~= s);
    } else {
        lemma_digits_value_grows(s, n + 1);
        assert(s.take(n + 1).drop_last() =~= s.take(n));
        assert(is_digit(s[n]));
        assert(s.take(n + 1).last() == s[n]);
    }
}

/// Reads the number that `chars` writes, where it lies between `low` and `high`.
#[verifier::loop_isolation(false)]
pub fn parse_integer(chars: &Vec<char>, signed: bool, low: i64, high: i64) -> (value: Option<i64>)
    requires
        -0x1_0000_0000 <= low <= high <= 0x1_0000_0000,
    ensures
        match value {
            Some(v) => integer_in_range(chars@, signed, low as int, high as int) == Some(v as int),
            None => integer_in_range(chars@, signed, low as int, high as int) is None,
        },
{
    let n = chars.len();
    let negative = signed && n > 0 && chars[0] == '-';
    let start: usize = if n > 0 && (chars[0] == '+' || negative) {
        1
    } else {
        0
    };
    let ghost body = if start == 1 {
        chars@.skip(1)
    } else {
        chars@
    };
    if start == n {
        return None;
    }
    let mut acc: i64 = 0;
    let mut i: usize = start;
    while i < n
        invariant
            start <= i <= n,
            n == chars.len(),
            body == chars@.skip(start as int),
            all_digits(body.take(i - start)),
            acc == digits_value(body.take(i - start)),
            0 <= acc <= 0x1_0000_0000,
        decreases n - i,
    {
        let c = chars[i];
        if c < '0' || c > '9' {
            proof {
                assert(body[i - start] == c);
                assert(!is_digit(body[i - start]));
            }
            return None;
        }
        let digit: i64 = (c as u8 - 48) as i64;
        proof {
            assert(is_digit(c));
            assert(body[i - start] == c);
            assert(body.take(i - start + 1).drop_last() =~= body.take(i - start));
            assert(body.take(i - start + 1).last() == c);
            assert forall|k: int| 0 <= k < i - start + 1 implies is_digit(
                #[trigger] body.take(i - start + 1)[k],
            ) by {
                if k < i - start {
                    assert(body.take(i - start)[k] == body[k]);
                } else {
                    assert(body[i - start] == c);
                }
            }
        }
        acc = acc * 10 + digit;
        i = i + 1;
        if acc > 0x1_0000_0000 {
            proof {
                if all_digits(body) {
                    lemma_digits_value_grows(body, i - start);
                }
            }
            return None;
        }
    }
    proof {
        assert(body.take(i - start) =~= body);
    }
    let v: i64 = if negative {
        -acc
    } else {
        acc
    };
    if low <= v && v <= high {
        Some(v)
    } else {
        None
    }
}


/// The pieces of `s` between the occurrences of `sep`: reading the characters in
/// order, a separator starts a new piece and any other character extends the last one.
pub open spec fn split_on(s: Seq<char>, sep: char) -> Seq<Seq<char>>
    decreases s.len(),
{
    if s.len() == 0 {
        seq![Seq::empty()]
    } else {
        let pieces = split_on(s.drop_last(), sep);
        if s.last() == sep {
            pieces.push(Seq::empty())
        } else {
            pieces.update(pieces.len() - 1, pieces.last().push(s.last()))
        }
    }
}

/// The character sequences that the vectors of `pieces` hold.
pub open spec fn piece_views(pieces: Seq<Vec<char>>) -> Seq<Seq<char>> {
    Seq::new(pieces.len(), |i: int| pieces[i]@)
}

/// Whether `pat` stands in `s` at position `i`.
pub open spec fn occurs_at(s: Seq<char>, pat: Seq<char>, i: int) -> bool {
    0 <= i && i + pat.len() <= s.len() && s.subrange(i, i + pat.len()) == pat
}

/// Whether `pat` stands somewhere in `s`.
pub open spec fn occurs(s: Seq<char>, pat: Seq<char>) -> bool {
    exists|i: int| occurs_at(s, pat, i)
}

/// `s` with every occurrence of `pat` taken out, the occurrences found from left to
/// right without overlap.
pub open spec fn without(s: Seq<char>, pat: Seq<char>) -> Seq<char>
    decreases s.len(),
{
    if pat.len() == 0 || s.len() < pat.len() {
        s
    } else if occurs_at(s, pat, 0) {
        without(s.skip(pat.len() as int), pat)
    } else {
        seq![s[0]] + without(s.skip(1), pat)
    }
}

/// `s` with every occurrence of the character `c` taken out.
pub open spec fn without_char(s: Seq<char>, c: char) -> Seq<char>
    decreases s.len(),
{
    if s.len() == 0 {
        Seq::empty()
    } else if s.last() == c {
        without_char(s.drop_last(), c)
    } else {
        without_char(s.drop_last(), c).push(s.last())
    }
}

/// Splits `chars` at every occurrence of `sep`.
pub fn split(chars: &Vec<char>, sep: char) -> (pieces: Vec<Vec<char>>)
    ensures
        piece_views(pieces@) == split_on(chars@, sep),
        pieces.len() >= 1,
{
    let mut done: Vec<Vec<char>> = Vec::new();
    let mut current: Vec<char> = Vec::new();
    let mut i: usize = 0;
    assert(piece_views(done@).push(current@) =~= split_on(chars@.take(0), sep));
    while i < chars.len()
        invariant
            i <= chars.len(),
            piece_views(done@).push(current@) == split_on(chars@.take(i as int), sep),
        decreases chars.len() - i,
    {
        let c = chars[i];
        let ghost before = piece_views(done@).push(current@);
        proof {
            assert(chars@.take(i + 1).drop_last() =~= chars@.take(i as int));
            assert(chars@.take(i + 1).last() == c);
        }
        if c == sep {
            done.push(current);
            current = Vec::new();
            assert(piece_views(done@).push(current@) =~= before.push(Seq::empty()));
        } else {
            current.push(c);
            assert(piece_views(done@).push(current@) =~= before.update(
                before.len() - 1,
                before.last().push(c),
            ));
        }
        i = i + 1;
    }
    let ghost before = piece_views(done@).push(current@);
    done.push(current);
    assert(chars@.take(i as int) =~= chars@);
    assert(piece_views(done@) =~= before);
    done
}

/// Tells whether `pat` stands in `chars` at position `i`.
pub fn matches_at(chars: &Vec<char>, pat: &Vec<char>, i: usize) -> (found: bool)
    ensures
        found == occurs_at(chars@, pat@, i as int),
{
    if pat.len() > chars.len() || i > chars.len() - pat.len() {
        return false;
    }
    let mut k: usize = 0;
    while k < pat.len()
        invariant
            k <= pat.len(),
            i + pat.len() <= chars.len(),
            forall|j: int| 0 <= j < k ==> chars[i + j] == pat[j],
        decreases pat.len() - k,
    {
        if chars[i + k] != pat[k] {
            proof {
                assert(chars@.subrange(i as int, i + pat.len())[k as int] == chars[i + k]);
            }
            return false;
        }
        k = k + 1;
    }
    assert(chars@.subrange(i as int, i + pat.len()) =~= pat@);
    true
}

/// Tells whether `pat` stands somewhere in `chars`.
pub fn contains(chars: &Vec<char>, pat: &Vec<char>) -> (found: bool)
    ensures
        found == occurs(chars@, pat@),
{
    if pat.len() > chars.len() {
        assert(forall|i: int| !occurs_at(chars@, pat@, i));
        return false;
    }
    let last: usize = chars.len() - pat.len();
    let mut i: usize = 0;
    while i < last
        invariant
            i <= last,
            last == chars.len() - pat.len(),
            forall|j: int| 0 <= j < i ==> !occurs_at(chars@, pat@, j),
        decreases last - i,
    {
        if matches_at(chars, pat, i) {
            return true;
        }
        i = i + 1;
    }
    let found = matches_at(chars, pat, last);
    assert(!found ==> forall|j: int| !occurs_at(chars@, pat@, j));
    found
}

/// Takes every occurrence of `pat` out of `chars`.
pub fn remove_all(chars: &Vec<char>, pat: &Vec<char>) -> (rest: Vec<char>)
    requires
        pat.len() > 0,
    ensures
        rest@ == without(chars@, pat@),
{
    let mut rest: Vec<char> = Vec::new();
    let mut i: usize = 0;
    assert(chars@.skip(0) =~= chars@);
    while i < chars.len()
        invariant
            i <= chars.len(),
            pat.len() > 0,
            rest@ + without(chars@.skip(i as int), pat@) == without(chars@, pat@),
        decreases chars.len() - i,
    {
        let ghost tail = chars@.skip(i as int);
        let found = matches_at(chars, pat, i);
        proof {
            if i + pat.len() <= chars.len() {
                assert(tail.subrange(0, pat.len() as int) =~= chars@.subrange(
                    i as int,
                    i + pat.len(),
                ));
            }
            assert(found == occurs_at(tail, pat@, 0));
        }
        if found {
            proof {
                assert(tail.skip(pat.len() as int) =~= chars@.skip(i + pat.len()));
            }
            i = i + pat.len();
        } else {
            proof {
                assert(tail.skip(1) =~= chars@.skip(i + 1));
                if tail.len() < pat.len() {
                    assert(without(tail.skip(1), pat@) == tail.skip(1));
                    assert(seq![tail[0]] + tail.skip(1) =~= tail);
                }
                assert(rest@.push(chars[i as int]) + without(tail.skip(1), pat@) =~= rest@ + (
                seq![tail[0]] + without(tail.skip(1), pat@)));
            }
            rest.push(chars[i]);
            i = i + 1;
        }
    }
    assert(chars@.skip(i as int).len() == 0);
    assert(rest@ + chars@.skip(i as int) =~= rest@);
    rest
}

/// Takes every occurrence of the character `c` out of `chars`.
pub fn remove_char(chars: &Vec<char>, c: char) -> (rest: Vec<char>)
    ensures
        rest@ == without_char(chars@, c),
{
    let mut rest: Vec<char> = Vec::new();
    let mut i: usize = 0;
    while i < chars.len()
        invariant
            i <= chars.len(),
            rest@ == without_char(chars@.take(i as int), c),
        decreases chars.len() - i,
    {
        proof {
            assert(chars@.take(i + 1).drop_last() =~= chars@.take(i as int));
        }
        if chars[i] != c {
            rest.push(chars[i]);
        }
        i = i + 1;
    }
    assert(chars@.take(i as int) =~= chars@);
    rest
}

} // verus!
