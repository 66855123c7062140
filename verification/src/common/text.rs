//! Building and comparing text.
use vstd::prelude::*;
use vstd::string::*;

verus! {

/// `String::push` appends the given character to the end of the string.
pub assume_specification[ std::string::String::push ](s: &mut std::string::String, c: char)
    ensures
        final(s)@ == old(s)@.push(c),
;

/// The characters `chars[from..to]` as a string.
pub fn text_of(chars: &Vec<char>, from: usize, to: usize) -> (r: String)
    requires
        from <= to <= chars.len(),
    ensures
        r@ == chars@.subrange(from as int, to as int),
{
    let mut r = String::new();
    let mut i = from;
    while i < to
        invariant
            from <= i <= to <= chars.len(),
            r@ == chars@.subrange(from as int, i as int),
        decreases to - i,
    {
        r.push(chars[i]);
        i += 1;
    }
    r
}

/// Whether the characters `chars[from..to]` spell `word`.
pub fn text_is(chars: &Vec<char>, from: usize, to: usize, word: &str) -> (r: bool)
    requires
        from <= to <= chars.len(),
    ensures
        r == (chars@.subrange(from as int, to as int) == word@),
{
    let n = word.unicode_len();
    if to - from != n {
        return false;
    }
    let mut i: usize = 0;
    while i < n
        invariant
            from <= to <= chars.len(),
            to - from == n,
            n == word@.len(),
            i <= n,
            forall|j: int| 0 <= j < i ==> chars@[from + j] == word@[j],
        decreases n - i,
    {
        if chars[from + i] != word.get_char(i) {
            return false;
        }
        i += 1;
    }
    assert(chars@.subrange(from as int, to as int) =~= word@);
    true
}

/// The character of the decimal digit `d`.
pub open spec fn digit_char(d: nat) -> char
    recommends
        d < 10,
{
    ('0' as u8 + d) as char
}

/// The decimal digits of `n`, most significant first, without leading zeros.
pub open spec fn digits_of(n: nat) -> Seq<char>
    decreases n,
{
    if n < 10 {
        seq![digit_char(n)]
    } else {
        digits_of(n / 10).push(digit_char(n % 10))
    }
}

/// The decimal notation of `n`, with a minus sign before a negative number.
pub open spec fn number_text(n: int) -> Seq<char> {
    if n < 0 {
        seq!['-'] + digits_of((-n) as nat)
    } else {
        digits_of(n as nat)
    }
}

/// `n` copies of `s`, one after the other.
pub open spec fn repeat_text(s: Seq<char>, n: nat) -> Seq<char>
    decreases n,
{
    if n == 0 {
        Seq::empty()
    } else {
        repeat_text(s, (n - 1) as nat) + s
    }
}

/// The decimal notation of `n` as a string.
pub fn number_to_string(n: i64) -> (r: String)
    ensures
        r@ == number_text(n as int),
{
    let negative = n < 0;
    let magnitude: u64 = if negative {
        (-(n + 1)) as u64 + 1
    } else {
        n as u64
    };
    // The digits, least significant first as they are computed, each put
    // before the ones that came earlier.
    let mut digits: Vec<char> = Vec::new();
    let mut left = magnitude;
    while left >= 10
        invariant
            digits_of(magnitude as nat) == digits_of(left as nat) + digits@,
        decreases left,
    {
        let digit = (48u8 + (left % 10) as u8) as char;
        digits.insert(0, digit);
        left = left / 10;
    }
    let first = (48u8 + left as u8) as char;
    let mut r = String::new();
    if negative {
        r.push('-');
    }
    r.push(first);
    let ghost head = r@;
    let mut i: usize = 0;
    while i < digits.len()
        invariant
            i <= digits.len(),
            r@ == head + digits@.take(i as int),
        decreases digits.len() - i,
    {
        r.push(digits[i]);
        i += 1;
    }
    r
}

/// `count` copies of `s`, one after the other.
pub fn repeat_string(s: &str, count: u64) -> (r: String)
    ensures
        r@ == repeat_text(s@, count as nat),
{
    let mut r = String::new();
    let mut done: u64 = 0;
    while done < count
        invariant
            done <= count,
            r@ == repeat_text(s@, done as nat),
        decreases count - done,
    {
        r.append(s);
        done += 1;
    }
    r
}

} // verus!
