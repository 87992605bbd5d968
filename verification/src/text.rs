// Texts as sequences of characters: comparing, cutting, and numbers in base
// ten.
use vstd::prelude::*;

verus! {

/// Appends one character to a string.
///
/// Trusted: calls `String::push`, which the standard library documents as
/// appending the given `char` to the end of the string.
#[verifier::external_body]
pub(crate) fn push_char(s: &mut String, c: char)
    ensures
        final(s)@ == old(s)@.push(c),
{
    s.push(c)
}

/// The characters of `s`, in order.
pub fn chars_of(s: &str) -> (v: Vec<char>)
    ensures
        v@ == s@,
{
    let mut v: Vec<char> = Vec::new();
    for c in it: s.chars()
        invariant
            v@ == it.seq().take(it.index()),
            it.seq() == s@,
    {
        v.push(c);
    }
    v
}

/// Whether two character vectors hold the same characters.
pub fn chars_equal(a: &Vec<char>, b: &Vec<char>) -> (r: bool)
    ensures
        r == (a@ == b@),
{
    if a.len() != b.len() {
        return false;
    }
    let mut i: usize = 0;
    while i < a.len()
        invariant
            i <= a.len(),
            a.len() == b.len(),
            a@.take(i as int) == b@.take(i as int),
        decreases a.len() - i,
    {
        if a[i] != b[i] {
            return false;
        }
        i += 1;
    }
    assert(a@.take(a.len() as int) == a@);
    assert(b@.take(b.len() as int) == b@);
    true
}

/// Whether the characters in `a` spell the string `b`.
pub fn chars_are(a: &Vec<char>, b: &str) -> (r: bool)
    ensures
        r == (a@ == b@),
{
    let other = chars_of(b);
    chars_equal(a, &other)
}

/// Whether two strings hold the same characters.
pub fn str_equal(a: &str, b: &str) -> (r: bool)
    ensures
        r == (a@ == b@),
{
    let left = chars_of(a);
    chars_are(&left, b)
}

/// Appends the characters of `tail` to `s`.
pub fn push_chars(s: &mut String, tail: &Vec<char>)
    ensures
        final(s)@ == old(s)@ + tail@,
{
    let mut i: usize = 0;
    while i < tail.len()
        invariant
            i <= tail.len(),
            s@ == old(s)@ + tail@.take(i as int),
        decreases tail.len() - i,
    {
        push_char(s, tail[i]);
        i += 1;
    }
}

/// An owned copy of `s`.
pub fn owned(s: &str) -> (r: String)
    ensures
        r@ == s@,
{
    let mut r = String::new();
    r.append(s);
    r
}

/// The deep view of a vector of characters is its view.
pub proof fn lemma_deep_view_chars(v: Vec<char>)
    ensures
        v.deep_view() == v@,
{
}

/// Pushing onto a vector pushes the element's deep view onto the vector's.
pub proof fn lemma_deep_view_push<T: DeepView>(before: Vec<T>, after: Vec<T>, x: T)
    requires
        after@ == before@.push(x),
    ensures
        after.deep_view() == before.deep_view().push(x.deep_view()),
{
}

/// The pieces of `s` between occurrences of `sep`. There is always at least
/// one piece, and a piece may be empty.
pub open spec fn split_on(s: Seq<char>, sep: char) -> Seq<Seq<char>>
    decreases s.len(),
{
    if s.len() == 0 {
        seq![Seq::<char>::empty()]
    } else {
        let before = split_on(s.drop_last(), sep);
        if s.last() == sep {
            before.push(Seq::<char>::empty())
        } else {
            before.drop_last().push(before.last().push(s.last()))
        }
    }
}

/// Text without a separator, put behind other text, lengthens its last piece.
pub proof fn lemma_split_on_append(a: Seq<char>, b: Seq<char>, sep: char)
    requires
        forall|i: int| 0 <= i < b.len() ==> b[i] != sep,
    ensures
        split_on(a, sep).len() >= 1,
        split_on(a + b, sep) == split_on(a, sep).drop_last().push(split_on(a, sep).last() + b),
    decreases b.len(),
{
    let pieces = split_on(a, sep);
    if b.len() == 0 {
    } else {
        let shorter = b.drop_last();
        lemma_split_on_append(a, shorter, sep);
        assert((a + b).drop_last() =~= a + shorter);
        let before = split_on(a + shorter, sep);
        assert(before.last().push(b.last()) =~= pieces.last() + b);
    }
}

/// A separator put behind text opens a new, empty piece.
pub proof fn lemma_split_on_separator(a: Seq<char>, sep: char)
    ensures
        split_on(a.push(sep), sep) == split_on(a, sep).push(Seq::<char>::empty()),
{
    assert(a.push(sep).drop_last() =~= a);
}

/// Text without a separator is one piece.
pub proof fn lemma_split_on_single(b: Seq<char>, sep: char)
    requires
        forall|i: int| 0 <= i < b.len() ==> b[i] != sep,
    ensures
        split_on(b, sep) == seq![b],
{
    let a = Seq::<char>::empty();
    lemma_split_on_append(a, b, sep);
}

/// Cuts the characters of `s` from position `start` on at each `sep`.
pub fn split_chars(s: &Vec<char>, start: usize, sep: char) -> (r: Vec<Vec<char>>)
    requires
        start <= s.len(),
    ensures
        r.deep_view() == split_on(s@.skip(start as int), sep),
        r.len() >= 1,
{
    let mut parts: Vec<Vec<char>> = Vec::new();
    let mut cur: Vec<char> = Vec::new();
    let mut i: usize = start;
    while i < s.len()
        invariant
            start <= i <= s.len(),
            parts.deep_view().push(cur@) == split_on(s@.subrange(start as int, i as int), sep),
        decreases s.len() - i,
    {
        let c: char = s[i];
        let ghost done = s@.subrange(start as int, i as int);
        let ghost next = s@.subrange(start as int, i + 1);
        assert(next.drop_last() =~= done);
        if c == sep {
            proof {
                lemma_deep_view_chars(cur);
            }
            parts.push(cur);
            cur = Vec::new();
        } else {
            cur.push(c);
        }
        i += 1;
    }
    proof {
        lemma_deep_view_chars(cur);
    }
    parts.push(cur);
    parts
}

/// Whether `c` is one of the ten ASCII digits.
pub open spec fn is_digit(c: char) -> bool {
    '0' <= c && c <= '9'
}

/// The number that the ASCII digit `c` stands for.
pub open spec fn digit_value(c: char) -> int {
    c as int - '0' as int
}

/// The ASCII digit that stands for `d`, for `d` below ten.
pub open spec fn digit_char(d: int) -> char {
    if d == 0 {
        '0'
    } else if d == 1 {
        '1'
    } else if d == 2 {
        '2'
    } else if d == 3 {
        '3'
    } else if d == 4 {
        '4'
    } else if d == 5 {
        '5'
    } else if d == 6 {
        '6'
    } else if d == 7 {
        '7'
    } else if d == 8 {
        '8'
    } else {
        '9'
    }
}

/// Whether every character of `s` is an ASCII digit.
pub open spec fn all_digits(s: Seq<char>) -> bool {
    forall|i: int| 0 <= i < s.len() ==> is_digit(#[trigger] s[i])
}

/// The number that a run of ASCII digits spells in base ten.
pub open spec fn decimal_value(s: Seq<char>) -> int
    decreases s.len(),
{
    if s.len() == 0 {
        0
    } else {
        decimal_value(s.drop_last()) * 10 + digit_value(s.last())
    }
}

/// The shortest base-ten spelling of `n`.
pub open spec fn decimal_digits(n: nat) -> Seq<char>
    decreases n,
{
    if n < 10 {
        seq![digit_char(n as int)]
    } else {
        decimal_digits(n / 10).push(digit_char((n % 10) as int))
    }
}

/// A base-ten spelling is made of digits, is never empty, and spells its number.
pub proof fn lemma_decimal_digits(n: nat)
    ensures
        decimal_digits(n).len() > 0,
        all_digits(decimal_digits(n)),
        decimal_value(decimal_digits(n)) == n,
    decreases n,
{
    if n < 10 {
        let s = decimal_digits(n);
        assert(decimal_value(s.drop_last()) == 0);
    } else {
        lemma_decimal_digits(n / 10);
        let s = decimal_digits(n);
        assert(s.drop_last() =~= decimal_digits(n / 10));
    }
}

/// Among runs of digits, a prefix never spells a greater number than the whole.
pub proof fn lemma_decimal_value_prefix(s: Seq<char>, k: int)
    requires
        all_digits(s),
        0 <= k <= s.len(),
    ensures
        0 <= decimal_value(s.take(k)) <= decimal_value(s),
    decreases s.len() - k,
{
    if k == s.len() {
        assert(s.take(k) =~= s);
        lemma_decimal_value_nonnegative(s);
    } else {
        lemma_decimal_value_prefix(s, k + 1);
        let t = s.take(k + 1);
        assert(t.drop_last() =~= s.take(k));
    }
}

/// A run of digits spells a number that is not negative.
pub proof fn lemma_decimal_value_nonnegative(s: Seq<char>)
    requires
        all_digits(s),
    ensures
        0 <= decimal_value(s),
    decreases s.len(),
{
    if s.len() > 0 {
        lemma_decimal_value_nonnegative(s.drop_last());
    }
}

/// The number that `s` spells, if `s` is a nonempty run of ASCII digits whose
/// number fits in sixteen bits.
pub open spec fn number_of(s: Seq<char>) -> Option<u16> {
    if s.len() > 0 && all_digits(s) && decimal_value(s) <= u16::MAX {
        Some(decimal_value(s) as u16)
    } else {
        None
    }
}

/// Reads a base-ten number of at most sixteen bits.
pub fn parse_number(s: &Vec<char>) -> (r: Option<u16>)
    ensures
        r == number_of(s@),
{
    if s.len() == 0 {
        return None;
    }
    let mut acc: u32 = 0;
    let mut i: usize = 0;
    while i < s.len()
        invariant
            i <= s.len(),
            all_digits(s@.take(i as int)),
            acc == decimal_value(s@.take(i as int)),
            acc <= u16::MAX,
        decreases s.len() - i,
    {
        let c: char = s[i];
        if !(c >= '0' && c <= '9') {
            return None;
        }
        let d: u32 = c as u32 - '0' as u32;
        let next: u32 = acc * 10 + d;
        proof {
            let t = s@.take(i + 1);
            assert(t.drop_last() =~= s@.take(i as int));
            if next > u16::MAX && all_digits(s@) {
                lemma_decimal_value_prefix(s@, i + 1);
            }
        }
        if next > 65535 {
            return None;
        }
        acc = next;
        i += 1;
    }
    assert(s@.take(s.len() as int) == s@);
    Some(acc as u16)
}

/// Writes `n` in base ten.
pub fn number_digits(n: u64) -> (r: Vec<char>)
    ensures
        r@ == decimal_digits(n as nat),
    decreases n,
{
    let last: u8 = (n % 10) as u8;
    let c: char = if last == 0 {
        '0'
    } else if last == 1 {
        '1'
    } else if last == 2 {
        '2'
    } else if last == 3 {
        '3'
    } else if last == 4 {
        '4'
    } else if last == 5 {
        '5'
    } else if last == 6 {
        '6'
    } else if last == 7 {
        '7'
    } else if last == 8 {
        '8'
    } else {
        '9'
    };
    if n < 10 {
        let mut r: Vec<char> = Vec::new();
        r.push(c);
        r
    } else {
        let mut r = number_digits(n / 10);
        r.push(c);
        r
    }
}

/// Where `c` stands first in `s` at or behind `from`, if anywhere.
pub open spec fn first_index_of(s: Seq<char>, c: char, from: int) -> Option<int>
    decreases s.len() - from,
{
    if from < 0 || from >= s.len() {
        None
    } else if s[from] == c {
        Some(from)
    } else {
        first_index_of(s, c, from + 1)
    }
}

/// Where `c` stands first in `s`, if anywhere.
pub fn find_char(s: &Vec<char>, c: char) -> (r: Option<usize>)
    ensures
        match r {
            Some(i) => first_index_of(s@, c, 0) == Some(i as int) && i < s.len(),
            None => first_index_of(s@, c, 0) is None,
        },
{
    let mut i: usize = 0;
    while i < s.len()
        invariant
            i <= s.len(),
            first_index_of(s@, c, 0) == first_index_of(s@, c, i as int),
        decreases s.len() - i,
    {
        if s[i] == c {
            return Some(i);
        }
        i += 1;
    }
    None
}

/// The characters of `s` from place `from` up to, but without, place `to`.
pub fn slice_chars(s: &Vec<char>, from: usize, to: usize) -> (r: String)
    requires
        from <= to <= s.len(),
    ensures
        r@ == s@.subrange(from as int, to as int),
{
    let mut r = String::new();
    let mut i: usize = from;
    while i < to
        invariant
            from <= i <= to,
            to <= s.len(),
            r@ == s@.subrange(from as int, i as int),
        decreases to - i,
    {
        push_char(&mut r, s[i]);
        i += 1;
    }
    r
}

/// How a whole number is written in base ten, with a minus sign where it is
/// negative.
pub open spec fn integer_text(n: int) -> Seq<char> {
    if n < 0 {
        seq!['-'] + decimal_digits((-n) as nat)
    } else {
        decimal_digits(n as nat)
    }
}

/// Writes `n` in base ten.
pub fn integer_digits(n: i32) -> (r: Vec<char>)
    ensures
        r@ == integer_text(n as int),
{
    if n < 0 {
        let magnitude: u64 = (-(n as i64)) as u64;
        let mut r: Vec<char> = Vec::new();
        r.push('-');
        let mut digits = number_digits(magnitude);
        r.append(&mut digits);
        r
    } else {
        number_digits(n as u64)
    }
}

/// The texts `a` and `b`, one behind the other.
pub fn followed_by(a: &str, b: &str) -> (r: String)
    ensures
        r@ == a@ + b@,
{
    let mut r = owned(a);
    r.append(b);
    r
}

} // verus!
