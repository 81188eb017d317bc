//! Character-level helpers on strings: whitespace, trimming, comparison.

use vstd::prelude::*;

verus! {

/// Whether `c` carries the Unicode property `White_Space`.
pub open spec fn is_space(c: char) -> bool {
    let n = c as u32;
    ||| 0x09 <= n <= 0x0D
    ||| n == 0x20
    ||| n == 0x85
    ||| n == 0xA0
    ||| n == 0x1680
    ||| 0x2000 <= n <= 0x200A
    ||| n == 0x2028
    ||| n == 0x2029
    ||| n == 0x202F
    ||| n == 0x205F
    ||| n == 0x3000
}

/// Index of the first character of `s` that is no whitespace; `s.len()` if there is none.
pub open spec fn leading_spaces(s: Seq<char>) -> int
    decreases s.len(),
{
    if s.len() == 0 || !is_space(s[0]) {
        0
    } else {
        1 + leading_spaces(s.drop_first())
    }
}

/// Number of whitespace characters at the end of `s`.
pub open spec fn trailing_spaces(s: Seq<char>) -> int
    decreases s.len(),
{
    if s.len() == 0 || !is_space(s.last()) {
        0
    } else {
        1 + trailing_spaces(s.drop_last())
    }
}

/// `s` without its leading and trailing whitespace.
pub open spec fn trimmed(s: Seq<char>) -> Seq<char> {
    let from = leading_spaces(s);
    let rest = s.subrange(from, s.len() as int);
    rest.subrange(0, rest.len() - trailing_spaces(rest))
}

pub fn is_whitespace(c: char) -> (b: bool)
    ensures
        b == is_space(c),
{
    let n: u32 = c as u32;
    (0x09 <= n && n <= 0x0D) || n == 0x20 || n == 0x85 || n == 0xA0 || n == 0x1680 || (0x2000 <= n
        && n <= 0x200A) || n == 0x2028 || n == 0x2029 || n == 0x202F || n == 0x205F || n == 0x3000
}

/// The characters of `s`, in order.
pub fn chars_of(s: &str) -> (v: Vec<char>)
    ensures
        v@ == s@,
{
    let mut v: Vec<char> = Vec::new();
    for c in it: s.chars()
        invariant
            v@ == it.seq().take(it.index()),
            it.seq() == s@,
    {
        v.push(c);
    }
    v
}

/// A run of `k` whitespace characters at the start of `s`, ended by another
/// character or by the end of `s`, is all of its leading whitespace.
pub proof fn lemma_leading_spaces(s: Seq<char>, k: int)
    requires
        0 <= k <= s.len(),
        forall|i: int| 0 <= i < k ==> is_space(#[trigger] s[i]),
        k < s.len() ==> !is_space(s[k]),
    ensures
        leading_spaces(s) == k,
    decreases k,
{
    if k > 0 {
        let rest = s.drop_first();
        assert forall|i: int| 0 <= i < k - 1 implies is_space(#[trigger] rest[i]) by {
            assert(rest[i] == s[i + 1]);
        }
        lemma_leading_spaces(rest, k - 1);
    }
}

/// A run of `k` whitespace characters at the end of `s`, preceded by another
/// character or by the start of `s`, is all of its trailing whitespace.
pub proof fn lemma_trailing_spaces(s: Seq<char>, k: int)
    requires
        0 <= k <= s.len(),
        forall|i: int| s.len() - k <= i < s.len() ==> is_space(#[trigger] s[i]),
        k < s.len() ==> !is_space(s[s.len() - k - 1]),
    ensures
        trailing_spaces(s) == k,
    decreases k,
{
    if k > 0 {
        let rest = s.drop_last();
        assert forall|i: int| rest.len() - (k - 1) <= i < rest.len() implies is_space(
            #[trigger] rest[i],
        ) by {
            assert(rest[i] == s[i]);
        }
        lemma_trailing_spaces(rest, k - 1);
    }
}

/// `s` without the whitespace at its two ends.
pub fn trim(s: &str) -> (t: String)
    ensures
        t@ == trimmed(s@),
{
    let chars = chars_of(s);
    let n: usize = chars.len();
    let mut from: usize = 0;
    while from < n && is_whitespace(chars[from])
        invariant
            from <= n,
            n == chars@.len(),
            forall|i: int| 0 <= i < from ==> is_space(#[trigger] chars@[i]),
        decreases n - from,
    {
        from = from + 1;
    }
    let mut to: usize = n;
    while to > from && is_whitespace(chars[to - 1])
        invariant
            from <= to <= n,
            n == chars@.len(),
            forall|i: int| to <= i < n ==> is_space(#[trigger] chars@[i]),
        decreases to,
    {
        to = to - 1;
    }
    proof {
        lemma_leading_spaces(s@, from as int);
        let rest = s@.subrange(from as int, n as int);
        assert forall|i: int| rest.len() - (n - to) <= i < rest.len() implies is_space(
            #[trigger] rest[i],
        ) by {
            assert(rest[i] == s@[i + from]);
        }
        lemma_trailing_spaces(rest, n - to);
        assert(rest.subrange(0, rest.len() - (n - to)) =~= s@.subrange(from as int, to as int));
    }
    String::from_str(s.substring_char(from, to))
}

/// Whether `a` and `b` hold the same characters.
pub fn same_text(a: &str, b: &str) -> (same: bool)
    ensures
        same == (a@ == b@),
{
    String::from_str(a) == String::from_str(b)
}

/// Whether `s` ends with `suffix`.
pub open spec fn has_suffix(s: Seq<char>, suffix: Seq<char>) -> bool {
    suffix.len() <= s.len() && s.subrange(s.len() - suffix.len(), s.len() as int) == suffix
}

/// Whether `s` ends with `suffix`.
pub fn ends_with(s: &str, suffix: &str) -> (ends: bool)
    ensures
        ends == has_suffix(s@, suffix@),
{
    let text = chars_of(s);
    let tail = chars_of(suffix);
    if tail.len() > text.len() {
        return false;
    }
    let from: usize = text.len() - tail.len();
    let mut i: usize = 0;
    while i < tail.len()
        invariant
            i <= tail.len(),
            from + tail.len() == text.len(),
            text@ == s@,
            tail@ == suffix@,
            forall|k: int| 0 <= k < i ==> text@[from + k] == tail@[k],
        decreases tail.len() - i,
    {
        if text[from + i] != tail[i] {
            assert(s@.subrange(from as int, s@.len() as int)[i as int] != suffix@[i as int]);
            return false;
        }
        i = i + 1;
    }
    assert(s@.subrange(from as int, s@.len() as int) =~= suffix@);
    true
}

/// Whitespace around a text that neither begins nor ends with whitespace is
/// what trimming takes away.
pub proof fn lemma_trim_padded(text: Seq<char>, before: Seq<char>, after: Seq<char>)
    requires
        forall|i: int| 0 <= i < before.len() ==> is_space(#[trigger] before[i]),
        forall|i: int| 0 <= i < after.len() ==> is_space(#[trigger] after[i]),
        text.len() > 0 ==> !is_space(text[0]) && !is_space(text.last()),
    ensures
        trimmed(before + text + after) == text,
{
    let padded = before + text + after;
    if text.len() == 0 {
        assert forall|i: int| 0 <= i < padded.len() implies is_space(#[trigger] padded[i]) by {
            if i < before.len() {
                assert(padded[i] == before[i]);
            } else {
                assert(padded[i] == after[i - before.len()]);
            }
        }
        lemma_leading_spaces(padded, padded.len() as int);
        let rest = padded.subrange(padded.len() as int, padded.len() as int);
        assert(rest.len() == 0);
        assert(trimmed(padded) =~= text);
    } else {
        let k = before.len() as int;
        assert forall|i: int| 0 <= i < k implies is_space(#[trigger] padded[i]) by {
            assert(padded[i] == before[i]);
        }
        assert(padded[k] == text[0]);
        lemma_leading_spaces(padded, k);
        let rest = padded.subrange(k, padded.len() as int);
        assert(rest =~= text + after);
        let t = after.len() as int;
        assert forall|i: int| rest.len() - t <= i < rest.len() implies is_space(
            #[trigger] rest[i],
        ) by {
            assert(rest[i] == after[i - text.len()]);
        }
        assert(rest[rest.len() - t - 1] == text.last());
        lemma_trailing_spaces(rest, t);
        assert(rest.subrange(0, rest.len() - t) =~= text);
    }
}

/// The whitespace that trimming takes away at the start of `s`.
pub open spec fn trimmed_before(s: Seq<char>) -> Seq<char> {
    s.take(leading_spaces(s))
}

/// The whitespace that trimming takes away at the end of `s`.
pub open spec fn trimmed_after(s: Seq<char>) -> Seq<char> {
    let rest = s.subrange(leading_spaces(s), s.len() as int);
    rest.subrange(rest.len() - trailing_spaces(rest), rest.len() as int)
}

/// Trimming takes away whitespace at the two ends and nothing else: `s` is
/// what trimming leaves with whitespace before and after it, and what it
/// leaves neither begins nor ends with whitespace.
pub proof fn lemma_trimmed_is_bare(s: Seq<char>)
    ensures
        s == trimmed_before(s) + trimmed(s) + trimmed_after(s),
        forall|i: int| 0 <= i < trimmed_before(s).len() ==> is_space(#[trigger] trimmed_before(s)[i]),
        forall|i: int| 0 <= i < trimmed_after(s).len() ==> is_space(#[trigger] trimmed_after(s)[i]),
        trimmed(s).len() > 0 ==> !is_space(trimmed(s)[0]) && !is_space(trimmed(s).last()),
{
    lemma_leading_bound(s);
    let from = leading_spaces(s);
    let rest = s.subrange(from, s.len() as int);
    lemma_trailing_bound(rest);
    if trimmed(s).len() > 0 {
        assert(trimmed(s)[0] == rest[0]);
        assert(rest[0] == s[from]);
        assert(trimmed(s).last() == rest[rest.len() - trailing_spaces(rest) - 1]);
    }
    assert(s =~= trimmed_before(s) + trimmed(s) + trimmed_after(s));
    assert forall|i: int| 0 <= i < trimmed_before(s).len() implies is_space(
        #[trigger] trimmed_before(s)[i],
    ) by {
        assert(trimmed_before(s)[i] == s[i]);
    }
    assert forall|i: int| 0 <= i < trimmed_after(s).len() implies is_space(
        #[trigger] trimmed_after(s)[i],
    ) by {
        assert(trimmed_after(s)[i] == rest[rest.len() - trailing_spaces(rest) + i]);
    }
}

/// The leading whitespace of `s` lies inside `s`, is whitespace, and ends
/// before a character that is none.
pub proof fn lemma_leading_bound(s: Seq<char>)
    ensures
        0 <= leading_spaces(s) <= s.len(),
        forall|i: int| 0 <= i < leading_spaces(s) ==> is_space(#[trigger] s[i]),
        leading_spaces(s) < s.len() ==> !is_space(s[leading_spaces(s)]),
    decreases s.len(),
{
    if s.len() > 0 && is_space(s[0]) {
        let rest = s.drop_first();
        lemma_leading_bound(rest);
        let k = leading_spaces(rest);
        if k < rest.len() {
            assert(rest[k] == s[k + 1]);
        }
        assert forall|i: int| 0 <= i < leading_spaces(s) implies is_space(#[trigger] s[i]) by {
            if i > 0 {
                assert(s[i] == rest[i - 1]);
            }
        }
    }
}

/// The trailing whitespace of `s` lies inside `s`, is whitespace, and begins
/// behind a character that is none.
pub proof fn lemma_trailing_bound(s: Seq<char>)
    ensures
        0 <= trailing_spaces(s) <= s.len(),
        forall|i: int| s.len() - trailing_spaces(s) <= i < s.len() ==> is_space(#[trigger] s[i]),
        trailing_spaces(s) < s.len() ==> !is_space(s[s.len() - trailing_spaces(s) - 1]),
    decreases s.len(),
{
    if s.len() > 0 && is_space(s.last()) {
        let rest = s.drop_last();
        lemma_trailing_bound(rest);
        let k = trailing_spaces(rest);
        if k < rest.len() {
            assert(rest[rest.len() - k - 1] == s[s.len() - (k + 1) - 1]);
        }
        assert forall|i: int| s.len() - trailing_spaces(s) <= i < s.len() implies is_space(
            #[trigger] s[i],
        ) by {
            if i < s.len() - 1 {
                assert(s[i] == rest[i]);
            }
        }
    }
}

/// The code of `c`, with the capital letters of ASCII taken as small ones.
pub open spec fn folded(c: char) -> u32 {
    let n = c as u32;
    if 0x41 <= n <= 0x5A {
        (n + 0x20) as u32
    } else {
        n
    }
}

/// Whether `a` and `b` are the same but for the case of ASCII letters.
pub open spec fn same_folded(a: Seq<char>, b: Seq<char>) -> bool {
    a.len() == b.len() && forall|i: int| 0 <= i < a.len() ==> folded(a[i]) == folded(b[i])
}

fn fold(c: char) -> (code: u32)
    ensures
        code == folded(c),
{
    let n: u32 = c as u32;
    if 0x41 <= n && n <= 0x5A {
        n + 0x20
    } else {
        n
    }
}

/// Whether `a` and `b` are the same but for the case of ASCII letters.
pub fn same_ignoring_case(a: &str, b: &str) -> (same: bool)
    ensures
        same == same_folded(a@, b@),
{
    let left = chars_of(a);
    let right = chars_of(b);
    if left.len() != right.len() {
        return false;
    }
    let mut i: usize = 0;
    while i < left.len()
        invariant
            i <= left.len(),
            left.len() == right.len(),
            left@ == a@,
            right@ == b@,
            forall|k: int| 0 <= k < i ==> folded(a@[k]) == folded(b@[k]),
        decreases left.len() - i,
    {
        if fold(left[i]) != fold(right[i]) {
            return false;
        }
        i = i + 1;
    }
    true
}

/// The value of the decimal digit `c`.
pub open spec fn digit(c: char) -> Option<nat> {
    let n = c as u32;
    if 0x30 <= n <= 0x39 {
        Some((n - 0x30) as nat)
    } else {
        None
    }
}

/// Whether `s` is made of decimal digits.
pub open spec fn all_digits(s: Seq<char>) -> bool {
    forall|i: int| 0 <= i < s.len() ==> digit(#[trigger] s[i]) is Some
}

/// The number that the decimal digits `s` write.
pub open spec fn decimal_value(s: Seq<char>) -> nat
    decreases s.len(),
{
    if s.len() == 0 {
        0
    } else {
        decimal_value(s.drop_last()) * 10 + match digit(s.last()) {
            Some(d) => d,
            None => 0,
        }
    }
}

/// The number that `text` writes: whitespace around it aside, an optional
/// plus sign and then decimal digits, one at least.
pub open spec fn number_in(text: Seq<char>) -> Option<nat> {
    let bare = trimmed(text);
    let digits = if bare.len() > 0 && bare[0] == '+' {
        bare.drop_first()
    } else {
        bare
    };
    if digits.len() > 0 && all_digits(digits) {
        Some(decimal_value(digits))
    } else {
        None
    }
}

/// The number that a part of the digits writes is no greater than the number
/// that all of them write.
pub proof fn lemma_decimal_value_grows(s: Seq<char>, i: int)
    requires
        0 <= i <= s.len(),
    ensures
        decimal_value(s.take(i)) <= decimal_value(s),
    decreases s.len() - i,
{
    if i == s.len() {
        assert(s.take(i) =~= s);
    } else {
        lemma_decimal_value_grows(s, i + 1);
        assert(s.take(i + 1).drop_last() =~= s.take(i));
    }
}

/// The number that `text` writes, where it writes one that the machine holds.
pub fn parse_index(text: &str) -> (index: Option<usize>)
    ensures
        index == match number_in(text@) {
            Some(n) => if n <= usize::MAX {
                Some(n as usize)
            } else {
                None
            },
            None => None,
        },
{
    let bare = trim(text);
    let chars = chars_of(bare.as_str());
    let start: usize = if chars.len() > 0 && chars[0] == '+' {
        1
    } else {
        0
    };
    let ghost digits = chars@.subrange(start as int, chars@.len() as int);
    proof {
        if start == 1 {
            assert(digits =~= chars@.drop_first());
        } else {
            assert(digits =~= chars@);
        }
    }
    if start == chars.len() {
        return None;
    }
    let mut value: usize = 0;
    let mut i: usize = start;
    assert(digits.take(0) =~= Seq::<char>::empty());
    while i < chars.len()
        invariant
            start <= i <= chars.len(),
            digits == chars@.subrange(start as int, chars@.len() as int),
            digits.len() > 0,
            chars@ == trimmed(text@),
            digits == if trimmed(text@).len() > 0 && trimmed(text@)[0] == '+' {
                trimmed(text@).drop_first()
            } else {
                trimmed(text@)
            },
            all_digits(digits.take(i - start)),
            value == decimal_value(digits.take(i - start)),
        decreases chars.len() - i,
    {
        let n: u32 = chars[i] as u32;
        let ghost next = digits.take(i - start + 1);
        proof {
            assert(next.drop_last() =~= digits.take(i - start));
            assert(next.last() == chars@[i as int]);
            assert(digits[i - start] == chars@[i as int]);
        }
        if n < 0x30 || n > 0x39 {
            assert(!all_digits(digits));
            return None;
        }
        let d: usize = (n - 0x30) as usize;
        if value > (usize::MAX - d) / 10 {
            proof {
                lemma_decimal_value_grows(digits, i - start + 1);
            }
            return None;
        }
        value = value * 10 + d;
        assert(all_digits(next)) by {
            assert forall|k: int| 0 <= k < next.len() implies digit(#[trigger] next[k]) is Some by {
                if k < next.len() - 1 {
                    assert(next[k] == digits.take(i - start)[k]);
                }
            }
        }
        i = i + 1;
    }
    assert(digits.take(i - start) =~= digits);
    Some(value)
}

/// The decimal digit for `d`.
pub open spec fn digit_char(d: nat) -> char {
    if d == 0 {
        '0'
    } else if d == 1 {
        '1'
    } else if d == 2 {
        '2'
    } else if d == 3 {
        '3'
    } else if d == 4 {
        '4'
    } else if d == 5 {
        '5'
    } else if d == 6 {
        '6'
    } else if d == 7 {
        '7'
    } else if d == 8 {
        '8'
    } else {
        '9'
    }
}

/// `n` in decimal digits.
pub open spec fn decimal_text(n: nat) -> Seq<char>
    decreases n,
{
    if n < 10 {
        seq![digit_char(n)]
    } else {
        decimal_text(n / 10).push(digit_char(n % 10))
    }
}

fn digit_text(d: usize) -> (text: &'static str)
    requires
        d < 10,
    ensures
        text@ == seq![digit_char(d as nat)],
{
    proof {
        reveal_strlit("0");
        reveal_strlit("1");
        reveal_strlit("2");
        reveal_strlit("3");
        reveal_strlit("4");
        reveal_strlit("5");
        reveal_strlit("6");
        reveal_strlit("7");
        reveal_strlit("8");
        reveal_strlit("9");
    }
    let text = if d == 0 {
        "0"
    } else if d == 1 {
        "1"
    } else if d == 2 {
        "2"
    } else if d == 3 {
        "3"
    } else if d == 4 {
        "4"
    } else if d == 5 {
        "5"
    } else if d == 6 {
        "6"
    } else if d == 7 {
        "7"
    } else if d == 8 {
        "8"
    } else {
        "9"
    };
    assert(text@ =~= seq![digit_char(d as nat)]);
    text
}

/// `n` in decimal digits.
pub fn decimal(n: usize) -> (text: String)
    ensures
        text@ == decimal_text(n as nat),
    decreases n,
{
    if n < 10 {
        String::from_str(digit_text(n))
    } else {
        let text = decimal(n / 10).concat(digit_text(n % 10));
        assert(text@ =~= decimal_text((n / 10) as nat).push(digit_char((n % 10) as nat)));
        text
    }
}

} // verus!
