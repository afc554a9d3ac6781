//! Character-level text handling shared by the settings reader and the
//! message builders: Unicode white space, trimming, splitting at a separator
//! and unsigned decimal numbers.
use vstd::prelude::*;

verus! {

/// Whether `c` has the Unicode `White_Space` property, the set of characters
/// that `str::trim` removes at both ends of a string.
pub open spec fn is_white_space(c: char) -> bool {
    let u = c as u32;
    ||| 0x09 <= u <= 0x0d
    ||| u == 0x20
    ||| u == 0x85
    ||| u == 0xa0
    ||| u == 0x1680
    ||| 0x2000 <= u <= 0x200a
    ||| u == 0x2028
    ||| u == 0x2029
    ||| u == 0x202f
    ||| u == 0x205f
    ||| u == 0x3000
}

/// `s` without its leading white space.
pub open spec fn trim_start(s: Seq<char>) -> Seq<char>
    decreases s.len(),
{
    if s.len() > 0 && is_white_space(s[0]) {
        trim_start(s.drop_first())
    } else {
        s
    }
}

/// `s` without its trailing white space.
pub open spec fn trim_end(s: Seq<char>) -> Seq<char>
    decreases s.len(),
{
    if s.len() > 0 && is_white_space(s.last()) {
        trim_end(s.drop_last())
    } else {
        s
    }
}

/// `s` without white space at either end, as `str::trim` gives it.
pub open spec fn trim(s: Seq<char>) -> Seq<char> {
    trim_end(trim_start(s))
}

/// The pieces of `s` between occurrences of `sep`, as `str::split` gives
/// them: one more piece than there are separators, empty pieces included.
pub open spec fn split_on(s: Seq<char>, sep: char) -> Seq<Seq<char>>
    decreases s.len(),
{
    if s.len() == 0 {
        seq![Seq::<char>::empty()]
    } else {
        let prev = split_on(s.drop_last(), sep);
        if s.last() == sep {
            prev.push(Seq::<char>::empty())
        } else {
            prev.update(prev.len() - 1, prev.last().push(s.last()))
        }
    }
}

/// Whether `c` is one of the ASCII digits `0` to `9`.
pub open spec fn is_digit(c: char) -> bool {
    0x30 <= (c as u32) <= 0x39
}

/// The value of the ASCII digit `c`.
pub open spec fn digit_value(c: char) -> nat {
    ((c as u32) - 0x30) as nat
}

/// Whether every character of `s` is an ASCII digit.
pub open spec fn all_digits(s: Seq<char>) -> bool {
    forall|i: int| 0 <= i < s.len() ==> is_digit(#[trigger] s[i])
}

/// The number that the decimal digits `s` write, most significant first.
pub open spec fn decimal_value(s: Seq<char>) -> nat
    decreases s.len(),
{
    if s.len() == 0 {
        0
    } else {
        decimal_value(s.drop_last()) * 10 + digit_value(s.last())
    }
}

/// The digits of an unsigned number in text form: an optional leading `+`
/// is not part of them.
pub open spec fn unsigned_digits(s: Seq<char>) -> Seq<char> {
    if s.len() > 0 && s[0] == '+' {
        s.drop_first()
    } else {
        s
    }
}

/// The value that `usize::from_str` reads from `s`: an optional `+` followed
/// by at least one ASCII digit and nothing else, whose value fits in a
/// `usize`.
pub open spec fn unsigned_text_value(s: Seq<char>) -> Option<usize> {
    let digits = unsigned_digits(s);
    if digits.len() > 0 && all_digits(digits) && decimal_value(digits) <= usize::MAX {
        Some(decimal_value(digits) as usize)
    } else {
        None
    }
}

/// The character of the digit `d`.
pub open spec fn digit_char(d: nat) -> char {
    (d + 0x30) as char
}

/// The shortest decimal text of `n`, as `Display` writes an unsigned number.
pub open spec fn decimal_text(n: nat) -> Seq<char>
    decreases n,
{
    if n < 10 {
        seq![digit_char(n)]
    } else {
        decimal_text(n / 10).push(digit_char(n % 10))
    }
}

/// Whether `c` is white space in the sense of `is_white_space`.
pub fn white_space(c: char) -> (res: bool)
    ensures
        res == is_white_space(c),
{
    let u: u32 = c as u32;
    (0x09 <= u && u <= 0x0d) || u == 0x20 || u == 0x85 || u == 0xa0 || u == 0x1680 || (0x2000
        <= u && u <= 0x200a) || u == 0x2028 || u == 0x2029 || u == 0x202f || u == 0x205f || u
        == 0x3000
}

/// The characters of `s`, in order.
pub fn chars_of(s: &str) -> (res: Vec<char>)
    ensures
        res@ == s@,
{
    let n = s.unicode_len();
    let mut res: Vec<char> = Vec::new();
    let mut i: usize = 0;
    while i < n
        invariant
            n == s@.len(),
            i <= n,
            res@ == s@.take(i as int),
        decreases n - i,
    {
        let c = s.get_char(i);
        res.push(c);
        proof {
            assert(res@ =~= s@.take(i + 1));
        }
        i = i + 1;
    }
    proof {
        assert(res@ =~= s@);
    }
    res
}

/// The bounds, within `lo..hi`, of `chars[lo..hi]` trimmed at both ends.
pub fn trim_range(chars: &Vec<char>, lo: usize, hi: usize) -> (r: (usize, usize))
    requires
        lo <= hi <= chars.len(),
    ensures
        lo <= r.0 <= r.1 <= hi,
        chars@.subrange(r.0 as int, r.1 as int) == trim(chars@.subrange(lo as int, hi as int)),
{
    let mut a = lo;
    while a < hi && white_space(chars[a])
        invariant
            lo <= a <= hi <= chars.len(),
            trim_start(chars@.subrange(lo as int, hi as int)) == trim_start(
                chars@.subrange(a as int, hi as int),
            ),
        decreases hi - a,
    {
        proof {
            assert(chars@.subrange(a as int, hi as int).drop_first() =~= chars@.subrange(
                a + 1,
                hi as int,
            ));
        }
        a = a + 1;
    }
    let mut b = hi;
    while b > a && white_space(chars[b - 1])
        invariant
            lo <= a <= b <= hi <= chars.len(),
            trim_start(chars@.subrange(lo as int, hi as int)) == chars@.subrange(
                a as int,
                hi as int,
            ),
            trim_end(chars@.subrange(a as int, hi as int)) == trim_end(
                chars@.subrange(a as int, b as int),
            ),
            a < b ==> !is_white_space(chars@[a as int]),
        decreases b - a,
    {
        proof {
            assert(chars@.subrange(a as int, b as int).drop_last() =~= chars@.subrange(
                a as int,
                b - 1,
            ));
        }
        b = b - 1;
    }
    (a, b)
}

/// The bounds of the pieces of `chars[lo..hi]` between occurrences of `sep`.
pub fn split_ranges(chars: &Vec<char>, lo: usize, hi: usize, sep: char) -> (r: Vec<(usize, usize)>)
    requires
        lo <= hi <= chars.len(),
    ensures
        r.len() == split_on(chars@.subrange(lo as int, hi as int), sep).len(),
        forall|k: int|
            #![trigger r@[k]]
            0 <= k < r.len() ==> lo <= r@[k].0 <= r@[k].1 <= hi && chars@.subrange(
                r@[k].0 as int,
                r@[k].1 as int,
            ) == split_on(chars@.subrange(lo as int, hi as int), sep)[k],
{
    let mut r: Vec<(usize, usize)> = Vec::new();
    let mut start = lo;
    let mut i = lo;
    proof {
        assert(chars@.subrange(lo as int, lo as int) =~= Seq::<char>::empty());
    }
    while i < hi
        invariant
            lo <= start <= i <= hi <= chars.len(),
            r.len() + 1 == split_on(chars@.subrange(lo as int, i as int), sep).len(),
            forall|k: int|
                #![trigger r@[k]]
                0 <= k < r.len() ==> lo <= r@[k].0 <= r@[k].1 <= i && chars@.subrange(
                    r@[k].0 as int,
                    r@[k].1 as int,
                ) == split_on(chars@.subrange(lo as int, i as int), sep)[k],
            chars@.subrange(start as int, i as int) == split_on(
                chars@.subrange(lo as int, i as int),
                sep,
            ).last(),
        decreases hi - i,
    {
        let c = chars[i];
        proof {
            assert(chars@.subrange(lo as int, i + 1).drop_last() =~= chars@.subrange(
                lo as int,
                i as int,
            ));
            assert(chars@.subrange(lo as int, i + 1).last() == c);
        }
        if c == sep {
            r.push((start, i));
            start = i + 1;
            proof {
                assert(chars@.subrange(start as int, i + 1) =~= Seq::<char>::empty());
            }
        } else {
            proof {
                assert(chars@.subrange(start as int, i + 1) =~= chars@.subrange(
                    start as int,
                    i as int,
                ).push(c));
            }
        }
        i = i + 1;
    }
    r.push((start, hi));
    r
}

/// Whether `chars[lo..hi]` holds exactly the characters of `s`.
pub fn range_equals(chars: &Vec<char>, lo: usize, hi: usize, s: &str) -> (res: bool)
    requires
        lo <= hi <= chars.len(),
    ensures
        res == (chars@.subrange(lo as int, hi as int) == s@),
{
    let n = s.unicode_len();
    if hi - lo != n {
        proof {
            assert(chars@.subrange(lo as int, hi as int).len() != s@.len());
        }
        return false;
    }
    let mut i: usize = 0;
    while i < n
        invariant
            n == s@.len(),
            hi - lo == n,
            lo <= hi <= chars.len(),
            i <= n,
            forall|j: int| 0 <= j < i ==> chars@[lo + j] == s@[j],
        decreases n - i,
    {
        if chars[lo + i] != s.get_char(i) {
            proof {
                assert(chars@.subrange(lo as int, hi as int)[i as int] != s@[i as int]);
            }
            return false;
        }
        i = i + 1;
    }
    proof {
        assert(chars@.subrange(lo as int, hi as int) =~= s@);
    }
    true
}

/// The text of the characters `lo..hi` of `s`.
pub fn range_text(s: &str, lo: usize, hi: usize) -> (res: String)
    requires
        lo <= hi <= s@.len(),
    ensures
        res@ == s@.subrange(lo as int, hi as int),
{
    String::from_str(s.substring_char(lo, hi))
}

/// A text without the separator is a single piece.
pub proof fn lemma_split_without_separator(s: Seq<char>, sep: char)
    requires
        !s.contains(sep),
    ensures
        split_on(s, sep) == seq![s],
    decreases s.len(),
{
    if s.len() > 0 {
        assert(!s.drop_last().contains(sep)) by {
            if s.drop_last().contains(sep) {
                let k = choose|k: int| 0 <= k < s.drop_last().len() && s.drop_last()[k] == sep;
                assert(s[k] == sep);
            }
        }
        lemma_split_without_separator(s.drop_last(), sep);
        assert(s.last() != sep) by {
            assert(s[s.len() - 1] == s.last());
        }
        assert(s.drop_last().push(s.last()) =~= s);
        assert(split_on(s, sep) =~= seq![s]);
    } else {
        assert(s =~= Seq::<char>::empty());
    }
}

/// A first piece `first` (without the separator) followed by the separator
/// and `rest` splits into `first` and the pieces of `rest`.
pub proof fn lemma_split_after_first_piece(first: Seq<char>, sep: char, rest: Seq<char>)
    requires
        !first.contains(sep),
    ensures
        split_on(first + seq![sep] + rest, sep) == seq![first] + split_on(rest, sep),
    decreases rest.len(),
{
    let whole = first + seq![sep] + rest;
    if rest.len() == 0 {
        assert(whole.drop_last() =~= first);
        assert(whole.last() == sep);
        lemma_split_without_separator(first, sep);
        assert(split_on(rest, sep) =~= seq![Seq::<char>::empty()]);
        assert(split_on(whole, sep) =~= seq![first] + split_on(rest, sep));
    } else {
        lemma_split_after_first_piece(first, sep, rest.drop_last());
        assert(whole.drop_last() =~= first + seq![sep] + rest.drop_last());
        assert(whole.last() == rest.last());
        let prev = split_on(rest.drop_last(), sep);
        assert(prev.len() >= 1) by {
            lemma_split_nonempty(rest.drop_last(), sep);
        }
        if rest.last() == sep {
            assert(split_on(whole, sep) =~= seq![first] + split_on(rest, sep));
        } else {
            assert(split_on(whole, sep) =~= seq![first] + split_on(rest, sep));
        }
    }
}

/// Every text has at least one piece.
pub proof fn lemma_split_nonempty(s: Seq<char>, sep: char)
    ensures
        split_on(s, sep).len() >= 1,
    decreases s.len(),
{
    if s.len() > 0 {
        lemma_split_nonempty(s.drop_last(), sep);
    }
}

/// Values of longer digit strings are at least those of their prefixes.
proof fn lemma_decimal_prefix(s: Seq<char>, k: int)
    requires
        0 <= k <= s.len(),
        all_digits(s),
    ensures
        decimal_value(s.take(k)) <= decimal_value(s),
    decreases s.len(),
{
    if k < s.len() {
        assert(s.drop_last().take(k) =~= s.take(k));
        assert(all_digits(s.drop_last()));
        lemma_decimal_prefix(s.drop_last(), k);
        let v = decimal_value(s.drop_last());
        assert(v <= v * 10 + digit_value(s.last())) by (nonlinear_arith);
    } else {
        assert(s.take(k) =~= s);
    }
}

/// The value of the text `text` as `usize::from_str` reads it: an optional
/// `+` and then one or more ASCII digits whose value fits in a `usize`.
pub fn parse_unsigned(text: &str) -> (res: Option<usize>)
    ensures
        res == unsigned_text_value(text@),
{
    let chars = chars_of(text);
    let n = chars.len();
    let start: usize = if n > 0 && chars[0] == '+' {
        1
    } else {
        0
    };
    let ghost digits = unsigned_digits(text@);
    proof {
        assert(digits =~= chars@.subrange(start as int, n as int));
    }
    if start == n {
        return None;
    }
    let mut value: usize = 0;
    let mut i = start;
    while i < n
        invariant
            chars@ == text@,
            n == chars.len(),
            start <= i <= n,
            digits == chars@.subrange(start as int, n as int),
            digits == unsigned_digits(text@),
            all_digits(digits.take(i - start)),
            value == decimal_value(digits.take(i - start)),
        decreases n - i,
    {
        let c = chars[i];
        let code: u32 = c as u32;
        if code < 0x30 || code > 0x39 {
            proof {
                assert(digits[i - start] == c);
                assert(!is_digit(digits[i - start]));
            }
            return None;
        }
        let d: usize = (code - 0x30) as usize;
        proof {
            assert(digits.take(i - start + 1).drop_last() =~= digits.take(i - start));
            assert(digits.take(i - start + 1).last() == c);
            assert(all_digits(digits.take(i - start + 1)));
            assert(digit_value(c) == d);
            assert(decimal_value(digits.take(i - start + 1)) == value * 10 + d);
        }
        match value.checked_mul(10) {
            Some(m) => match m.checked_add(d) {
                Some(v) => {
                    value = v;
                },
                None => {
                    proof {
                        if all_digits(digits) {
                            lemma_decimal_prefix(digits, i - start + 1);
                        }
                    }
                    return None;
                },
            },
            None => {
                proof {
                    if all_digits(digits) {
                        lemma_decimal_prefix(digits, i - start + 1);
                    }
                }
                return None;
            },
        }
        i = i + 1;
    }
    proof {
        assert(digits.take(n - start) =~= digits);
    }
    Some(value)
}

/// The one-character text of the digit `d`.
fn digit_str(d: usize) -> (res: &'static str)
    requires
        d < 10,
    ensures
        res@ == seq![digit_char(d as nat)],
{
    proof {
        reveal_strlit("0");
        reveal_strlit("1");
        reveal_strlit("2");
        reveal_strlit("3");
        reveal_strlit("4");
        reveal_strlit("5");
        reveal_strlit("6");
        reveal_strlit("7");
        reveal_strlit("8");
        reveal_strlit("9");
    }
    let res = if d == 0 {
        "0"
    } else if d == 1 {
        "1"
    } else if d == 2 {
        "2"
    } else if d == 3 {
        "3"
    } else if d == 4 {
        "4"
    } else if d == 5 {
        "5"
    } else if d == 6 {
        "6"
    } else if d == 7 {
        "7"
    } else if d == 8 {
        "8"
    } else {
        "9"
    };
    proof {
        assert(res@ =~= seq![digit_char(d as nat)]);
    }
    res
}

/// The decimal text of `n`, as `Display` writes it.
pub fn decimal_string(n: usize) -> (res: String)
    ensures
        res@ == decimal_text(n as nat),
    decreases n,
{
    if n < 10 {
        String::from_str(digit_str(n))
    } else {
        let mut res = decimal_string(n / 10);
        res.append(digit_str(n % 10));
        res
    }
}

} // verus!
