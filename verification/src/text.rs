//! Text as sequences of characters: decimal numerals, white space, splitting.
use vstd::prelude::*;
use vstd::slice::slice_subrange;
use vstd::string::*;

verus! {

/// The decimal digit that stands for `d`.
pub open spec fn digit_char(d: nat) -> char {
    (48 + d) as char
}

/// The shortest decimal numeral of `n`.
pub open spec fn decimal(n: nat) -> Seq<char>
    decreases n,
{
    if n < 10 {
        seq![digit_char(n)]
    } else {
        decimal(n / 10).push(digit_char(n % 10))
    }
}

/// A decimal digit.
pub open spec fn is_digit(c: char) -> bool {
    '0' <= c <= '9'
}

/// The number that a run of decimal digits denotes.
pub open spec fn decimal_value(s: Seq<char>) -> nat
    decreases s.len(),
{
    if s.len() == 0 {
        0
    } else {
        10 * decimal_value(s.drop_last()) + (s.last() as nat - 48) as nat
    }
}

/// A numeral without sign, padding or leading zeros.
pub open spec fn is_numeral(s: Seq<char>) -> bool {
    &&& s.len() > 0
    &&& (s.len() > 1 ==> s[0] != '0')
    &&& forall|i: int| 0 <= i < s.len() ==> is_digit(#[trigger] s[i])
}

/// The 64-bit number that `s` is the numeral of.
pub open spec fn number(s: Seq<char>) -> Option<u64> {
    if is_numeral(s) && decimal_value(s) <= u64::MAX {
        Some(decimal_value(s) as u64)
    } else {
        None
    }
}

/// The characters with the Unicode property `White_Space`.
pub open spec fn is_whitespace(c: char) -> bool {
    ||| 0x9 <= c as u32 <= 0xd
    ||| c as u32 == 0x20
    ||| c as u32 == 0x85
    ||| c as u32 == 0xa0
    ||| c as u32 == 0x1680
    ||| 0x2000 <= c as u32 <= 0x200a
    ||| c as u32 == 0x2028
    ||| c as u32 == 0x2029
    ||| c as u32 == 0x202f
    ||| c as u32 == 0x205f
    ||| c as u32 == 0x3000
}

/// The control characters: the Unicode general category `Cc`.
pub open spec fn is_control(c: char) -> bool {
    c as u32 <= 0x1f || 0x7f <= c as u32 <= 0x9f
}

/// `s` without the white space in front of it.
pub open spec fn trim_start(s: Seq<char>) -> Seq<char>
    decreases s.len(),
{
    if s.len() > 0 && is_whitespace(s[0]) {
        trim_start(s.drop_first())
    } else {
        s
    }
}

/// `s` without the white space behind it.
pub open spec fn trim_end(s: Seq<char>) -> Seq<char>
    decreases s.len(),
{
    if s.len() > 0 && is_whitespace(s.last()) {
        trim_end(s.drop_last())
    } else {
        s
    }
}

/// `s` without the white space around it.
pub open spec fn trim(s: Seq<char>) -> Seq<char> {
    trim_end(trim_start(s))
}

/// `s` without the run of `mark` at its end.
pub open spec fn trim_end_matches(s: Seq<char>, mark: char) -> Seq<char>
    decreases s.len(),
{
    if s.len() > 0 && s.last() == mark {
        trim_end_matches(s.drop_last(), mark)
    } else {
        s
    }
}

/// What stands before and after the first `mark` in `s`.
pub open spec fn split_once(s: Seq<char>, mark: char) -> Option<(Seq<char>, Seq<char>)>
    decreases s.len(),
{
    if s.len() == 0 {
        None
    } else if s[0] == mark {
        Some((Seq::empty(), s.drop_first()))
    } else {
        match split_once(s.drop_first(), mark) {
            Some((before, after)) => Some((seq![s[0]] + before, after)),
            None => None,
        }
    }
}

/// What follows `prefix` in `s`.
pub open spec fn strip_prefix(s: Seq<char>, prefix: Seq<char>) -> Option<Seq<char>> {
    if prefix.is_prefix_of(s) {
        Some(s.skip(prefix.len() as int))
    } else {
        None
    }
}

/// `split_once` finds the first occurrence.
pub proof fn lemma_split_once_at(s: Seq<char>, mark: char, i: int)
    requires
        0 <= i < s.len(),
        s[i] == mark,
        forall|j: int| 0 <= j < i ==> s[j] != mark,
    ensures
        split_once(s, mark) == Some((s.take(i), s.skip(i + 1))),
    decreases s.len(),
{
    if i == 0 {
        assert(s.take(0) =~= Seq::empty());
        assert(s.skip(1) =~= s.drop_first());
    } else {
        lemma_split_once_at(s.drop_first(), mark, i - 1);
        assert(seq![s[0]] + s.drop_first().take(i - 1) =~= s.take(i));
        assert(s.drop_first().skip(i) =~= s.skip(i + 1));
    }
}

/// A text without `mark` is not split.
pub proof fn lemma_split_once_absent(s: Seq<char>, mark: char)
    requires
        !s.contains(mark),
    ensures
        split_once(s, mark) is None,
    decreases s.len(),
{
    if s.len() > 0 {
        assert(s[0] != mark);
        assert forall|c: char| s.drop_first().contains(c) implies s.contains(c) by {
            let i = choose|i: int| 0 <= i < s.drop_first().len() && s.drop_first()[i] == c;
            assert(s[i + 1] == c);
        }
        lemma_split_once_absent(s.drop_first(), mark);
    }
}

/// What `split_once` gives back makes up the whole text again.
pub proof fn lemma_split_once_parts(s: Seq<char>, mark: char)
    ensures
        split_once(s, mark) matches Some((before, after)) ==> s == before.push(mark) + after
            && !before.contains(mark),
    decreases s.len(),
{
    if s.len() > 0 && s[0] != mark {
        lemma_split_once_parts(s.drop_first(), mark);
        if let Some((before, after)) = split_once(s.drop_first(), mark) {
            let tail = before.push(mark) + after;
            assert(s.drop_first() == tail);
            assert(s =~= seq![s[0]] + tail);
            assert(seq![s[0]] + tail =~= (seq![s[0]] + before).push(mark) + after);
            let whole = seq![s[0]] + before;
            if whole.contains(mark) {
                let i = choose|i: int| 0 <= i < whole.len() && whole[i] == mark;
                assert(before[i - 1] == mark);
            }
        }
    } else if s.len() > 0 {
        assert(s =~= Seq::<char>::empty().push(mark) + s.drop_first());
    }
}

/// The numeral of a number is a numeral and denotes that number.
pub proof fn lemma_decimal_denotes(n: nat)
    ensures
        is_numeral(decimal(n)),
        decimal_value(decimal(n)) == n,
        n > 0 ==> decimal(n)[0] != '0',
    decreases n,
{
    reveal_with_fuel(decimal_value, 2);
    if n >= 10 {
        lemma_decimal_denotes(n / 10);
        let front = decimal(n / 10);
        assert(decimal(n).drop_last() =~= front);
        assert(decimal(n)[0] == front[0]);
    } else {
        assert(decimal(n).drop_last() =~= Seq::<char>::empty());
    }
}

/// A numeral is the numeral of the number that it denotes.
pub proof fn lemma_decimal_of_value(s: Seq<char>)
    requires
        is_numeral(s),
    ensures
        decimal(decimal_value(s)) == s,
        s.len() > 1 ==> decimal_value(s) >= 10,
        s[0] != '0' ==> decimal_value(s) > 0,
    decreases s.len(),
{
    reveal_with_fuel(decimal_value, 2);
    let front = s.drop_last();
    let d = (s.last() as nat - 48) as nat;
    assert(is_digit(s.last()));
    if s.len() == 1 {
        assert(front =~= Seq::<char>::empty());
        assert(decimal_value(s) == d);
        assert(digit_char(d) == s[0]);
        assert(decimal(d) =~= s);
    } else {
        assert(is_numeral(front)) by {
            assert forall|i: int| 0 <= i < front.len() implies is_digit(#[trigger] front[i]) by {
                assert(front[i] == s[i]);
            }
        }
        lemma_decimal_of_value(front);
        let v = decimal_value(front);
        assert(decimal_value(s) == 10 * v + d);
        assert((10 * v + d) / 10 == v && (10 * v + d) % 10 == d) by (nonlinear_arith)
            requires
                d < 10,
        ;
        assert(digit_char(d) == s.last());
        assert(decimal(decimal_value(s)) =~= s);
    }
}

/// The characters of `value`, in order.
pub fn chars_of(value: &str) -> (chars: Vec<char>)
    ensures
        chars@ == value@,
{
    let mut chars: Vec<char> = Vec::new();
    for c in iter: value.chars()
        invariant
            iter.seq() == value@,
            chars@ == value@.take(iter.index() as int),
    {
        chars.push(c);
        assert(value@.take(iter.index() as int + 1) =~= value@.take(iter.index() as int).push(c));
    }
    assert(value@.take(value@.len() as int) =~= value@);
    chars
}

/// Whether `c` has the Unicode property `White_Space`.
pub fn char_is_whitespace(c: char) -> (answer: bool)
    ensures
        answer == is_whitespace(c),
{
    let code: u32 = c as u32;
    (0x9 <= code && code <= 0xd) || code == 0x20 || code == 0x85 || code == 0xa0 || code == 0x1680
        || (0x2000 <= code && code <= 0x200a) || code == 0x2028 || code == 0x2029 || code == 0x202f
        || code == 0x205f || code == 0x3000
}

/// Whether `c` is a control character.
pub fn char_is_control(c: char) -> (answer: bool)
    ensures
        answer == is_control(c),
{
    let code: u32 = c as u32;
    code <= 0x1f || (0x7f <= code && code <= 0x9f)
}

/// The part of `value` between the white space around it.
pub fn trim_chars(value: &[char]) -> (kept: &[char])
    ensures
        kept@ == trim(value@),
{
    let mut start: usize = 0;
    assert(value@.skip(0) =~= value@);
    while start < value.len() && char_is_whitespace(value[start])
        invariant
            start <= value@.len(),
            trim_start(value@) == trim_start(value@.skip(start as int)),
        decreases value@.len() - start,
    {
        assert(value@.skip(start as int).drop_first() =~= value@.skip(start + 1));
        start = start + 1;
    }
    let ghost rest = value@.skip(start as int);
    let mut end: usize = value.len();
    assert(rest.take(end - start) =~= rest);
    while end > start && char_is_whitespace(value[end - 1])
        invariant
            start <= end <= value@.len(),
            rest == value@.skip(start as int),
            trim_end(rest) == trim_end(rest.take(end - start)),
        decreases end,
    {
        assert(rest.take(end - start).drop_last() =~= rest.take(end - start - 1));
        assert(rest.take(end - start).last() == value@[end - 1]);
        end = end - 1;
    }
    proof {
        let kept = rest.take(end - start);
        assert(kept =~= value@.subrange(start as int, end as int));
        if end > start {
            assert(kept.last() == value@[end - 1]);
        }
    }
    slice_subrange(value, start, end)
}

/// The two parts of `value` around the first `mark`.
pub fn split_once_chars(value: &[char], mark: char) -> (parts: Option<(&[char], &[char])>)
    ensures
        match parts {
            Some((before, after)) => split_once(value@, mark) == Some((before@, after@)),
            None => split_once(value@, mark) is None,
        },
{
    let mut i: usize = 0;
    while i < value.len()
        invariant
            i <= value@.len(),
            forall|j: int| 0 <= j < i ==> value@[j] != mark,
        decreases value@.len() - i,
    {
        if value[i] == mark {
            proof {
                lemma_split_once_at(value@, mark, i as int);
                assert(value@.take(i as int) =~= value@.subrange(0, i as int));
                assert(value@.skip(i + 1) =~= value@.subrange(i + 1, value@.len() as int));
            }
            return Some((slice_subrange(value, 0, i), slice_subrange(value, i + 1, value.len())));
        }
        i = i + 1;
    }
    proof {
        lemma_split_once_absent(value@, mark);
    }
    None
}

/// Whether `mark` occurs in `value`.
pub fn contains_char(value: &[char], mark: char) -> (answer: bool)
    ensures
        answer == value@.contains(mark),
{
    let mut i: usize = 0;
    while i < value.len()
        invariant
            i <= value@.len(),
            forall|j: int| 0 <= j < i ==> value@[j] != mark,
        decreases value@.len() - i,
    {
        if value[i] == mark {
            return true;
        }
        i = i + 1;
    }
    false
}

/// Whether `value` begins with `prefix`.
pub fn starts_with_chars(value: &[char], prefix: &[char]) -> (answer: bool)
    ensures
        answer == prefix@.is_prefix_of(value@),
{
    if prefix.len() > value.len() {
        return false;
    }
    let mut i: usize = 0;
    while i < prefix.len()
        invariant
            i <= prefix@.len() <= value@.len(),
            forall|j: int| 0 <= j < i ==> prefix@[j] == value@[j],
        decreases prefix@.len() - i,
    {
        if prefix[i] != value[i] {
            assert(prefix@[i as int] != value@.subrange(0, prefix@.len() as int)[i as int]);
            return false;
        }
        i = i + 1;
    }
    assert(prefix@ =~= value@.subrange(0, prefix@.len() as int));
    true
}

/// Whether the two texts are the same.
pub fn same_chars(left: &[char], right: &[char]) -> (answer: bool)
    ensures
        answer == (left@ == right@),
{
    if left.len() != right.len() {
        return false;
    }
    let same: bool = starts_with_chars(right, left);
    assert(right@.subrange(0, left@.len() as int) =~= right@);
    same
}

/// The number that `value` is the numeral of.
pub fn parse_u64(value: &[char]) -> (parsed: Option<u64>)
    ensures
        parsed == number(value@),
{
    if value.len() == 0 || (value.len() > 1 && value[0] == '0') {
        return None;
    }
    let mut total: u64 = 0;
    let mut overflowed: bool = false;
    let mut i: usize = 0;
    while i < value.len()
        invariant
            i <= value@.len(),
            forall|j: int| 0 <= j < i ==> is_digit(#[trigger] value@[j]),
            overflowed ==> decimal_value(value@.take(i as int)) > u64::MAX,
            !overflowed ==> decimal_value(value@.take(i as int)) == total,
        decreases value@.len() - i,
    {
        let c: char = value[i];
        if c < '0' || c > '9' {
            return None;
        }
        let digit: u64 = (c as u32 - 48) as u64;
        assert(value@.take(i + 1).drop_last() =~= value@.take(i as int));
        assert(value@.take(i + 1).last() == c);
        if !overflowed {
            if total > (u64::MAX - digit) / 10 {
                overflowed = true;
            } else {
                total = 10 * total + digit;
            }
        }
        i = i + 1;
    }
    assert(value@.take(i as int) =~= value@);
    if overflowed {
        None
    } else {
        Some(total)
    }
}

/// The text of one decimal digit.
fn digit_text(digit: u64) -> (text: &'static str)
    requires
        digit < 10,
    ensures
        text@ == seq![digit_char(digit as nat)],
{
    proof {
        reveal_strlit("0");
        reveal_strlit("1");
        reveal_strlit("2");
        reveal_strlit("3");
        reveal_strlit("4");
        reveal_strlit("5");
        reveal_strlit("6");
        reveal_strlit("7");
        reveal_strlit("8");
        reveal_strlit("9");
    }
    match digit {
        0 => "0",
        1 => "1",
        2 => "2",
        3 => "3",
        4 => "4",
        5 => "5",
        6 => "6",
        7 => "7",
        8 => "8",
        _ => "9",
    }
}

/// Appends the decimal numeral of `n`.
pub fn push_decimal(text: &mut String, n: u64)
    ensures
        final(text)@ == old(text)@ + decimal(n as nat),
    decreases n,
{
    if n >= 10 {
        push_decimal(text, n / 10);
        text.append(digit_text(n % 10));
        assert(text@ =~= old(text)@ + decimal(n as nat));
    } else {
        text.append(digit_text(n));
    }
}

/// The decimal numeral of `n`.
pub fn decimal_text(n: u64) -> (text: String)
    ensures
        text@ == decimal(n as nat),
{
    let mut text: String = String::new();
    push_decimal(&mut text, n);
    assert(text@ =~= decimal(n as nat));
    text
}

} // verus!
