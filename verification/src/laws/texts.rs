//! Texts taken apart and put together again.

use crate::text::{
    after_last, after_last_follows, after_prefix, before_first_is_first, decimal, digit_value,
    digits_value, first_is_before_first, has_text, lines_of, split_first, stands_at, trimmed,
    trimmed_end, trimmed_start, unsigned, white_space, without_leading, without_trailing, word_len,
    word_len_bounds, word_len_is_run, words,
};
use vstd::prelude::*;

verus! {

/// A text is `a`, the needle and `b`, for some texts around the needle.
pub open spec fn around(hay: Seq<char>, needle: Seq<char>) -> bool {
    exists|a: Seq<char>, b: Seq<char>| hay == #[trigger] (a + needle + b)
}

/// A text contains another exactly where it stands somewhere between two texts.
pub proof fn containing_is_standing_between(hay: Seq<char>, needle: Seq<char>)
    ensures
        has_text(hay, needle) <==> around(hay, needle),
{
    if has_text(hay, needle) {
        let at = choose|at: int| #[trigger] stands_at(hay, needle, at);
        let a = hay.take(at);
        let b = hay.skip(at + needle.len());
        assert(hay =~= a + needle + b) by {
            assert(hay.subrange(at, at + needle.len()) =~= needle);
            assert forall|i: int| at <= i < at + needle.len() implies hay[i] == needle[i - at] by {
                assert(hay.subrange(at, at + needle.len())[i - at] == hay[i]);
            }
        }
    }
    if around(hay, needle) {
        let (a, b) = choose|a: Seq<char>, b: Seq<char>| hay == #[trigger] (a + needle + b);
        let at = a.len() as int;
        assert(hay.subrange(at, at + needle.len()) =~= needle);
        assert(stands_at(hay, needle, at));
    }
}

/// What follows a prefix is what makes the whole text with it.
pub proof fn prefixes_come_off(s: Seq<char>, prefix: Seq<char>, rest: Seq<char>)
    ensures
        after_prefix(prefix + rest, prefix) == Some(rest),
        after_prefix(s, prefix) matches Some(r) ==> s == prefix + r,
        after_prefix(s, prefix) is None ==> s != prefix + rest,
{
    let whole = prefix + rest;
    assert(whole.subrange(0, prefix.len() as int) =~= prefix);
    assert(whole.skip(prefix.len() as int) =~= rest);
    if stands_at(s, prefix, 0) {
        let r = s.skip(prefix.len() as int);
        assert(s =~= prefix + r) by {
            assert forall|i: int| 0 <= i < prefix.len() implies s[i] == prefix[i] by {
                assert(s.subrange(0, prefix.len() as int)[i] == s[i]);
            }
        }
    }
}

/// A text is split at its first `c`, and only there.
pub proof fn splits_are_at_the_first(s: Seq<char>, c: char, a: Seq<char>, b: Seq<char>)
    ensures
        !a.contains(c) ==> split_first(a + seq![c] + b, c) == Some((a, b)),
        split_first(s, c) matches Some((x, y)) ==> s == x + seq![c] + y && !x.contains(c),
        split_first(s, c) is None <==> !s.contains(c),
{
    let whole = a + seq![c] + b;
    let n = a.len() as int;
    if !a.contains(c) {
        assert forall|k: int| 0 <= k < n implies whole[k] != c by {
            assert(whole[k] == a[k]);
            assert(a.contains(a[k]));
        }
        assert(whole[n] == c);
        first_is_before_first(whole, c, n);
        assert(whole.take(n) =~= a);
        assert(whole.skip(n + 1) =~= b);
    }
    before_first_is_first(s, c);
    if let Some((x, y)) = split_first(s, c) {
        assert(s =~= x + seq![c] + y);
        if x.contains(c) {
            let k = choose|k: int| 0 <= k < x.len() && x[k] == c;
            assert(s[k] == c);
        }
    }
}

/// What follows the last `c` holds none, whatever stands before it.
pub proof fn last_parts_follow_the_last(a: Seq<char>, c: char, b: Seq<char>)
    requires
        !b.contains(c),
    ensures
        after_last(a + seq![c] + b, c) == b,
        after_last(b, c) == b,
{
    let whole = a + seq![c] + b;
    let n = a.len() + 1;
    assert forall|k: int| n <= k < whole.len() implies whole[k] != c by {
        assert(whole[k] == b[k - n]);
        assert(b.contains(b[k - n]));
    }
    after_last_follows(whole, c, n as int);
    assert(whole.skip(n as int) =~= b);
}

/// The lines of a text are those that line feeds end, less a carriage return
/// before the line feed, and what stands behind the last line feed, if anything
/// does.
pub proof fn lines_end_at_line_feeds(s: Seq<char>, rest: Seq<char>)
    requires
        !s.contains('\n'),
    ensures
        s.len() > 0 ==> lines_of(s) == seq![s],
        lines_of(Seq::empty()) == Seq::<Seq<char>>::empty(),
        (s.len() == 0 || s.last() != '\r') ==> lines_of(s + seq!['\n'] + rest) == seq![s]
            + lines_of(rest),
        lines_of(s + seq!['\r', '\n'] + rest) == seq![s] + lines_of(rest),
{
    before_first_is_first(s, '\n');
    let plain = s + seq!['\n'] + rest;
    splits_are_at_the_first(s, '\n', s, rest);
    before_first_is_first(plain, '\n');
    assert(split_first(plain, '\n') == Some((s, rest)));
    let t = s.push('\r');
    let returned = s + seq!['\r', '\n'] + rest;
    assert(returned =~= t + seq!['\n'] + rest);
    if t.contains('\n') {
        let k = choose|k: int| 0 <= k < t.len() && t[k] == '\n';
        assert(s[k] == '\n');
    }
    splits_are_at_the_first(t, '\n', t, rest);
    before_first_is_first(returned, '\n');
    assert(split_first(returned, '\n') == Some((t, rest)));
    assert(t.drop_last() =~= s);
}

/// All of a text is white space.
pub open spec fn blank(s: Seq<char>) -> bool {
    forall|i: int| 0 <= i < s.len() ==> white_space(#[trigger] s[i])
}

proof fn start_comes_off(s: Seq<char>) -> (a: Seq<char>)
    ensures
        blank(a),
        s == a + trimmed_start(s),
        trimmed_start(s).len() > 0 ==> !white_space(trimmed_start(s)[0]),
    decreases s.len(),
{
    if s.len() > 0 && white_space(s[0]) {
        let rest = start_comes_off(s.drop_first());
        let a = seq![s[0]] + rest;
        assert(s =~= a + trimmed_start(s)) by {
            assert(s =~= seq![s[0]] + s.drop_first());
        }
        a
    } else {
        let a = Seq::<char>::empty();
        assert(s =~= a + s);
        a
    }
}

proof fn end_comes_off(s: Seq<char>) -> (b: Seq<char>)
    ensures
        blank(b),
        s == trimmed_end(s) + b,
        trimmed_end(s).len() > 0 ==> !white_space(trimmed_end(s).last()),
    decreases s.len(),
{
    if s.len() > 0 && white_space(s.last()) {
        let rest = end_comes_off(s.drop_last());
        let b = rest.push(s.last());
        assert(s =~= trimmed_end(s) + b) by {
            assert(s =~= s.drop_last().push(s.last()));
        }
        b
    } else {
        let b = Seq::<char>::empty();
        assert(s =~= s + b);
        b
    }
}

/// Trimming takes white space off both ends, and leaves none there.
pub proof fn trimming_takes_white_space_off(s: Seq<char>) -> (ends: (Seq<char>, Seq<char>))
    ensures
        blank(ends.0),
        blank(ends.1),
        s == ends.0 + trimmed(s) + ends.1,
        trimmed(s).len() > 0 ==> !white_space(trimmed(s)[0]) && !white_space(trimmed(s).last()),
{
    let a = start_comes_off(s);
    let t = trimmed_start(s);
    let b = end_comes_off(t);
    assert(s =~= a + trimmed(s) + b);
    if trimmed(s).len() > 0 {
        assert(trimmed(s)[0] == t[0]);
    }
    (a, b)
}

/// No character of a text is white space.
pub open spec fn unspaced(s: Seq<char>) -> bool {
    forall|i: int| 0 <= i < s.len() ==> !white_space(#[trigger] s[i])
}

/// Words stand between white space: the words of two texts with white space
/// between them are those of the one and those of the other, and a text without
/// white space is one word.
pub proof fn words_stand_between_white_space(a: Seq<char>, c: char, b: Seq<char>)
    requires
        white_space(c),
    ensures
        words(a + seq![c] + b) == words(a) + words(b),
        unspaced(a) && a.len() > 0 ==> words(a) == seq![a],
        words(Seq::<char>::empty()) == Seq::<Seq<char>>::empty(),
    decreases a.len(),
{
    let whole = a + seq![c] + b;
    if unspaced(a) && a.len() > 0 {
        word_len_is_run(a, a.len() as int);
        assert(a.take(a.len() as int) =~= a);
        assert(a.skip(a.len() as int) =~= Seq::<char>::empty());
        assert(words(Seq::<char>::empty()) =~= Seq::<Seq<char>>::empty());
        assert(words(a) =~= seq![a]);
    }
    if a.len() == 0 {
        assert(whole[0] == c);
        assert(whole.drop_first() =~= b);
        assert(words(whole) =~= words(a) + words(b));
    } else if white_space(a[0]) {
        assert(whole[0] == a[0]);
        assert(whole.drop_first() =~= a.drop_first() + seq![c] + b);
        words_stand_between_white_space(a.drop_first(), c, b);
    } else {
        let n = word_len(a);
        word_len_bounds(a);
        word_len_stops(a);
        assert(whole[0] == a[0]);
        assert forall|k: int| 0 <= k < n implies !white_space(whole[k]) by {
            assert(whole[k] == a[k]);
        }
        if n < a.len() {
            assert(whole[n] == a[n]);
        } else {
            assert(whole[n] == c);
        }
        word_len_is_run(whole, n);
        assert(whole.take(n) =~= a.take(n));
        assert(whole.skip(n) =~= a.skip(n) + seq![c] + b);
        words_stand_between_white_space(a.skip(n), c, b);
        assert(words(whole) =~= words(a) + words(b));
    }
}

proof fn word_len_stops(s: Seq<char>)
    ensures
        0 <= word_len(s) <= s.len(),
        word_len(s) < s.len() ==> white_space(s[word_len(s)]),
        forall|k: int| 0 <= k < word_len(s) ==> !white_space(#[trigger] s[k]),
    decreases s.len(),
{
    if s.len() > 0 && !white_space(s[0]) {
        let rest = s.drop_first();
        word_len_stops(rest);
        assert forall|k: int| 0 <= k < word_len(s) implies !white_space(#[trigger] s[k]) by {
            if k > 0 {
                assert(s[k] == rest[k - 1]);
            }
        }
    }
}

/// Leading and trailing `c`s come off, all of them and nothing else.
pub proof fn repeated_ends_come_off(s: Seq<char>, c: char)
    ensures
        without_leading(seq![c] + s, c) == without_leading(s, c),
        s.len() > 0 && s[0] != c ==> without_leading(s, c) == s,
        without_trailing(s.push(c), c) == without_trailing(s, c),
        s.len() > 0 && s.last() != c ==> without_trailing(s, c) == s,
        without_leading(Seq::<char>::empty(), c) == Seq::<char>::empty(),
        without_trailing(Seq::<char>::empty(), c) == Seq::<char>::empty(),
{
    assert((seq![c] + s).drop_first() =~= s);
    assert(s.push(c).drop_last() =~= s);
}

/// A number in decimal is that of its tenth part and its last digit.
pub proof fn decimals_are_digits(n: nat)
    ensures
        n < 10 ==> decimal(n) == seq![(('0' as u32) + n) as char],
        n >= 10 ==> decimal(n) == decimal(n / 10) + decimal(n % 10),
{
    if n >= 10 {
        assert(decimal(n % 10).len() == 1);
    }
}

proof fn decimals_count(n: nat)
    ensures
        digits_value(decimal(n)) == Some(n),
        decimal(n).len() > 0,
        forall|i: int| 0 <= i < decimal(n).len() ==> '0' <= #[trigger] decimal(n)[i] <= '9',
    decreases n,
{
    if n < 10 {
        let s = decimal(n);
        assert(s.drop_last() =~= Seq::<char>::empty());
        assert(digits_value(Seq::<char>::empty()) == Some(0nat));
        assert(digit_value(s.last()) == Some(n));
    } else {
        decimals_count(n / 10);
        let s = decimal(n);
        assert(s.drop_last() =~= decimal(n / 10));
        assert(digit_value(s.last()) == Some(n % 10));
    }
}

proof fn other_characters_do_not_count(s: Seq<char>, i: int)
    requires
        0 <= i < s.len(),
        !('0' <= s[i] <= '9'),
    ensures
        digits_value(s) is None,
    decreases s.len(),
{
    if i < s.len() - 1 {
        other_characters_do_not_count(s.drop_last(), i);
    }
}

/// A number that is written in decimal is read as that number, with a plus sign
/// before it too. What is empty, is too large or holds any other
/// character is no number.
pub proof fn numbers_are_read_as_written(n: nat, s: Seq<char>, i: int)
    ensures
        n <= u64::MAX ==> unsigned(decimal(n)) == Some(n as u64),
        n > u64::MAX ==> unsigned(decimal(n)) is None,
        s.len() > 0 && s[0] != '+' ==> unsigned(seq!['+'] + s) == unsigned(s),
        0 < i < s.len() && !('0' <= s[i] <= '9') ==> unsigned(s) is None,
        s.len() > 0 && s[0] != '+' && !('0' <= s[0] <= '9') ==> unsigned(s) is None,
        s.len() == 0 ==> unsigned(s) is None && unsigned(seq!['+'] + s) is None,
        unsigned(decimal(0)) == Some(0u64),
{
    decimals_count(n);
    decimals_count(0);
    let d = decimal(n);
    assert('0' <= d[0] <= '9');
    assert('0' <= decimal(0)[0] <= '9');
    let plus = seq!['+'] + s;
    assert(plus.drop_first() =~= s);
    if 0 < i < s.len() && !('0' <= s[i] <= '9') {
        other_characters_do_not_count(s, i);
        other_characters_do_not_count(s.drop_first(), i - 1);
    }
    if s.len() > 0 && s[0] != '+' && !('0' <= s[0] <= '9') {
        other_characters_do_not_count(s, 0);
    }
}

}
