//! Text: where a character stands, whether one text holds another, and how an
//! integer is written.

use vstd::prelude::*;
use vstd::string::{StrSliceExecFns, StringExecFns};

verus! {

/// Whether `c` occurs in `s`.
pub open spec fn has_char(s: Seq<char>, c: char) -> bool {
    exists|i: int| 0 <= i < s.len() && s[i] == c
}

/// The first place of `c` in `s`, where it occurs.
pub open spec fn first_index(s: Seq<char>, c: char) -> int {
    choose|i: int| 0 <= i < s.len() && s[i] == c && forall|j: int| 0 <= j < i ==> s[j] != c
}

/// What stands before the first `c` of `s`.
pub open spec fn before_first(s: Seq<char>, c: char) -> Seq<char> {
    s.subrange(0, first_index(s, c))
}

/// What stands behind the first `c` of `s`.
pub open spec fn behind_first(s: Seq<char>, c: char) -> Seq<char> {
    s.subrange(first_index(s, c) + 1, s.len() as int)
}

/// What stands before and behind the first `c` of `s`.
pub open spec fn split_once(s: Seq<char>, c: char) -> Option<(Seq<char>, Seq<char>)> {
    if has_char(s, c) {
        Some((before_first(s, c), behind_first(s, c)))
    } else {
        None
    }
}

/// Whether `needle` stands somewhere in `hay`, character for character.
pub open spec fn is_substring(needle: Seq<char>, hay: Seq<char>) -> bool {
    exists|i: int|
        0 <= i && i + needle.len() <= hay.len() && #[trigger] hay.subrange(
            i,
            i + needle.len(),
        ) == needle
}

/// The character of a digit below ten.
pub open spec fn digit_char(d: int) -> char {
    if d == 0 {
        '0'
    } else if d == 1 {
        '1'
    } else if d == 2 {
        '2'
    } else if d == 3 {
        '3'
    } else if d == 4 {
        '4'
    } else if d == 5 {
        '5'
    } else if d == 6 {
        '6'
    } else if d == 7 {
        '7'
    } else if d == 8 {
        '8'
    } else {
        '9'
    }
}

/// A natural number in decimal digits, without leading zeros.
pub open spec fn decimal_digits(n: nat) -> Seq<char>
    decreases n,
{
    if n < 10 {
        seq![digit_char(n as int)]
    } else {
        decimal_digits(n / 10).push(digit_char((n % 10) as int))
    }
}

/// An integer in decimal digits, with `-` before a negative one.
pub open spec fn decimal(v: int) -> Seq<char> {
    if v < 0 {
        seq!['-'] + decimal_digits((-v) as nat)
    } else {
        decimal_digits(v as nat)
    }
}

/// The texts of `parts` in a row, with `sep` between each two.
pub open spec fn joined(parts: Seq<Seq<char>>, sep: Seq<char>) -> Seq<char>
    decreases parts.len(),
{
    if parts.len() == 0 {
        Seq::empty()
    } else if parts.len() == 1 {
        parts[0]
    } else {
        joined(parts.drop_last(), sep) + sep + parts.last()
    }
}

/// The first of the places of `c` that are not behind `k`.
proof fn lemma_least_index(s: Seq<char>, c: char, k: int) -> (m: int)
    requires
        0 <= k < s.len(),
        s[k] == c,
    ensures
        0 <= m <= k,
        s[m] == c,
        forall|j: int| 0 <= j < m ==> s[j] != c,
    decreases k,
{
    if exists|j: int| 0 <= j < k && s[j] == c {
        let j = choose|j: int| 0 <= j < k && s[j] == c;
        lemma_least_index(s, c, j)
    } else {
        k
    }
}

/// A character that occurs in a text has a first place there.
pub proof fn lemma_first_index(s: Seq<char>, c: char)
    requires
        has_char(s, c),
    ensures
        0 <= first_index(s, c) < s.len(),
        s[first_index(s, c)] == c,
        forall|j: int| 0 <= j < first_index(s, c) ==> s[j] != c,
{
    let k = choose|i: int| 0 <= i < s.len() && s[i] == c;
    let m = lemma_least_index(s, c, k);
    assert(0 <= m < s.len() && s[m] == c && forall|j: int| 0 <= j < m ==> s[j] != c);
}

/// The two parts of a text that was split at a character give the text
/// back, with the character between them.
pub proof fn lemma_split_once_joins(s: Seq<char>, c: char)
    requires
        has_char(s, c),
    ensures
        s == before_first(s, c) + seq![c] + behind_first(s, c),
{
    lemma_first_index(s, c);
    let i = first_index(s, c);
    assert(s =~= s.subrange(0, i) + seq![c] + s.subrange(i + 1, s.len() as int));
}

/// A text put together from a part without `c`, then `c`, then a rest,
/// splits at `c` into that part and that rest.
pub proof fn lemma_split_joined(head: Seq<char>, c: char, tail: Seq<char>)
    requires
        !has_char(head, c),
    ensures
        has_char(head + seq![c] + tail, c),
        before_first(head + seq![c] + tail, c) == head,
        behind_first(head + seq![c] + tail, c) == tail,
{
    let s = head + seq![c] + tail;
    assert(s[head.len() as int] == c);
    assert forall|j: int| 0 <= j < head.len() implies s[j] != c by {
        assert(s[j] == head[j]);
    }
    lemma_first_index_is(s, c, head.len() as int);
    assert(s.subrange(0, head.len() as int) =~= head);
    assert(s.subrange(head.len() as int + 1, s.len() as int) =~= tail);
}

/// What stands before the first `c` of a text holds no `c`.
pub proof fn lemma_before_first_lacks(s: Seq<char>, c: char)
    requires
        has_char(s, c),
    ensures
        !has_char(before_first(s, c), c),
{
    lemma_first_index(s, c);
    let head = before_first(s, c);
    assert forall|j: int| 0 <= j < head.len() implies head[j] != c by {
        assert(head[j] == s[j]);
    }
}

/// A text that stands in another stands in it still when the other is
/// lengthened at either end.
pub proof fn lemma_substring_within(
    needle: Seq<char>,
    before: Seq<char>,
    hay: Seq<char>,
    after: Seq<char>,
)
    requires
        is_substring(needle, hay),
    ensures
        is_substring(needle, before + hay + after),
{
    let i = choose|i: int|
        0 <= i && i + needle.len() <= hay.len() && #[trigger] hay.subrange(i, i + needle.len())
            == needle;
    let whole = before + hay + after;
    let k = before.len() + i;
    assert(whole.subrange(k, k + needle.len()) =~= needle);
}

/// Every text stands in itself.
pub proof fn lemma_substring_self(s: Seq<char>)
    ensures
        is_substring(s, s),
{
    assert(s.subrange(0int, 0int + s.len()) =~= s);
}

/// Each of the parts that were joined stands in the whole.
pub proof fn lemma_joined_holds(parts: Seq<Seq<char>>, sep: Seq<char>, i: int)
    requires
        0 <= i < parts.len(),
    ensures
        is_substring(parts[i], joined(parts, sep)),
    decreases parts.len(),
{
    if parts.len() == 1 {
        lemma_substring_self(parts[0]);
    } else {
        let front = parts.drop_last();
        let head = joined(front, sep);
        if i == parts.len() - 1 {
            lemma_substring_self(parts.last());
            lemma_substring_within(parts.last(), head + sep, parts.last(), Seq::empty());
            assert(head + sep + parts.last() + Seq::<char>::empty() =~= head + sep + parts.last());
        } else {
            assert(front[i] == parts[i]);
            lemma_joined_holds(front, sep, i);
            lemma_substring_within(parts[i], Seq::empty(), head, sep + parts.last());
            assert(Seq::<char>::empty() + head + (sep + parts.last()) =~= head + sep
                + parts.last());
        }
    }
}

/// The place of the first `c` in `s`.
pub fn find_char(s: &str, c: char) -> (r: Option<usize>)
    ensures
        match r {
            Some(i) => has_char(s@, c) && i == first_index(s@, c) && i < s@.len(),
            None => !has_char(s@, c),
        },
{
    let len = s.unicode_len();
    let mut i: usize = 0;
    while i < len
        invariant
            i <= len,
            len == s@.len(),
            forall|j: int| 0 <= j < i ==> s@[j] != c,
        decreases len - i,
    {
        if s.get_char(i) == c {
            proof {
                let k = first_index(s@, c);
                assert(0 <= i < s@.len() && s@[i as int] == c && forall|j: int|
                    0 <= j < i ==> s@[j] != c);
                if k < i {
                    assert(s@[k] != c);
                }
                if i < k {
                    assert(s@[i as int] != c);
                }
            }
            return Some(i);
        }
        i += 1;
    }
    None
}

/// What stands before and behind the first `c` of `s`.
pub fn split_at_first(s: &str, c: char) -> (r: Option<(String, String)>)
    ensures
        match r {
            Some((head, tail)) => split_once(s@, c) == Some((head@, tail@)),
            None => split_once(s@, c) is None,
        },
{
    match find_char(s, c) {
        Some(i) => {
            let len = s.unicode_len();
            let head = String::from_str(s.substring_char(0, i));
            let tail = String::from_str(s.substring_char(i + 1, len));
            Some((head, tail))
        },
        None => None,
    }
}

/// Whether `needle` stands in `hay` at the place `at`.
fn matches_at(hay: &str, needle: &str, at: usize, hay_len: usize, needle_len: usize) -> (r: bool)
    requires
        hay_len == hay@.len(),
        needle_len == needle@.len(),
        at + needle_len <= hay_len,
    ensures
        r == (hay@.subrange(at as int, at + needle_len) == needle@),
{
    let mut k: usize = 0;
    while k < needle_len
        invariant
            k <= needle_len,
            hay_len == hay@.len(),
            needle_len == needle@.len(),
            at + needle_len <= hay_len,
            forall|j: int| 0 <= j < k ==> hay@[at + j] == needle@[j],
        decreases needle_len - k,
    {
        if hay.get_char(at + k) != needle.get_char(k) {
            assert(hay@.subrange(at as int, at + needle_len)[k as int] != needle@[k as int]);
            return false;
        }
        k += 1;
    }
    assert(hay@.subrange(at as int, at + needle_len) =~= needle@);
    true
}

/// Whether `needle` stands somewhere in `hay`.
pub fn contains_text(hay: &str, needle: &str) -> (r: bool)
    ensures
        r == is_substring(needle@, hay@),
{
    let hay_len = hay.unicode_len();
    let needle_len = needle.unicode_len();
    if needle_len > hay_len {
        return false;
    }
    if needle_len == 0 {
        assert(hay@.subrange(0int, 0int + needle@.len()) =~= needle@);
        return true;
    }
    let last = hay_len - needle_len;
    let mut i: usize = 0;
    while i <= last
        invariant
            i <= last + 1,
            hay_len == hay@.len(),
            needle_len == needle@.len(),
            last == hay_len - needle_len,
            needle_len > 0,
            forall|j: int| 0 <= j < i ==> #[trigger] hay@.subrange(j, j + needle_len) != needle@,
        decreases last + 1 - i,
    {
        if matches_at(hay, needle, i, hay_len, needle_len) {
            return true;
        }
        i += 1;
    }
    false
}

/// The literal of a digit below ten.
fn digit_text(d: u128) -> (r: &'static str)
    requires
        d < 10,
    ensures
        r@ == seq![digit_char(d as int)],
{
    proof {
        reveal_strlit("0");
        reveal_strlit("1");
        reveal_strlit("2");
        reveal_strlit("3");
        reveal_strlit("4");
        reveal_strlit("5");
        reveal_strlit("6");
        reveal_strlit("7");
        reveal_strlit("8");
        reveal_strlit("9");
    }
    let r = if d == 0 {
        "0"
    } else if d == 1 {
        "1"
    } else if d == 2 {
        "2"
    } else if d == 3 {
        "3"
    } else if d == 4 {
        "4"
    } else if d == 5 {
        "5"
    } else if d == 6 {
        "6"
    } else if d == 7 {
        "7"
    } else if d == 8 {
        "8"
    } else {
        "9"
    };
    assert(r@ =~= seq![digit_char(d as int)]);
    r
}

/// A natural number in decimal digits.
pub fn natural_text(n: u128) -> (r: String)
    ensures
        r@ == decimal_digits(n as nat),
{
    let mut text = String::from_str(digit_text(n % 10));
    let mut rest: u128 = n / 10;
    proof {
        if n < 10 {
            assert(text@ =~= decimal_digits(n as nat));
        } else {
            assert(decimal_digits(n as nat) =~= decimal_digits(rest as nat) + text@);
        }
    }
    while rest > 0
        invariant
            decimal_digits(n as nat) == if rest > 0 {
                decimal_digits(rest as nat) + text@
            } else {
                text@
            },
        decreases rest,
    {
        let digit = String::from_str(digit_text(rest % 10));
        let ghost before = text@;
        let ghost old_rest = rest;
        text = digit.concat(text.as_str());
        rest = rest / 10;
        proof {
            if old_rest < 10 {
                assert(decimal_digits(old_rest as nat) + before =~= text@);
            } else {
                assert(decimal_digits(old_rest as nat) + before =~= decimal_digits(rest as nat)
                    + text@);
            }
        }
    }
    text
}

/// An integer in decimal digits.
pub fn integer_text(v: i64) -> (r: String)
    ensures
        r@ == decimal(v as int),
{
    if v < 0 {
        let magnitude: u128 = ((-(v + 1)) as u128) + 1;
        let digits = natural_text(magnitude);
        proof {
            reveal_strlit("-");
            assert("-"@ =~= seq!['-']);
        }
        String::from_str("-").concat(digits.as_str())
    } else {
        natural_text(v as u128)
    }
}

/// What each of `texts` holds.
pub open spec fn texts_of(texts: Seq<String>) -> Seq<Seq<char>> {
    texts.map_values(|text: String| text@)
}

/// The texts of `parts` in a row, with `sep` between each two.
pub fn join_texts(parts: &Vec<String>, sep: &str) -> (r: String)
    ensures
        r@ == joined(texts_of(parts@), sep@),
{
    let ghost all = texts_of(parts@);
    if parts.len() == 0 {
        return String::new();
    }
    let mut text = parts[0].clone();
    assert(all.take(1) =~= seq![parts@[0]@]);
    let mut i: usize = 1;
    while i < parts.len()
        invariant
            1 <= i <= parts.len(),
            all == texts_of(parts@),
            text@ == joined(all.take(i as int), sep@),
        decreases parts.len() - i,
    {
        proof {
            assert(all.take(i + 1).drop_last() =~= all.take(i as int));
            assert(all.take(i + 1).last() == parts@[i as int]@);
        }
        text.append(sep);
        text.append(parts[i].as_str());
        i += 1;
    }
    assert(all.take(parts@.len() as int) =~= all);
    text
}

/// A copy of `texts`.
pub fn copy_texts(texts: &Vec<String>) -> (r: Vec<String>)
    ensures
        texts_of(r@) == texts_of(texts@),
{
    let mut out: Vec<String> = Vec::new();
    let mut i: usize = 0;
    while i < texts.len()
        invariant
            i <= texts.len(),
            out@.len() == i,
            forall|k: int| 0 <= k < i ==> (#[trigger] out@[k])@ == texts@[k]@,
        decreases texts.len() - i,
    {
        out.push(texts[i].clone());
        i += 1;
    }
    assert(texts_of(out@) =~= texts_of(texts@));
    out
}

/// A character that is the first of its kind in a text is at the text's
/// first place of that kind.
pub proof fn lemma_first_index_is(s: Seq<char>, c: char, i: int)
    requires
        0 <= i < s.len(),
        s[i] == c,
        forall|j: int| 0 <= j < i ==> s[j] != c,
    ensures
        has_char(s, c),
        first_index(s, c) == i,
{
    lemma_first_index(s, c);
    let k = first_index(s, c);
    if k < i {
        assert(s[k] != c);
    }
    if i < k {
        assert(s[i] != c);
    }
}

/// White space as Unicode knows it.
pub open spec fn is_space(c: char) -> bool {
    let code = c as u32;
    (0x09 <= code <= 0x0d) || code == 0x20 || code == 0x85 || code == 0xa0 || code == 0x1680 || (
    0x2000 <= code <= 0x200a) || code == 0x2028 || code == 0x2029 || code == 0x202f || code
        == 0x205f || code == 0x3000
}

/// White space as ASCII knows it: space, tab, line feed, form feed and
/// carriage return.
pub open spec fn is_ascii_space(c: char) -> bool {
    let code = c as u32;
    code == 0x20 || code == 0x09 || code == 0x0a || code == 0x0c || code == 0x0d
}

/// `s` without the white space at its ends.
pub open spec fn trimmed(s: Seq<char>) -> Seq<char>
    decreases s.len(),
{
    if s.len() > 0 && is_space(s[0]) {
        trimmed(s.drop_first())
    } else if s.len() > 0 && is_space(s.last()) {
        trimmed(s.drop_last())
    } else {
        s
    }
}

/// What stands in `s` before its first ASCII white space.
pub open spec fn first_run(s: Seq<char>) -> Seq<char>
    decreases s.len(),
{
    if s.len() == 0 || is_ascii_space(s[0]) {
        Seq::empty()
    } else {
        seq![s[0]] + first_run(s.drop_first())
    }
}

/// The first word of a line: what stands, once the white space at the line's
/// ends is gone, before the first ASCII white space. Empty for a line of
/// white space.
pub open spec fn first_word(line: Seq<char>) -> Seq<char> {
    first_run(trimmed(line))
}

/// Between white space at both ends stands what is left when the ends are
/// trimmed.
pub proof fn lemma_trimmed(s: Seq<char>, a: int, b: int)
    requires
        0 <= a <= b <= s.len(),
        forall|j: int| 0 <= j < a ==> is_space(s[j]),
        forall|j: int| b <= j < s.len() ==> is_space(s[j]),
        a == b || (!is_space(s[a]) && !is_space(s[b - 1])),
    ensures
        trimmed(s) == s.subrange(a, b),
    decreases s.len(),
{
    if s.len() > 0 && is_space(s[0]) {
        let rest = s.drop_first();
        if a == 0 {
            assert(b == 0);
            assert forall|j: int| 0 <= j < rest.len() implies is_space(rest[j]) by {
                assert(rest[j] == s[j + 1]);
            }
            lemma_trimmed(rest, 0, 0);
            assert(rest.subrange(0, 0) =~= s.subrange(0, 0));
        } else {
            assert forall|j: int| 0 <= j < a - 1 implies is_space(rest[j]) by {
                assert(rest[j] == s[j + 1]);
            }
            assert forall|j: int| b - 1 <= j < rest.len() implies is_space(rest[j]) by {
                assert(rest[j] == s[j + 1]);
            }
            if a != b {
                assert(rest[a - 1] == s[a]);
                assert(rest[b - 2] == s[b - 1]);
            }
            lemma_trimmed(rest, a - 1, b - 1);
            assert(rest.subrange(a - 1, b - 1) =~= s.subrange(a, b));
        }
    } else if s.len() > 0 && is_space(s.last()) {
        let rest = s.drop_last();
        assert(a == 0);
        assert(b < s.len());
        assert forall|j: int| b <= j < rest.len() implies is_space(rest[j]) by {
            assert(rest[j] == s[j]);
        }
        if a != b {
            assert(rest[a] == s[a]);
            assert(rest[b - 1] == s[b - 1]);
        }
        lemma_trimmed(rest, a, b);
        assert(rest.subrange(a, b) =~= s.subrange(a, b));
    } else {
        if s.len() > 0 {
            assert(a == 0);
            assert(b == s.len());
        }
        assert(s.subrange(a, b) =~= s);
    }
}

/// What stands before the first ASCII white space of a text.
pub proof fn lemma_first_run(s: Seq<char>, k: int)
    requires
        0 <= k <= s.len(),
        forall|j: int| 0 <= j < k ==> !is_ascii_space(s[j]),
        k == s.len() || is_ascii_space(s[k]),
    ensures
        first_run(s) == s.subrange(0, k),
    decreases s.len(),
{
    if s.len() == 0 || is_ascii_space(s[0]) {
        assert(k == 0);
        assert(s.subrange(0, 0) =~= Seq::<char>::empty());
    } else {
        let rest = s.drop_first();
        assert forall|j: int| 0 <= j < k - 1 implies !is_ascii_space(rest[j]) by {
            assert(rest[j] == s[j + 1]);
        }
        if k != s.len() {
            assert(rest[k - 1] == s[k]);
        }
        lemma_first_run(rest, k - 1);
        assert(seq![s[0]] + rest.subrange(0, k - 1) =~= s.subrange(0, k));
    }
}

/// Whether a character is white space as Unicode knows it.
pub fn char_is_space(c: char) -> (r: bool)
    ensures
        r == is_space(c),
{
    let code = c as u32;
    (0x09 <= code && code <= 0x0d) || code == 0x20 || code == 0x85 || code == 0xa0 || code
        == 0x1680 || (0x2000 <= code && code <= 0x200a) || code == 0x2028 || code == 0x2029
        || code == 0x202f || code == 0x205f || code == 0x3000
}

/// Whether a character is white space as ASCII knows it.
pub fn char_is_ascii_space(c: char) -> (r: bool)
    ensures
        r == is_ascii_space(c),
{
    let code = c as u32;
    code == 0x20 || code == 0x09 || code == 0x0a || code == 0x0c || code == 0x0d
}

/// The characters of a text.
pub fn chars_of(text: &str) -> (r: Vec<char>)
    ensures
        r@ == text@,
{
    let len = text.unicode_len();
    let mut out: Vec<char> = Vec::new();
    let mut i: usize = 0;
    while i < len
        invariant
            i <= len,
            len == text@.len(),
            out@ == text@.subrange(0, i as int),
        decreases len - i,
    {
        out.push(text.get_char(i));
        assert(out@ =~= text@.subrange(0, i + 1));
        i += 1;
    }
    assert(text@.subrange(0, len as int) =~= text@);
    out
}

/// Where the first word of the line from `from` up to `to` stands: the word
/// is what stands from the first to the second place given.
pub fn first_word_bounds(chars: &Vec<char>, from: usize, to: usize) -> (r: (usize, usize))
    requires
        from <= to <= chars@.len(),
    ensures
        from <= r.0 <= r.1 <= to,
        chars@.subrange(r.0 as int, r.1 as int) == first_word(
            chars@.subrange(from as int, to as int),
        ),
{
    let ghost line = chars@.subrange(from as int, to as int);
    let mut a: usize = from;
    while a < to && char_is_space(chars[a])
        invariant
            from <= a <= to,
            to <= chars@.len(),
            forall|j: int| from <= j < a ==> is_space(chars@[j]),
        decreases to - a,
    {
        a += 1;
    }
    let mut b: usize = to;
    while b > a && char_is_space(chars[b - 1])
        invariant
            a <= b <= to,
            to <= chars@.len(),
            forall|j: int| b <= j < to ==> is_space(chars@[j]),
        decreases b - a,
    {
        b -= 1;
    }
    let mut k: usize = a;
    while k < b && !char_is_ascii_space(chars[k])
        invariant
            a <= k <= b,
            b <= chars@.len(),
            forall|j: int| a <= j < k ==> !is_ascii_space(chars@[j]),
        decreases b - k,
    {
        k += 1;
    }
    proof {
        assert forall|j: int| 0 <= j < a - from implies is_space(line[j]) by {
            assert(line[j] == chars@[from + j]);
        }
        assert forall|j: int| b - from <= j < line.len() implies is_space(line[j]) by {
            assert(line[j] == chars@[from + j]);
        }
        lemma_trimmed(line, a - from, b - from);
        let inner = line.subrange(a - from, b - from);
        assert(inner =~= chars@.subrange(a as int, b as int));
        assert forall|j: int| 0 <= j < k - a implies !is_ascii_space(inner[j]) by {
            assert(inner[j] == chars@[a + j]);
        }
        lemma_first_run(inner, k - a);
        assert(inner.subrange(0, k - a) =~= chars@.subrange(a as int, k as int));
    }
    (a, k)
}

/// Whether a character is a decimal digit.
pub open spec fn is_digit(c: char) -> bool {
    0x30 <= c as u32 <= 0x39
}

/// Whether a text is made of decimal digits.
pub open spec fn all_digits(s: Seq<char>) -> bool {
    forall|i: int| 0 <= i < s.len() ==> is_digit(#[trigger] s[i])
}

/// The number that decimal digits stand for.
pub open spec fn digits_value(s: Seq<char>) -> nat
    decreases s.len(),
{
    if s.len() == 0 {
        0
    } else {
        digits_value(s.drop_last()) * 10 + (s.last() as u32 - 0x30) as nat
    }
}

/// The digits of an integer in writing: what stands behind its sign.
pub open spec fn unsigned_part(s: Seq<char>) -> Seq<char> {
    if s.len() > 0 && (s[0] == '-' || s[0] == '+') {
        s.drop_first()
    } else {
        s
    }
}

/// The 64-bit integer that a text stands for: an optional `+` or `-`, then
/// one decimal digit or more, and nothing else; `None` for any other text and
/// for a number that 64 bits do not hold.
pub open spec fn integer_of(s: Seq<char>) -> Option<i64> {
    let digits = unsigned_part(s);
    let negative = s.len() > 0 && s[0] == '-';
    if digits.len() == 0 || !all_digits(digits) {
        None
    } else if negative {
        if digits_value(digits) <= 0x8000_0000_0000_0000 {
            Some((-(digits_value(digits) as int)) as i64)
        } else {
            None
        }
    } else {
        if digits_value(digits) <= 0x7fff_ffff_ffff_ffff {
            Some(digits_value(digits) as i64)
        } else {
            None
        }
    }
}

/// More digits do not make a number smaller.
proof fn lemma_digits_grow(s: Seq<char>, k: int)
    requires
        0 <= k <= s.len(),
    ensures
        digits_value(s.take(k)) <= digits_value(s),
    decreases s.len() - k,
{
    if k == s.len() {
        assert(s.take(k) =~= s);
    } else {
        lemma_digits_grow(s, k + 1);
        assert(s.take(k + 1).drop_last() =~= s.take(k));
    }
}

/// The 64-bit integer that a text stands for.
pub fn parse_integer(text: &str) -> (r: Option<i64>)
    ensures
        r == integer_of(text@),
{
    let chars = chars_of(text);
    let len = chars.len();
    if len == 0 {
        return None;
    }
    let negative = chars[0] == '-';
    let start: usize = if chars[0] == '-' || chars[0] == '+' {
        1
    } else {
        0
    };
    let ghost digits = unsigned_part(text@);
    assert(digits =~= text@.subrange(start as int, len as int));
    if start == len {
        return None;
    }
    let limit: u128 = if negative {
        0x8000_0000_0000_0000
    } else {
        0x7fff_ffff_ffff_ffff
    };
    let mut value: u128 = 0;
    let mut i: usize = start;
    assert(digits.take(0) =~= Seq::<char>::empty());
    while i < len
        invariant
            start <= i <= len,
            len == chars@.len(),
            chars@ == text@,
            digits == text@.subrange(start as int, len as int),
            digits == unsigned_part(text@),
            negative == (text@.len() > 0 && text@[0] == '-'),
            limit == if negative {
                0x8000_0000_0000_0000u128
            } else {
                0x7fff_ffff_ffff_ffffu128
            },
            value <= limit,
            value == digits_value(digits.take(i - start)),
            forall|k: int| 0 <= k < i - start ==> is_digit(#[trigger] digits[k]),
        decreases len - i,
    {
        let c = chars[i];
        let code = c as u32;
        assert(digits[i - start] == c);
        if code < 0x30 || code > 0x39 {
            assert(!is_digit(digits[i - start]));
            return None;
        }
        proof {
            assert(digits.take(i - start + 1).drop_last() =~= digits.take(i - start));
            assert(digits.take(i - start + 1).last() == c);
        }
        value = value * 10 + (code - 0x30) as u128;
        if value > limit {
            proof {
                lemma_digits_grow(digits, i - start + 1);
                if all_digits(digits) {
                    assert(digits_value(digits) > limit);
                }
            }
            return None;
        }
        i += 1;
    }
    assert(digits.take(len - start) =~= digits);
    if negative {
        if value == 0x8000_0000_0000_0000 {
            Some(i64::MIN)
        } else {
            Some(-(value as i64))
        }
    } else {
        Some(value as i64)
    }
}

} // verus!
