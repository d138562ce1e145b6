//! Character sequences: searching, trimming, comparing, and decimal numerals.

use vstd::prelude::*;
use vstd::slice::slice_subrange;
use vstd::std_specs::iter::IteratorSpec;

verus! {

broadcast use vstd::string::group_string_axioms;

/// The index of the first `c` in `s`, or `s.len()` where `s` holds none.
pub open spec fn first_index(s: Seq<char>, c: char) -> int
    decreases s.len(),
{
    if s.len() == 0 || s[0] == c {
        0
    } else {
        1 + first_index(s.drop_first(), c)
    }
}

/// The index of the last `c` in `s`, or `-1` where `s` holds none.
pub open spec fn last_index(s: Seq<char>, c: char) -> int
    decreases s.len(),
{
    if s.len() == 0 {
        -1
    } else if s.last() == c {
        s.len() - 1
    } else {
        last_index(s.drop_last(), c)
    }
}

/// The text up to its first line feed, which is left out.
pub open spec fn first_line(text: Seq<char>) -> Seq<char> {
    text.take(first_index(text, '\n'))
}

/// Whether `c` has the Unicode property `White_Space`.
pub open spec fn is_whitespace(c: char) -> bool {
    let n = c as u32;
    ||| 0x09 <= n <= 0x0D
    ||| n == 0x20
    ||| n == 0x85
    ||| n == 0xA0
    ||| n == 0x1680
    ||| 0x2000 <= n <= 0x200A
    ||| n == 0x2028
    ||| n == 0x2029
    ||| n == 0x202F
    ||| n == 0x205F
    ||| n == 0x3000
}

/// `s` without its leading white space.
pub open spec fn trim_start(s: Seq<char>) -> Seq<char>
    decreases s.len(),
{
    if s.len() > 0 && is_whitespace(s[0]) {
        trim_start(s.drop_first())
    } else {
        s
    }
}

/// `s` without its trailing white space.
pub open spec fn trim_end(s: Seq<char>) -> Seq<char>
    decreases s.len(),
{
    if s.len() > 0 && is_whitespace(s.last()) {
        trim_end(s.drop_last())
    } else {
        s
    }
}

/// `s` without its leading and trailing white space.
pub open spec fn trim(s: Seq<char>) -> Seq<char> {
    trim_end(trim_start(s))
}

/// Whether `s` ends with `suffix`.
pub open spec fn ends_with(s: Seq<char>, suffix: Seq<char>) -> bool {
    s.len() >= suffix.len() && s.skip(s.len() - suffix.len()) == suffix
}

/// The character that stands for a digit below ten.
pub open spec fn digit(d: nat) -> char {
    if d == 0 {
        '0'
    } else if d == 1 {
        '1'
    } else if d == 2 {
        '2'
    } else if d == 3 {
        '3'
    } else if d == 4 {
        '4'
    } else if d == 5 {
        '5'
    } else if d == 6 {
        '6'
    } else if d == 7 {
        '7'
    } else if d == 8 {
        '8'
    } else {
        '9'
    }
}

/// The decimal numeral of `n`, without leading zeros.
pub open spec fn decimal(n: nat) -> Seq<char>
    decreases n,
{
    if n < 10 {
        seq![digit(n)]
    } else {
        decimal(n / 10).push(digit(n % 10))
    }
}

/// `first_index` stays within `s`, stops on `c`, and passes over nothing equal to `c`.
pub proof fn lemma_first_index(s: Seq<char>, c: char)
    ensures
        0 <= first_index(s, c) <= s.len(),
        first_index(s, c) < s.len() ==> s[first_index(s, c)] == c,
        forall|j: int| 0 <= j < first_index(s, c) ==> s[j] != c,
    decreases s.len(),
{
    if s.len() == 0 || s[0] == c {
    } else {
        let rest = s.drop_first();
        lemma_first_index(rest, c);
        assert forall|j: int| 0 <= j < first_index(s, c) implies s[j] != c by {
            if j > 0 {
                assert(s[j] == rest[j - 1]);
            }
        }
    }
}

/// An index that stops on `c`, or at the end, after passing over nothing equal to `c`
/// is the first index of `c`.
pub proof fn lemma_first_index_unique(s: Seq<char>, c: char, i: int)
    requires
        0 <= i <= s.len(),
        i < s.len() ==> s[i] == c,
        forall|j: int| 0 <= j < i ==> s[j] != c,
    ensures
        first_index(s, c) == i,
{
    lemma_first_index(s, c);
}

/// `last_index` is `-1` or an index of `c`, and nothing after it equals `c`.
pub proof fn lemma_last_index(s: Seq<char>, c: char)
    ensures
        -1 <= last_index(s, c) < s.len(),
        last_index(s, c) >= 0 ==> s[last_index(s, c)] == c,
        forall|j: int| last_index(s, c) < j < s.len() ==> s[j] != c,
    decreases s.len(),
{
    if s.len() == 0 || s.last() == c {
    } else {
        let front = s.drop_last();
        lemma_last_index(front, c);
        assert forall|j: int| last_index(s, c) < j < s.len() implies s[j] != c by {
            if j < s.len() - 1 {
                assert(s[j] == front[j]);
            }
        }
    }
}

/// An index of `c`, or `-1`, with nothing equal to `c` after it is the last index of `c`.
pub proof fn lemma_last_index_unique(s: Seq<char>, c: char, i: int)
    requires
        -1 <= i < s.len(),
        i >= 0 ==> s[i] == c,
        forall|j: int| i < j < s.len() ==> s[j] != c,
    ensures
        last_index(s, c) == i,
{
    lemma_last_index(s, c);
}

/// Skipping `k` white-space characters, up to one that is none or to the end, trims the start.
pub proof fn lemma_trim_start(s: Seq<char>, k: int)
    requires
        0 <= k <= s.len(),
        forall|j: int| 0 <= j < k ==> is_whitespace(s[j]),
        k < s.len() ==> !is_whitespace(s[k]),
    ensures
        trim_start(s) == s.skip(k),
    decreases k,
{
    if k == 0 {
        assert(s.skip(0) == s);
    } else {
        let rest = s.drop_first();
        assert forall|j: int| 0 <= j < k - 1 implies is_whitespace(rest[j]) by {
            assert(rest[j] == s[j + 1]);
        }
        lemma_trim_start(rest, k - 1);
        assert(rest.skip(k - 1) == s.skip(k));
    }
}

/// Keeping `k` characters, where only white space follows and none stands last, trims the end.
pub proof fn lemma_trim_end(s: Seq<char>, k: int)
    requires
        0 <= k <= s.len(),
        forall|j: int| k <= j < s.len() ==> is_whitespace(s[j]),
        k > 0 ==> !is_whitespace(s[k - 1]),
    ensures
        trim_end(s) == s.take(k),
    decreases s.len() - k,
{
    if k == s.len() {
        assert(s.take(k) == s);
    } else {
        let front = s.drop_last();
        assert forall|j: int| k <= j < front.len() implies is_whitespace(front[j]) by {
            assert(front[j] == s[j]);
        }
        lemma_trim_end(front, k);
        assert(front.take(k) == s.take(k));
    }
}

/// White space that is added at the end is trimmed away again.
pub proof fn lemma_trim_push(s: Seq<char>, c: char)
    requires
        is_whitespace(c),
    ensures
        trim(s.push(c)) == trim(s),
{
    lemma_trim_start_push(s, c);
    if trim_start(s).len() > 0 {
        assert(trim_start(s).push(c).drop_last() == trim_start(s));
    }
}

/// White space that is added at the end stays there when the start is trimmed,
/// unless nothing else is left.
proof fn lemma_trim_start_push(s: Seq<char>, c: char)
    requires
        is_whitespace(c),
    ensures
        trim_start(s.push(c)) == if trim_start(s).len() == 0 {
            Seq::<char>::empty()
        } else {
            trim_start(s).push(c)
        },
    decreases s.len(),
{
    let t = s.push(c);
    if s.len() == 0 {
        assert(t.drop_first() =~= s);
    } else if is_whitespace(s[0]) {
        assert(t.drop_first() =~= s.drop_first().push(c));
        lemma_trim_start_push(s.drop_first(), c);
    }
}

/// The first line of `content`, without its line feed.
pub fn first_line_of(content: &str) -> (line: Vec<char>)
    ensures
        line@ == first_line(content@),
{
    let mut chars = content.chars();
    let mut line: Vec<char> = Vec::new();
    loop
        invariant
            content@ == line@ + chars.remaining(),
            forall|j: int| 0 <= j < line@.len() ==> line@[j] != '\n',
            chars.decrease() is Some,
        decreases chars.decrease()->0,
    {
        match chars.next() {
            None => {
                proof {
                    assert(content@ == line@);
                    lemma_first_index_unique(content@, '\n', line@.len() as int);
                }
                return line;
            },
            Some(c) => {
                if c == '\n' {
                    proof {
                        lemma_first_index_unique(content@, '\n', line@.len() as int);
                        assert(content@.take(line@.len() as int) == line@);
                    }
                    return line;
                }
                line.push(c);
            },
        }
    }
}

/// Whether `c` is white space.
pub fn whitespace(c: char) -> (b: bool)
    ensures
        b == is_whitespace(c),
{
    let n: u32 = c as u32;
    (0x09 <= n && n <= 0x0D) || n == 0x20 || n == 0x85 || n == 0xA0 || n == 0x1680 || (0x2000 <= n
        && n <= 0x200A) || n == 0x2028 || n == 0x2029 || n == 0x202F || n == 0x205F || n == 0x3000
}

/// The part of `s` between its leading and its trailing white space.
pub fn trimmed(s: &[char]) -> (t: &[char])
    ensures
        t@ == trim(s@),
{
    let mut start: usize = 0;
    while start < s.len() && whitespace(s[start])
        invariant
            start <= s@.len(),
            forall|j: int| 0 <= j < start ==> is_whitespace(s@[j]),
        decreases s@.len() - start,
    {
        start += 1;
    }
    let mut end: usize = s.len();
    while end > start && whitespace(s[end - 1])
        invariant
            start <= end <= s@.len(),
            forall|j: int| end <= j < s@.len() ==> is_whitespace(s@[j]),
        decreases end,
    {
        end -= 1;
    }
    proof {
        lemma_trim_start(s@, start as int);
        let rest = s@.skip(start as int);
        let keep = end - start;
        assert forall|j: int| keep <= j < rest.len() implies is_whitespace(rest[j]) by {
            assert(rest[j] == s@[j + start]);
        }
        if keep > 0 {
            assert(rest[keep - 1] == s@[end - 1]);
        }
        lemma_trim_end(rest, keep);
        assert(rest.take(keep) == s@.subrange(start as int, end as int));
    }
    slice_subrange(s, start, end)
}

/// The index of the first `c` in `s`, or the length of `s` where it holds none.
pub fn index_of(s: &[char], c: char) -> (i: usize)
    ensures
        i == first_index(s@, c),
        i <= s@.len(),
{
    let mut i: usize = 0;
    while i < s.len() && s[i] != c
        invariant
            i <= s@.len(),
            forall|j: int| 0 <= j < i ==> s@[j] != c,
        decreases s@.len() - i,
    {
        i += 1;
    }
    proof {
        lemma_first_index_unique(s@, c, i as int);
    }
    i
}

/// The index of the last `c` in `s`, if it holds one.
pub fn last_index_of(s: &[char], c: char) -> (found: Option<usize>)
    ensures
        match found {
            Some(i) => i == last_index(s@, c) && i < s@.len(),
            None => last_index(s@, c) == -1,
        },
{
    let mut end: usize = s.len();
    while end > 0 && s[end - 1] != c
        invariant
            end <= s@.len(),
            forall|j: int| end <= j < s@.len() ==> s@[j] != c,
        decreases end,
    {
        end -= 1;
    }
    proof {
        lemma_last_index_unique(s@, c, end - 1);
    }
    if end == 0 {
        None
    } else {
        Some(end - 1)
    }
}

/// Whether `s` spells `word`.
pub fn spells(s: &[char], word: &str) -> (b: bool)
    ensures
        b == (s@ == word@),
{
    let n = word.unicode_len();
    if s.len() != n {
        return false;
    }
    let mut i: usize = 0;
    while i < n
        invariant
            n == word@.len(),
            n == s@.len(),
            i <= n,
            forall|j: int| 0 <= j < i ==> s@[j] == word@[j],
        decreases n - i,
    {
        if s[i] != word.get_char(i) {
            return false;
        }
        i += 1;
    }
    assert(s@ =~= word@);
    true
}

/// Whether `a` and `b` hold the same text.
pub fn same_text(a: &str, b: &str) -> (same: bool)
    ensures
        same == (a@ == b@),
{
    let n = a.unicode_len();
    if b.unicode_len() != n {
        return false;
    }
    let mut i: usize = 0;
    while i < n
        invariant
            n == a@.len(),
            n == b@.len(),
            i <= n,
            forall|j: int| 0 <= j < i ==> a@[j] == b@[j],
        decreases n - i,
    {
        if a.get_char(i) != b.get_char(i) {
            return false;
        }
        i += 1;
    }
    assert(a@ =~= b@);
    true
}

/// Appends `arg` to `buffer` as a string of its own.
pub fn push_arg(buffer: &mut Vec<String>, arg: &str)
    ensures
        final(buffer).deep_view() == old(buffer).deep_view().push(arg@),
{
    buffer.push(arg.to_owned());
    assert(buffer.deep_view() =~= old(buffer).deep_view().push(arg@));
}

/// Whether `s` ends with `suffix`.
pub fn has_suffix(s: &[char], suffix: &str) -> (b: bool)
    ensures
        b == ends_with(s@, suffix@),
{
    let n = suffix.unicode_len();
    if s.len() < n {
        return false;
    }
    spells(slice_subrange(s, s.len() - n, s.len()), suffix)
}

/// The one-character string of a digit below ten.
fn digit_str(d: u8) -> (s: &'static str)
    requires
        d < 10,
    ensures
        s@ == seq![digit(d as nat)],
{
    proof {
        reveal_strlit("0");
        reveal_strlit("1");
        reveal_strlit("2");
        reveal_strlit("3");
        reveal_strlit("4");
        reveal_strlit("5");
        reveal_strlit("6");
        reveal_strlit("7");
        reveal_strlit("8");
        reveal_strlit("9");
    }
    let s = if d == 0 {
        "0"
    } else if d == 1 {
        "1"
    } else if d == 2 {
        "2"
    } else if d == 3 {
        "3"
    } else if d == 4 {
        "4"
    } else if d == 5 {
        "5"
    } else if d == 6 {
        "6"
    } else if d == 7 {
        "7"
    } else if d == 8 {
        "8"
    } else {
        "9"
    };
    assert(s@ =~= seq![digit(d as nat)]);
    s
}

/// The decimal numeral of `n`.
pub fn decimal_string(n: u8) -> (s: String)
    ensures
        s@ == decimal(n as nat),
{
    let mut s = String::new();
    if n >= 100 {
        s.append(digit_str(n / 100));
    }
    if n >= 10 {
        s.append(digit_str((n / 10) % 10));
    }
    s.append(digit_str(n % 10));
    proof {
        reveal_with_fuel(decimal, 3);
        assert(s@ =~= decimal(n as nat));
    }
    s
}

} // verus!
