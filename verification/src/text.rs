//! Small operations on text, stated over sequences of characters.

use vstd::prelude::*;
use vstd::std_specs::iter::IteratorSpec;

verus! {

/// The characters of `s`, in order.
pub fn chars_of(s: &str) -> (chars: Vec<char>)
    ensures
        chars@ == s@,
{
    let mut chars: Vec<char> = Vec::new();
    let mut rest = s.chars();
    loop
        invariant
            rest.obeys_prophetic_iter_laws(),
            chars@ + rest.remaining() == s@,
            rest.decrease() is Some,
        ensures
            chars@ == s@,
        decreases rest.decrease()->0,
    {
        match rest.next() {
            Some(c) => {
                chars.push(c);
            },
            None => {
                break;
            },
        }
    }
    chars
}

/// Whether two texts hold the same characters.
pub fn str_eq(a: &str, b: &str) -> (same: bool)
    ensures
        same == (a@ == b@),
{
    let x = a.to_owned();
    let y = b.to_owned();
    x == y
}

/// Tells whether `list` holds `name`.
pub fn contains_text(list: &Vec<String>, name: &str) -> (found: bool)
    ensures
        found == list.deep_view().contains(name@),
{
    let mut i: usize = 0;
    while i < list.len()
        invariant
            i <= list.len(),
            forall|k: int| 0 <= k < i ==> list.deep_view()[k] != name@,
        decreases list.len() - i,
    {
        if str_eq(list[i].as_str(), name) {
            assert(list.deep_view()[i as int] == name@);
            return true;
        }
        i += 1;
    }
    false
}

/// A copy of `list`.
pub fn copy_texts(list: &Vec<String>) -> (copy: Vec<String>)
    ensures
        copy.deep_view() == list.deep_view(),
{
    let mut copy: Vec<String> = Vec::new();
    let mut i: usize = 0;
    while i < list.len()
        invariant
            i <= list.len(),
            copy.len() == i,
            forall|k: int| 0 <= k < i ==> (#[trigger] copy[k])@ == list[k]@,
        decreases list.len() - i,
    {
        copy.push(list[i].clone());
        i += 1;
    }
    assert(copy.deep_view() =~= list.deep_view());
    copy
}

/// The texts of `items` with each text that comes again left out: what is
/// left is in the order of first appearance.
pub open spec fn distinct(items: Seq<Seq<char>>) -> Seq<Seq<char>>
    decreases items.len(),
{
    if items.len() == 0 {
        Seq::empty()
    } else {
        let earlier = distinct(items.drop_last());
        if earlier.contains(items.last()) {
            earlier
        } else {
            earlier.push(items.last())
        }
    }
}

/// `distinct` names nothing twice, and names exactly what `items` names.
pub proof fn lemma_distinct(items: Seq<Seq<char>>)
    ensures
        distinct(items).no_duplicates(),
        distinct(items).len() <= items.len(),
        items.len() > 0 ==> distinct(items).len() > 0,
        forall|name: Seq<char>| distinct(items).contains(name) <==> items.contains(name),
    decreases items.len(),
{
    if items.len() > 0 {
        let front = items.drop_last();
        let earlier = distinct(front);
        lemma_distinct(front);
        assert forall|name: Seq<char>| distinct(items).contains(name) <==> items.contains(
            name,
        ) by {
            if distinct(items).contains(name) {
                let at = choose|j: int| 0 <= j < distinct(items).len() && distinct(items)[j] == name;
                if at < earlier.len() {
                    assert(earlier[at] == name);
                    assert(front.contains(name));
                    let k = choose|k: int| 0 <= k < front.len() && front[k] == name;
                    assert(items[k] == name);
                } else {
                    assert(items[items.len() - 1] == name);
                }
            }
            if items.contains(name) {
                let k = choose|k: int| 0 <= k < items.len() && items[k] == name;
                if k < front.len() {
                    assert(front[k] == name);
                    assert(front.contains(name));
                    assert(earlier.contains(name));
                    let at = choose|j: int| 0 <= j < earlier.len() && earlier[j] == name;
                    assert(distinct(items)[at] == name);
                } else if earlier.contains(name) {
                    let at = choose|j: int| 0 <= j < earlier.len() && earlier[j] == name;
                    assert(distinct(items)[at] == name);
                } else {
                    assert(distinct(items)[earlier.len() as int] == name);
                }
            }
        }
    }
}

/// Adds `name` to `list` unless `list` holds it already.
pub fn push_distinct(list: &mut Vec<String>, name: String)
    ensures
        final(list).deep_view() == if old(list).deep_view().contains(name@) {
            old(list).deep_view()
        } else {
            old(list).deep_view().push(name@)
        },
{
    if !contains_text(list, name.as_str()) {
        let ghost before = list.deep_view();
        list.push(name);
        assert(list.deep_view() =~= before.push(name@));
    }
}

/// The texts of `items` in one text, with `separator` between each two.
pub open spec fn joined(items: Seq<Seq<char>>, separator: Seq<char>) -> Seq<char>
    decreases items.len(),
{
    if items.len() == 0 {
        Seq::empty()
    } else if items.len() == 1 {
        items[0]
    } else {
        joined(items.drop_last(), separator) + separator + items.last()
    }
}

/// Calls `Itertools::join` on the texts of `items`. The contract says what
/// that function is documented to give: every item as it is written, in
/// order, with `separator` between each two, and the empty text for no item.
#[verifier::external_body]
pub(crate) fn join(items: &Vec<String>, separator: &str) -> (text: String)
    ensures
        text@ == joined(items.deep_view(), separator@),
{
    itertools::Itertools::join(&mut items.iter(), separator)
}

/// Whether `needle` stands in `hay` at position `i`.
pub open spec fn occurs_at(needle: Seq<char>, hay: Seq<char>, i: int) -> bool {
    0 <= i && i + needle.len() <= hay.len() && hay.subrange(i, i + needle.len()) == needle
}

/// Whether `needle` stands somewhere in `hay`.
pub open spec fn is_substring(needle: Seq<char>, hay: Seq<char>) -> bool {
    exists|i: int| occurs_at(needle, hay, i)
}

/// Tells whether `needle` stands somewhere in `hay`.
pub fn contains_substring(hay: &str, needle: &str) -> (found: bool)
    ensures
        found == is_substring(needle@, hay@),
{
    let h = chars_of(hay);
    let n = chars_of(needle);
    if n.len() > h.len() {
        return false;
    }
    let last = h.len() - n.len();
    let mut i: usize = 0;
    while i <= last
        invariant
            i <= last + 1,
            last == h.len() - n.len(),
            h@ == hay@,
            n@ == needle@,
            forall|k: int| 0 <= k < i ==> !occurs_at(needle@, hay@, k),
        decreases last + 1 - i,
    {
        let mut j: usize = 0;
        while j < n.len() && h[i + j] == n[j]
            invariant
                j <= n.len(),
                i <= last,
                last == h.len() - n.len(),
                h@ == hay@,
                n@ == needle@,
                forall|k: int| 0 <= k < j ==> hay@[i + k] == needle@[k],
            decreases n.len() - j,
        {
            j += 1;
        }
        if j == n.len() {
            assert(hay@.subrange(i as int, i + needle@.len()) =~= needle@);
            assert(occurs_at(needle@, hay@, i as int));
            return true;
        }
        assert(!occurs_at(needle@, hay@, i as int)) by {
            if occurs_at(needle@, hay@, i as int) {
                assert(hay@.subrange(i as int, i + needle@.len())[j as int] == needle@[j as int]);
            }
        }
        i += 1;
    }
    false
}

/// Whether `c` is white space: the characters that Unicode gives the
/// property `White_Space`.
pub open spec fn is_whitespace(c: char) -> bool {
    let code = c as int;
    ||| 0x09 <= code <= 0x0d
    ||| code == 0x20
    ||| code == 0x85
    ||| code == 0xa0
    ||| code == 0x1680
    ||| 0x2000 <= code <= 0x200a
    ||| code == 0x2028
    ||| code == 0x2029
    ||| code == 0x202f
    ||| code == 0x205f
    ||| code == 0x3000
}

/// Tells whether `c` is white space.
pub fn char_is_whitespace(c: char) -> (white: bool)
    ensures
        white == is_whitespace(c),
{
    let code = c as u32;
    (0x09 <= code && code <= 0x0d) || code == 0x20 || code == 0x85 || code == 0xa0 || code
        == 0x1680 || (0x2000 <= code && code <= 0x200a) || code == 0x2028 || code == 0x2029
        || code == 0x202f || code == 0x205f || code == 0x3000
}

/// Where the run of characters other than white space that holds position
/// `i` ends: the first position from `i` on that holds white space, or the
/// end of `s`.
pub open spec fn word_end(s: Seq<char>, i: int) -> int
    decreases s.len() - i,
{
    if 0 <= i < s.len() && !is_whitespace(s[i]) {
        word_end(s, i + 1)
    } else {
        i
    }
}

/// The words of `s` from position `i` on: its maximal runs of characters
/// other than white space, in order.
pub open spec fn words_from(s: Seq<char>, i: int) -> Seq<Seq<char>>
    decreases s.len() - i,
    via words_from_decreases
{
    if i < 0 || i >= s.len() {
        Seq::empty()
    } else if is_whitespace(s[i]) {
        words_from(s, i + 1)
    } else {
        seq![s.subrange(i, word_end(s, i))] + words_from(s, word_end(s, i))
    }
}

#[via_fn]
proof fn words_from_decreases(s: Seq<char>, i: int) {
    if 0 <= i < s.len() && !is_whitespace(s[i]) {
        lemma_word_end_bounds(s, i + 1);
    }
}

/// The words of `s`.
pub open spec fn words(s: Seq<char>) -> Seq<Seq<char>> {
    words_from(s, 0)
}

/// A word's end lies between its start and the end of the text.
pub proof fn lemma_word_end_bounds(s: Seq<char>, i: int)
    requires
        0 <= i <= s.len(),
    ensures
        i <= word_end(s, i) <= s.len(),
        forall|k: int| i <= k < word_end(s, i) ==> !is_whitespace(#[trigger] s[k]),
        word_end(s, i) < s.len() ==> is_whitespace(s[word_end(s, i)]),
    decreases s.len() - i,
{
    if i < s.len() && !is_whitespace(s[i]) {
        lemma_word_end_bounds(s, i + 1);
    }
}

/// Whether `s` holds nothing but white space.
pub open spec fn all_whitespace(s: Seq<char>) -> bool {
    forall|k: int| 0 <= k < s.len() ==> is_whitespace(#[trigger] s[k])
}

proof fn lemma_word_end_shift(pre: Seq<char>, s: Seq<char>, j: int)
    requires
        0 <= j <= s.len(),
    ensures
        word_end(pre + s, pre.len() + j) == pre.len() + word_end(s, j),
    decreases s.len() - j,
{
    if j < s.len() {
        assert((pre + s)[pre.len() + j] == s[j]);
        if !is_whitespace(s[j]) {
            lemma_word_end_shift(pre, s, j + 1);
        }
    }
}

proof fn lemma_words_shift(pre: Seq<char>, s: Seq<char>, j: int)
    requires
        0 <= j <= s.len(),
    ensures
        words_from(pre + s, pre.len() + j) == words_from(s, j),
    decreases s.len() - j,
{
    if j < s.len() {
        assert((pre + s)[pre.len() + j] == s[j]);
        if is_whitespace(s[j]) {
            lemma_words_shift(pre, s, j + 1);
        } else {
            let end = word_end(s, j);
            lemma_word_end_bounds(s, j + 1);
            lemma_word_end_shift(pre, s, j);
            lemma_words_shift(pre, s, end);
            assert((pre + s).subrange(pre.len() + j, pre.len() + end) =~= s.subrange(j, end));
        }
    }
}

proof fn lemma_words_skip_space(pre: Seq<char>, space: Seq<char>, rest: Seq<char>, i: int)
    requires
        all_whitespace(space),
        pre.len() <= i <= pre.len() + space.len(),
    ensures
        words_from(pre + space + rest, i) == words_from(
            pre + space + rest,
            (pre.len() + space.len()) as int,
        ),
    decreases pre.len() + space.len() - i,
{
    if i < pre.len() + space.len() {
        assert((pre + space + rest)[i] == space[i - pre.len()]);
        lemma_words_skip_space(pre, space, rest, i + 1);
    }
}

proof fn lemma_word_end_before_space(s: Seq<char>, tail: Seq<char>, j: int)
    requires
        tail.len() == 0 || is_whitespace(tail[0]),
        0 <= j <= s.len(),
    ensures
        word_end(s + tail, j) == word_end(s, j),
    decreases s.len() - j,
{
    if j < s.len() {
        assert((s + tail)[j] == s[j]);
        if !is_whitespace(s[j]) {
            lemma_word_end_before_space(s, tail, j + 1);
        }
    } else if tail.len() > 0 {
        assert((s + tail)[j] == tail[0]);
    }
}

proof fn lemma_words_apart_from(a: Seq<char>, space: Seq<char>, b: Seq<char>, j: int)
    requires
        all_whitespace(space),
        space.len() > 0 || b.len() == 0,
        0 <= j <= a.len(),
    ensures
        words_from(a + space + b, j) == words_from(a, j) + words(b),
    decreases a.len() - j,
{
    let s = a + space + b;
    assert(s =~= a + (space + b));
    if j < a.len() {
        assert(s[j] == a[j]);
        if is_whitespace(a[j]) {
            lemma_words_apart_from(a, space, b, j + 1);
        } else {
            let end = word_end(a, j);
            lemma_word_end_bounds(a, j + 1);
            if space.len() > 0 {
                assert((space + b)[0] == space[0]);
            }
            lemma_word_end_before_space(a, space + b, j);
            lemma_words_apart_from(a, space, b, end);
            assert(s.subrange(j, end) =~= a.subrange(j, end));
            assert(seq![a.subrange(j, end)] + (words_from(a, end) + words(b)) =~= (seq![
                a.subrange(j, end),
            ] + words_from(a, end)) + words(b));
        }
    } else {
        lemma_words_skip_space(a, space, b, j);
        lemma_words_shift(a + space, b, 0);
        assert(words_from(a, j) + words(b) =~= words(b));
    }
}

/// Words that white space keeps apart stay apart, however much of it there
/// is: the words of two texts with white space between them are the words
/// of the first, then those of the second.
pub proof fn lemma_words_apart(a: Seq<char>, space: Seq<char>, b: Seq<char>)
    requires
        all_whitespace(space),
        space.len() > 0,
    ensures
        words(a + space + b) == words(a) + words(b),
{
    lemma_words_apart_from(a, space, b, 0);
}

/// White space around a text changes nothing of its words.
pub proof fn lemma_words_ignore_surrounding_space(
    before: Seq<char>,
    line: Seq<char>,
    after: Seq<char>,
)
    requires
        all_whitespace(before),
        all_whitespace(after),
    ensures
        words(before + line + after) == words(line),
{
    let none = Seq::<char>::empty();
    lemma_words_apart_from(line, after, none, 0);
    assert(line + after + none =~= line + after);
    assert(words(none) =~= Seq::<Seq<char>>::empty());
    assert(words(line) + words(none) =~= words(line));
    if before.len() > 0 {
        lemma_words_apart_from(none, before, line + after, 0);
        assert(none + before + (line + after) =~= before + line + after);
        assert(words(none) + words(line + after) =~= words(line + after));
    } else {
        assert(before + line + after =~= line + after);
    }
}

/// Splits `s` at white space into its words.
pub fn split_whitespace(s: &str) -> (parts: Vec<String>)
    ensures
        parts.deep_view() == words(s@),
        forall|k: int| 0 <= k < parts.len() ==> (#[trigger] parts[k])@.len() > 0,
{
    let chars = chars_of(s);
    let n = chars.len();
    let mut parts: Vec<String> = Vec::new();
    let mut i: usize = 0;
    while i < n
        invariant
            i <= n,
            n == chars.len(),
            chars@ == s@,
            words(s@) == parts.deep_view() + words_from(s@, i as int),
            forall|k: int| 0 <= k < parts.len() ==> (#[trigger] parts[k])@.len() > 0,
        decreases n - i,
    {
        if char_is_whitespace(chars[i]) {
            i += 1;
        } else {
            let start = i;
            while i < n && !char_is_whitespace(chars[i])
                invariant
                    start <= i <= n,
                    n == chars.len(),
                    chars@ == s@,
                    word_end(s@, i as int) == word_end(s@, start as int),
                decreases n - i,
            {
                i += 1;
            }
            let word = String::from_str(s.substring_char(start, i));
            proof {
                let before = parts.deep_view();
                assert(word_end(s@, start as int) == i);
                assert(word@ == s@.subrange(start as int, i as int));
                assert(before.push(word@) + words_from(s@, i as int) =~= before + words_from(
                    s@,
                    start as int,
                ));
            }
            let ghost before = parts.deep_view();
            parts.push(word);
            assert(parts.deep_view() =~= before.push(word@));
        }
    }
    assert(parts.deep_view() =~= words(s@));
    parts
}

/// Where the line that holds position `i` ends: the first line feed from
/// `i` on, or the end of `s`.
pub open spec fn line_end(s: Seq<char>, i: int) -> int
    decreases s.len() - i,
{
    if 0 <= i < s.len() && s[i] != '\n' {
        line_end(s, i + 1)
    } else {
        i
    }
}

/// The lines of `s` from position `i` on. A line ends at a line feed, which
/// is no part of it, or at the end of the text; a line feed at the very end
/// opens no further line.
pub open spec fn lines_from(s: Seq<char>, i: int) -> Seq<Seq<char>>
    decreases s.len() - i,
    via lines_from_decreases
{
    if i < 0 || i >= s.len() {
        Seq::empty()
    } else if line_end(s, i) < s.len() {
        seq![s.subrange(i, line_end(s, i))] + lines_from(s, line_end(s, i) + 1)
    } else {
        seq![s.subrange(i, line_end(s, i))]
    }
}

#[via_fn]
proof fn lines_from_decreases(s: Seq<char>, i: int) {
    if 0 <= i < s.len() {
        lemma_line_end_bounds(s, i);
    }
}

/// The lines of `s`.
pub open spec fn lines(s: Seq<char>) -> Seq<Seq<char>> {
    lines_from(s, 0)
}

/// A line's end lies between its start and the end of the text.
pub proof fn lemma_line_end_bounds(s: Seq<char>, i: int)
    requires
        0 <= i <= s.len(),
    ensures
        i <= line_end(s, i) <= s.len(),
        forall|k: int| i <= k < line_end(s, i) ==> #[trigger] s[k] != '\n',
        line_end(s, i) < s.len() ==> s[line_end(s, i)] == '\n',
    decreases s.len() - i,
{
    if i < s.len() && s[i] != '\n' {
        lemma_line_end_bounds(s, i + 1);
    }
}

/// The decimal digit that stands for `d`, for `d` below ten.
pub open spec fn digit_char(d: nat) -> char {
    if d == 0 {
        '0'
    } else if d == 1 {
        '1'
    } else if d == 2 {
        '2'
    } else if d == 3 {
        '3'
    } else if d == 4 {
        '4'
    } else if d == 5 {
        '5'
    } else if d == 6 {
        '6'
    } else if d == 7 {
        '7'
    } else if d == 8 {
        '8'
    } else {
        '9'
    }
}

/// The decimal numeral of `n`, without leading zeros.
pub open spec fn decimal(n: nat) -> Seq<char>
    decreases n,
{
    if n < 10 {
        seq![digit_char(n)]
    } else {
        decimal(n / 10).push(digit_char(n % 10))
    }
}

fn digit_str(d: usize) -> (text: &'static str)
    requires
        d < 10,
    ensures
        text@ == seq![digit_char(d as nat)],
{
    proof {
        reveal_strlit("0");
        reveal_strlit("1");
        reveal_strlit("2");
        reveal_strlit("3");
        reveal_strlit("4");
        reveal_strlit("5");
        reveal_strlit("6");
        reveal_strlit("7");
        reveal_strlit("8");
        reveal_strlit("9");
    }
    let text = if d == 0 {
        "0"
    } else if d == 1 {
        "1"
    } else if d == 2 {
        "2"
    } else if d == 3 {
        "3"
    } else if d == 4 {
        "4"
    } else if d == 5 {
        "5"
    } else if d == 6 {
        "6"
    } else if d == 7 {
        "7"
    } else if d == 8 {
        "8"
    } else {
        "9"
    };
    assert(text@ =~= seq![digit_char(d as nat)]);
    text
}

/// Writes `n` as a decimal numeral.
pub fn decimal_string(n: usize) -> (text: String)
    ensures
        text@ == decimal(n as nat),
    decreases n,
{
    let last = digit_str(n % 10);
    if n < 10 {
        String::from_str(last)
    } else {
        let mut text = decimal_string(n / 10);
        text.append(last);
        assert(text@ =~= decimal(n as nat));
        text
    }
}

} // verus!
