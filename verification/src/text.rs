//! Text as sequences of characters: the helpers that the parsers, the
//! selector and the path rules share.

use vstd::prelude::*;

verus! {

/// `String::push` appends one character to the end of the string.
pub assume_specification[ String::push ](s: &mut String, c: char)
    ensures
        final(s)@ == old(s)@.push(c),
;

/// `String::pop` removes the last character and returns it, or returns
/// `None` and leaves the string alone when it is empty.
pub assume_specification[ String::pop ](s: &mut String) -> (last: Option<char>)
    ensures
        old(s)@.len() == 0 ==> last is None && final(s)@ == old(s)@,
        old(s)@.len() > 0 ==> last == Some(old(s)@.last()) && final(s)@ == old(s)@.drop_last(),
;

/// `i` is the smallest index below `n` at which `p` holds.
pub open spec fn is_least(p: spec_fn(int) -> bool, n: int, i: int) -> bool {
    &&& 0 <= i < n
    &&& p(i)
    &&& forall|j: int| 0 <= j < i ==> !#[trigger] p(j)
}

/// The smallest index below `n` at which `p` holds, if there is one.
pub open spec fn least(p: spec_fn(int) -> bool, n: int) -> Option<int> {
    if exists|i: int| is_least(p, n, i) {
        Some(choose|i: int| is_least(p, n, i))
    } else {
        None
    }
}

/// A smallest index is the value of `least`.
pub proof fn lemma_least_found(p: spec_fn(int) -> bool, n: int, i: int)
    requires
        is_least(p, n, i),
    ensures
        least(p, n) == Some(i),
{
    let k = choose|k: int| is_least(p, n, k);
    assert(p(i) && p(k));
    if k < i {
        assert(!p(k));
    }
    if i < k {
        assert(!p(i));
    }
}

/// Where `p` holds nowhere below `n`, `least` finds nothing.
pub proof fn lemma_least_absent(p: spec_fn(int) -> bool, n: int)
    requires
        forall|j: int| 0 <= j < n ==> !#[trigger] p(j),
    ensures
        least(p, n) is None,
{
    if exists|i: int| is_least(p, n, i) {
        let k = choose|k: int| is_least(p, n, k);
        assert(p(k));
    }
}

/// Where `p` holds somewhere below `n`, `least` finds an index, and none
/// behind that place.
pub proof fn lemma_least_exists(p: spec_fn(int) -> bool, n: int, i: int)
    requires
        0 <= i < n,
        p(i),
    ensures
        least(p, n) matches Some(k) && k <= i,
    decreases i,
{
    if exists|j: int| 0 <= j < i && #[trigger] p(j) {
        let j = choose|j: int| 0 <= j < i && #[trigger] p(j);
        lemma_least_exists(p, n, j);
    } else {
        assert(is_least(p, n, i));
        lemma_least_found(p, n, i);
    }
}

/// What `least` returns is a smallest index.
pub proof fn lemma_least_is_least(p: spec_fn(int) -> bool, n: int)
    ensures
        least(p, n) matches Some(i) ==> is_least(p, n, i),
{
}

/// The texts of a list of strings.
pub open spec fn texts(items: Seq<String>) -> Seq<Seq<char>> {
    items.map_values(|s: String| s@)
}

/// The characters of `s`, in order.
pub fn chars_of(s: &str) -> (chars: Vec<char>)
    ensures
        chars@ == s@,
{
    let mut chars: Vec<char> = Vec::new();
    for c in it: s.chars()
        invariant
            it.seq() == s@,
            chars@ == s@.take(it.index()),
    {
        chars.push(c);
        assert(s@.take(it.index() + 1) == s@.take(it.index()).push(c));
    }
    assert(s@.take(s@.len() as int) == s@);
    chars
}

/// The string made of `chars[from..to]`.
pub fn string_of(chars: &Vec<char>, from: usize, to: usize) -> (s: String)
    requires
        from <= to <= chars.len(),
    ensures
        s@ == chars@.subrange(from as int, to as int),
{
    let mut s = String::new();
    let mut i: usize = from;
    while i < to
        invariant
            from <= i <= to <= chars.len(),
            s@ == chars@.subrange(from as int, i as int),
        decreases to - i,
    {
        s.push(chars[i]);
        assert(chars@.subrange(from as int, i + 1) == chars@.subrange(from as int, i as int).push(
            chars@[i as int],
        ));
        i += 1;
    }
    s
}

/// `c` with an ASCII upper-case letter replaced by its lower-case form.
pub open spec fn ascii_lower(c: char) -> char {
    if 'A' <= c <= 'Z' {
        ((c as u8) + 32) as char
    } else {
        c
    }
}

/// Lower-cases an ASCII letter and leaves every other character alone.
pub fn to_ascii_lower(c: char) -> (lower: char)
    ensures
        lower == ascii_lower(c),
{
    if 'A' <= c && c <= 'Z' {
        let b: u8 = c as u8;
        (b + 32) as char
    } else {
        c
    }
}

/// Equality of two texts up to the case of ASCII letters.
pub open spec fn same_ignoring_case(a: Seq<char>, b: Seq<char>) -> bool {
    &&& a.len() == b.len()
    &&& forall|i: int| 0 <= i < a.len() ==> ascii_lower(#[trigger] a[i]) == ascii_lower(b[i])
}

/// Compares two texts up to the case of ASCII letters.
pub fn eq_ignore_ascii_case(a: &Vec<char>, b: &Vec<char>) -> (same: bool)
    ensures
        same == same_ignoring_case(a@, b@),
{
    if a.len() != b.len() {
        return false;
    }
    let mut i: usize = 0;
    while i < a.len()
        invariant
            a.len() == b.len(),
            i <= a.len(),
            forall|j: int| 0 <= j < i ==> ascii_lower(#[trigger] a@[j]) == ascii_lower(b@[j]),
        decreases a.len() - i,
    {
        if to_ascii_lower(a[i]) != to_ascii_lower(b[i]) {
            return false;
        }
        i += 1;
    }
    true
}

/// Whether `text` continues with `word` from position `at` on.
pub open spec fn occurs_at(text: Seq<char>, word: Seq<char>, at: int) -> bool {
    &&& 0 <= at
    &&& at + word.len() <= text.len()
    &&& text.subrange(at, at + word.len()) == word
}

/// Tests whether `word` stands in `text` at position `at`.
pub fn matches_at(text: &Vec<char>, word: &Vec<char>, at: usize) -> (found: bool)
    ensures
        found == occurs_at(text@, word@, at as int),
{
    if at > text.len() || word.len() > text.len() - at {
        return false;
    }
    let mut i: usize = 0;
    while i < word.len()
        invariant
            at + word.len() <= text.len(),
            i <= word.len(),
            forall|j: int| 0 <= j < i ==> text@[at + j] == #[trigger] word@[j],
        decreases word.len() - i,
    {
        if text[at + i] != word[i] {
            assert(text@.subrange(at as int, at + word.len())[i as int] != word@[i as int]);
            return false;
        }
        i += 1;
    }
    assert(text@.subrange(at as int, at + word.len()) =~= word@);
    true
}

/// Whether `text` begins with `word`.
pub open spec fn begins_with(text: Seq<char>, word: Seq<char>) -> bool {
    occurs_at(text, word, 0)
}

/// `text` with every leading repetition of `word` removed. An empty `word`
/// removes nothing.
pub open spec fn without_leading(text: Seq<char>, word: Seq<char>) -> Seq<char>
    decreases text.len(),
{
    if word.len() > 0 && begins_with(text, word) {
        without_leading(text.skip(word.len() as int), word)
    } else {
        text
    }
}

/// What `without_leading` returns does not begin with `word`.
pub proof fn lemma_without_leading_is_clean(text: Seq<char>, word: Seq<char>)
    requires
        word.len() > 0,
    ensures
        !begins_with(without_leading(text, word), word),
    decreases text.len(),
{
    if begins_with(text, word) {
        lemma_without_leading_is_clean(text.skip(word.len() as int), word);
    }
}

/// The number of characters that the leading repetitions of `word` take up
/// in `text[from..]`, counted from the start of `text`.
pub fn skip_leading(text: &Vec<char>, word: &Vec<char>, from: usize) -> (start: usize)
    requires
        from <= text.len(),
    ensures
        from <= start <= text.len(),
        text@.skip(start as int) == without_leading(text@.skip(from as int), word@),
{
    let mut start: usize = from;
    if word.len() == 0 {
        return start;
    }
    while matches_at(text, word, start)
        invariant
            word.len() > 0,
            from <= start <= text.len(),
            without_leading(text@.skip(start as int), word@) == without_leading(
                text@.skip(from as int),
                word@,
            ),
        decreases text.len() - start,
    {
        proof {
            let rest = text@.skip(start as int);
            assert(rest.subrange(0, word@.len() as int) == text@.subrange(
                start as int,
                start + word@.len(),
            ));
            assert(rest.skip(word@.len() as int) == text@.skip(start + word@.len()));
        }
        start += word.len();
    }
    proof {
        let rest = text@.skip(start as int);
        if begins_with(rest, word@) {
            assert(rest.subrange(0, word@.len() as int) == text@.subrange(
                start as int,
                start + word@.len(),
            ));
        }
    }
    start
}

/// Texts that are equal and begin with the same lead end in the same tail.
pub proof fn lemma_same_lead_same_tail(lead: Seq<char>, first: Seq<char>, second: Seq<char>)
    requires
        lead + first == lead + second,
    ensures
        first == second,
{
    assert(first =~= (lead + first).skip(lead.len() as int));
    assert(second =~= (lead + second).skip(lead.len() as int));
}

/// The white-space characters: those that `char::is_whitespace` accepts.
pub open spec fn is_space(c: char) -> bool {
    ||| '\u{9}' <= c <= '\u{D}'
    ||| c == ' '
    ||| c == '\u{85}'
    ||| c == '\u{A0}'
    ||| c == '\u{1680}'
    ||| '\u{2000}' <= c <= '\u{200A}'
    ||| c == '\u{2028}'
    ||| c == '\u{2029}'
    ||| c == '\u{202F}'
    ||| c == '\u{205F}'
    ||| c == '\u{3000}'
}

/// Tests whether `c` is white space.
pub fn is_space_char(c: char) -> (space: bool)
    ensures
        space == is_space(c),
{
    ('\u{9}' <= c && c <= '\u{D}') || c == ' ' || c == '\u{85}' || c == '\u{A0}' || c
        == '\u{1680}' || ('\u{2000}' <= c && c <= '\u{200A}') || c == '\u{2028}' || c
        == '\u{2029}' || c == '\u{202F}' || c == '\u{205F}' || c == '\u{3000}'
}

/// A text that holds nothing but white space.
pub open spec fn is_blank(text: Seq<char>) -> bool {
    forall|i: int| 0 <= i < text.len() ==> is_space(#[trigger] text[i])
}

/// Tests whether `text` is empty or all white space.
pub fn is_blank_text(text: &str) -> (blank: bool)
    ensures
        blank == is_blank(text@),
{
    let chars = chars_of(text);
    let mut i: usize = 0;
    while i < chars.len()
        invariant
            chars@ == text@,
            i <= chars.len(),
            forall|j: int| 0 <= j < i ==> is_space(#[trigger] chars@[j]),
        decreases chars.len() - i,
    {
        if !is_space_char(chars[i]) {
            assert(!is_space(text@[i as int]));
            return false;
        }
        i += 1;
    }
    true
}

/// `parts` in a row with `sep` between each two of them.
pub open spec fn joined_with(parts: Seq<Seq<char>>, sep: Seq<char>) -> Seq<char>
    decreases parts.len(),
{
    if parts.len() == 0 {
        Seq::empty()
    } else {
        let front = parts.drop_last();
        if front.len() == 0 {
            parts.last()
        } else {
            joined_with(front, sep) + sep + parts.last()
        }
    }
}

/// The length of `text` without the white space at its end.
pub open spec fn trim_end_len(text: Seq<char>) -> int
    decreases text.len(),
{
    if text.len() > 0 && is_space(text.last()) {
        trim_end_len(text.drop_last())
    } else {
        text.len() as int
    }
}

/// The number of white-space characters that `text` begins with.
pub open spec fn trim_start_len(text: Seq<char>) -> int
    decreases text.len(),
{
    if text.len() > 0 && is_space(text[0]) {
        1 + trim_start_len(text.drop_first())
    } else {
        0
    }
}

/// `text` without the white space at its two ends.
pub open spec fn trimmed(text: Seq<char>) -> Seq<char> {
    let head = text.take(trim_end_len(text));
    head.skip(trim_start_len(head))
}

/// Removes the white space at the two ends of `text`.
pub fn trim(text: &str) -> (inner: String)
    ensures
        inner@ == trimmed(text@),
{
    let chars = chars_of(text);
    let mut end: usize = chars.len();
    assert(chars@.take(end as int) == chars@);
    while end > 0 && is_space_char(chars[end - 1])
        invariant
            end <= chars.len(),
            trim_end_len(chars@.take(end as int)) == trim_end_len(chars@),
        decreases end,
    {
        assert(chars@.take(end as int).drop_last() == chars@.take(end - 1));
        end -= 1;
    }
    let ghost head = chars@.take(end as int);
    let mut start: usize = 0;
    assert(head.skip(0) == head);
    while start < end && is_space_char(chars[start])
        invariant
            start <= end <= chars.len(),
            head == chars@.take(end as int),
            trim_start_len(head) == start + trim_start_len(head.skip(start as int)),
        decreases end - start,
    {
        assert(head.skip(start as int).drop_first() == head.skip(start + 1));
        start += 1;
    }
    assert(head.skip(start as int) == chars@.subrange(start as int, end as int));
    string_of(&chars, start, end)
}

/// `template` with `value` in the place of each `{}`.
pub open spec fn filled(template: Seq<char>, value: Seq<char>) -> Seq<char>
    decreases template.len(),
{
    if template.len() == 0 {
        Seq::empty()
    } else if template.len() >= 2 && template[0] == '{' && template[1] == '}' {
        value + filled(template.skip(2), value)
    } else {
        seq![template[0]] + filled(template.skip(1), value)
    }
}

/// Puts `value` in the place of each `{}` of `template`.
pub fn fill(template: &str, value: &str) -> (text: String)
    ensures
        text@ == filled(template@, value@),
{
    let chars = chars_of(template);
    let mut text = String::new();
    let mut i: usize = 0;
    assert(chars@.skip(0) == chars@);
    assert(text@ + filled(chars@, value@) == filled(chars@, value@));
    while i < chars.len()
        invariant
            i <= chars.len(),
            chars@ == template@,
            text@ + filled(chars@.skip(i as int), value@) == filled(chars@, value@),
        decreases chars.len() - i,
    {
        let ghost rest = chars@.skip(i as int);
        let ghost before = text@;
        if chars[i] == '{' && i + 1 < chars.len() && chars[i + 1] == '}' {
            text.append(value);
            proof {
                assert(rest[0] == '{' && rest[1] == '}');
                assert(rest.skip(2) == chars@.skip(i + 2));
                assert(before + value@ + filled(chars@.skip(i + 2), value@) == before + (value@
                    + filled(chars@.skip(i + 2), value@)));
            }
            i += 2;
        } else {
            text.push(chars[i]);
            proof {
                assert(rest[0] == chars@[i as int]);
                assert(rest.skip(1) == chars@.skip(i + 1));
                assert(before.push(rest[0]) + filled(chars@.skip(i + 1), value@) == before + (
                seq![rest[0]] + filled(chars@.skip(i + 1), value@)));
            }
            i += 1;
        }
    }
    assert(filled(chars@.skip(chars.len() as int), value@) == Seq::<char>::empty());
    assert(text@ + Seq::<char>::empty() == text@);
    text
}

} // verus!
