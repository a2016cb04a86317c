//! Text: what a string is, character by character, and the string operations
//! that the rest of the library is written with.

use vstd::prelude::*;
use vstd::utf8::is_ascii_chars;

verus! {

// ----------------------------------------------------------------------------
// Characters
// ----------------------------------------------------------------------------

/// The characters with the Unicode property `White_Space`.
pub open spec fn is_white_space(c: char) -> bool {
    let n = c as u32;
    ||| 0x09 <= n <= 0x0d
    ||| n == 0x20
    ||| n == 0x85
    ||| n == 0xa0
    ||| n == 0x1680
    ||| 0x2000 <= n <= 0x200a
    ||| n == 0x2028
    ||| n == 0x2029
    ||| n == 0x202f
    ||| n == 0x205f
    ||| n == 0x3000
}

/// `char::is_whitespace`: whether the character has the Unicode property
/// `White_Space`.
pub assume_specification[ char::is_whitespace ](c: char) -> (white: bool)
    ensures
        white == is_white_space(c),
;

/// The lower-case letter for an upper-case ASCII letter; any other character
/// itself.
pub open spec fn ascii_lower(c: char) -> char {
    if 'A' <= c <= 'Z' {
        (c as u32 + 32) as char
    } else {
        c
    }
}

/// The lower-case equivalent of a text, as Unicode defines it: what
/// `str::to_lowercase` gives.
pub uninterp spec fn lowercase(text: Seq<char>) -> Seq<char>;

/// `str::to_lowercase`: the lower-case equivalent of the text. Of an ASCII text
/// it is known letter by letter; of any other text it is only named.
pub assume_specification[ str::to_lowercase ](text: &str) -> (lower: String)
    ensures
        lower@ == lowercase(text@),
        is_ascii_chars(text@) ==> lower@ == text@.map_values(|c: char| ascii_lower(c)),
;

/// The lower-case equivalent of a text: of an ASCII text letter by letter, and else
/// as Unicode defines it.
pub open spec fn lowered(text: Seq<char>) -> Seq<char> {
    if is_ascii_chars(text) {
        text.map_values(|c: char| ascii_lower(c))
    } else {
        lowercase(text)
    }
}

/// The lower-case equivalent of `text`.
pub fn lower_case(text: &str) -> (lower: String)
    ensures
        lower@ == lowered(text@),
{
    text.to_lowercase()
}

/// The characters of `s`.
pub fn chars_of(s: &str) -> (chars: Vec<char>)
    ensures
        chars@ == s@,
{
    let mut chars: Vec<char> = Vec::new();
    for c in it: s.chars()
        invariant
            it.seq() == s@,
            chars@ == s@.take(it.index()),
    {
        chars.push(c);
        assert(s@.take(it.index() + 1) == s@.take(it.index()).push(c));
    }
    assert(s@.take(s@.len() as int) == s@);
    chars
}

// ----------------------------------------------------------------------------
// Comparing
// ----------------------------------------------------------------------------

/// `part` occurs in `text` at place `at`.
pub open spec fn occurs_at(text: Seq<char>, part: Seq<char>, at: int) -> bool {
    &&& 0 <= at <= text.len() - part.len()
    &&& text.subrange(at, at + part.len()) == part
}

/// `part` occurs somewhere in `text`.
pub open spec fn occurs_in(text: Seq<char>, part: Seq<char>) -> bool {
    exists|at: int| occurs_at(text, part, at)
}

/// `text` begins with `part`.
pub open spec fn begins_with(text: Seq<char>, part: Seq<char>) -> bool {
    occurs_at(text, part, 0)
}

/// `text` ends with `part`.
pub open spec fn finishes_with(text: Seq<char>, part: Seq<char>) -> bool {
    occurs_at(text, part, text.len() - part.len())
}

/// Whether `part` occurs in `text` at place `at`.
fn chars_occur_at(text: &Vec<char>, part: &Vec<char>, at: usize) -> (occurs: bool)
    requires
        at <= text.len() - part.len(),
    ensures
        occurs == occurs_at(text@, part@, at as int),
{
    let mut i: usize = 0;
    while i < part.len()
        invariant
            i <= part.len(),
            at <= text.len() - part.len(),
            forall|j: int| 0 <= j < i ==> text@[at + j] == part@[j],
        decreases part.len() - i,
    {
        if text[at + i] != part[i] {
            assert(text@.subrange(at as int, at + part@.len())[i as int] != part@[i as int]);
            return false;
        }
        i += 1;
    }
    assert(text@.subrange(at as int, at + part@.len()) == part@);
    true
}

/// Whether the two texts are the same.
pub fn text_eq(a: &str, b: &str) -> (same: bool)
    ensures
        same == (a@ == b@),
{
    let x = chars_of(a);
    let y = chars_of(b);
    if x.len() != y.len() {
        return false;
    }
    let same = chars_occur_at(&x, &y, 0);
    assert(x@.subrange(0, x@.len() as int) == x@);
    same
}

/// Whether `text` begins with `part`.
pub fn starts_with(text: &str, part: &str) -> (yes: bool)
    ensures
        yes == begins_with(text@, part@),
{
    let x = chars_of(text);
    let y = chars_of(part);
    y.len() <= x.len() && chars_occur_at(&x, &y, 0)
}

/// Whether `text` ends with `part`.
pub fn ends_with(text: &str, part: &str) -> (yes: bool)
    ensures
        yes == finishes_with(text@, part@),
{
    let x = chars_of(text);
    let y = chars_of(part);
    y.len() <= x.len() && chars_occur_at(&x, &y, x.len() - y.len())
}

/// Whether `part` occurs somewhere in `text`.
pub fn contains(text: &str, part: &str) -> (yes: bool)
    ensures
        yes == occurs_in(text@, part@),
{
    let x = chars_of(text);
    let y = chars_of(part);
    if y.len() > x.len() {
        return false;
    }
    let last: usize = x.len() - y.len();
    let mut at: usize = 0;
    while at < last
        invariant
            x@ == text@,
            y@ == part@,
            last == x.len() - y.len(),
            at <= last,
            forall|k: int| 0 <= k < at ==> !occurs_at(text@, part@, k),
        decreases last - at,
    {
        if chars_occur_at(&x, &y, at) {
            return true;
        }
        at += 1;
    }
    chars_occur_at(&x, &y, last)
}

/// `a` comes before `b` in the order of their characters, or is the same.
pub open spec fn text_le(a: Seq<char>, b: Seq<char>) -> bool
    decreases a.len(),
{
    if a.len() == 0 {
        true
    } else if b.len() == 0 {
        false
    } else if a.first() != b.first() {
        a.first() < b.first()
    } else {
        text_le(a.drop_first(), b.drop_first())
    }
}

/// Of two texts one comes before the other or is the same.
pub proof fn lemma_text_le_total(a: Seq<char>, b: Seq<char>)
    ensures
        text_le(a, b) || text_le(b, a),
    decreases a.len(),
{
    if a.len() > 0 && b.len() > 0 && a.first() == b.first() {
        lemma_text_le_total(a.drop_first(), b.drop_first());
    }
}

/// The order of texts carries over.
pub proof fn lemma_text_le_transitive(a: Seq<char>, b: Seq<char>, c: Seq<char>)
    requires
        text_le(a, b),
        text_le(b, c),
    ensures
        text_le(a, c),
    decreases a.len(),
{
    if a.len() > 0 && a.first() == b.first() && b.first() == c.first() {
        lemma_text_le_transitive(a.drop_first(), b.drop_first(), c.drop_first());
    }
}

/// Texts that come before each other are the same.
pub proof fn lemma_text_le_antisymmetric(a: Seq<char>, b: Seq<char>)
    requires
        text_le(a, b),
        text_le(b, a),
    ensures
        a == b,
    decreases a.len(),
{
    if a.len() > 0 && b.len() > 0 {
        lemma_text_le_antisymmetric(a.drop_first(), b.drop_first());
        assert(a =~= seq![a.first()] + a.drop_first());
        assert(b =~= seq![b.first()] + b.drop_first());
    } else {
        assert(a =~= b);
    }
}

/// Whether `a` comes before `b` in the order of their characters, or is the same.
pub fn text_at_most(a: &str, b: &str) -> (yes: bool)
    ensures
        yes == text_le(a@, b@),
{
    let x = chars_of(a);
    let y = chars_of(b);
    let mut i: usize = 0;
    assert(a@.skip(0) =~= a@ && b@.skip(0) =~= b@);
    while i < x.len() && i < y.len() && x[i] == y[i]
        invariant
            x@ == a@,
            y@ == b@,
            i <= x.len(),
            i <= y.len(),
            text_le(a@, b@) == text_le(a@.skip(i as int), b@.skip(i as int)),
        decreases x.len() - i,
    {
        proof {
            assert(a@.skip(i as int).drop_first() =~= a@.skip(i + 1));
            assert(b@.skip(i as int).drop_first() =~= b@.skip(i + 1));
        }
        i += 1;
    }
    if i == x.len() {
        true
    } else if i == y.len() {
        false
    } else {
        x[i] < y[i]
    }
}

// ----------------------------------------------------------------------------
// White space
// ----------------------------------------------------------------------------

/// `text` holds nothing but white space.
pub open spec fn is_blank(text: Seq<char>) -> bool {
    forall|i: int| 0 <= i < text.len() ==> is_white_space(text[i])
}

/// `text` without the white space that it begins with.
pub open spec fn trimmed_start(text: Seq<char>) -> Seq<char>
    decreases text.len(),
{
    if text.len() > 0 && is_white_space(text.first()) {
        trimmed_start(text.drop_first())
    } else {
        text
    }
}

/// `text` without the white space that it ends with.
pub open spec fn trimmed_end(text: Seq<char>) -> Seq<char>
    decreases text.len(),
{
    if text.len() > 0 && is_white_space(text.last()) {
        trimmed_end(text.drop_last())
    } else {
        text
    }
}

/// `text` without the white space around it.
pub open spec fn trimmed(text: Seq<char>) -> Seq<char> {
    trimmed_end(trimmed_start(text))
}

/// The first `n` characters are white space, so they go before the start is
/// settled.
proof fn lemma_trimmed_start_skips(text: Seq<char>, n: int)
    requires
        0 <= n <= text.len(),
        forall|i: int| 0 <= i < n ==> is_white_space(text[i]),
    ensures
        trimmed_start(text) == trimmed_start(text.skip(n)),
    decreases n,
{
    if n == 0 {
        assert(text.skip(0) == text);
    } else {
        lemma_trimmed_start_skips(text.drop_first(), n - 1);
        assert(text.drop_first().skip(n - 1) == text.skip(n));
    }
}

/// The characters from `n` on are white space, so they go before the end is
/// settled.
proof fn lemma_trimmed_end_takes(text: Seq<char>, n: int)
    requires
        0 <= n <= text.len(),
        forall|i: int| n <= i < text.len() ==> is_white_space(text[i]),
    ensures
        trimmed_end(text) == trimmed_end(text.take(n)),
    decreases text.len() - n,
{
    if n == text.len() {
        assert(text.take(n) == text);
    } else {
        lemma_trimmed_end_takes(text.drop_last(), n);
        assert(text.drop_last().take(n) == text.take(n));
    }
}

/// A text is blank exactly where trimming it leaves nothing.
pub proof fn lemma_blank_is_trimmed_empty(text: Seq<char>)
    ensures
        is_blank(text) <==> trimmed(text).len() == 0,
{
    let start = trimmed_start(text);
    if is_blank(text) {
        lemma_trimmed_start_skips(text, text.len() as int);
        assert(text.skip(text.len() as int) =~= Seq::empty());
    } else {
        let k = choose|k: int| 0 <= k < text.len() && !is_white_space(text[k]);
        lemma_trimmed_start_keeps(text, k);
        let m = k - (text.len() - start.len());
        lemma_trimmed_end_keeps(start, m);
    }
}

/// A character that is no white space outlives the trimming of the start.
proof fn lemma_trimmed_start_keeps(text: Seq<char>, k: int)
    requires
        0 <= k < text.len(),
        !is_white_space(text[k]),
    ensures
        text.len() - k <= trimmed_start(text).len() <= text.len(),
        trimmed_start(text)[k - (text.len() - trimmed_start(text).len())] == text[k],
    decreases text.len(),
{
    if is_white_space(text.first()) {
        lemma_trimmed_start_keeps(text.drop_first(), k - 1);
    }
}

/// A character that is no white space outlives the trimming of the end.
proof fn lemma_trimmed_end_keeps(text: Seq<char>, k: int)
    requires
        0 <= k < text.len(),
        !is_white_space(text[k]),
    ensures
        k < trimmed_end(text).len(),
    decreases text.len(),
{
    if is_white_space(text.last()) {
        lemma_trimmed_end_keeps(text.drop_last(), k);
    }
}

/// Whether `text` holds nothing but white space.
pub fn blank(text: &str) -> (yes: bool)
    ensures
        yes == is_blank(text@),
{
    trim(text).is_empty()
}

/// `text` without the white space around it.
pub fn trim(text: &str) -> (inner: &str)
    ensures
        inner@ == trimmed(text@),
        inner@.len() == 0 <==> is_blank(text@),
{
    let chars = chars_of(text);
    let mut from: usize = 0;
    while from < chars.len() && chars[from].is_whitespace()
        invariant
            from <= chars.len(),
            forall|i: int| 0 <= i < from ==> is_white_space(chars@[i]),
        decreases chars.len() - from,
    {
        from += 1;
    }
    let mut to: usize = chars.len();
    while from < to && chars[to - 1].is_whitespace()
        invariant
            from <= to <= chars.len(),
            forall|i: int| to <= i < chars.len() ==> is_white_space(chars@[i]),
        decreases to,
    {
        to -= 1;
    }
    proof {
        lemma_blank_is_trimmed_empty(text@);
        lemma_trimmed_start_skips(text@, from as int);
        let start = text@.skip(from as int);
        assert(trimmed_start(start) == start);
        lemma_trimmed_end_takes(start, to - from);
        assert(start.take(to - from) == text@.subrange(from as int, to as int));
    }
    text.substring_char(from, to)
}

// ----------------------------------------------------------------------------
// Several texts
// ----------------------------------------------------------------------------

/// The texts that `strings` are.
pub open spec fn texts(strings: Seq<String>) -> Seq<Seq<char>> {
    strings.map_values(|s: String| s@)
}

/// How many characters `text` begins with that are no white space.
pub open spec fn word_len(text: Seq<char>) -> int
    decreases text.len(),
{
    if text.len() == 0 || is_white_space(text.first()) {
        0
    } else {
        1 + word_len(text.drop_first())
    }
}

/// The words of `text`: its longest runs without white space, in order.
pub open spec fn words(text: Seq<char>) -> Seq<Seq<char>>
    decreases text.len(),
{
    let rest = trimmed_start(text);
    let n = word_len(rest);
    if 0 < n <= rest.len() <= text.len() {
        seq![rest.take(n)] + words(rest.skip(n))
    } else {
        Seq::empty()
    }
}

proof fn lemma_word_len(text: Seq<char>, n: int)
    requires
        0 <= n <= text.len(),
        forall|i: int| 0 <= i < n ==> !is_white_space(text[i]),
        n < text.len() ==> is_white_space(text[n]),
    ensures
        word_len(text) == n,
    decreases n,
{
    if n > 0 {
        lemma_word_len(text.drop_first(), n - 1);
    }
}

/// Adds a copy of `text` to `strings`.
pub fn push_text(strings: &mut Vec<String>, text: &str)
    ensures
        texts(final(strings)@) == texts(old(strings)@).push(text@),
{
    strings.push(text.to_string());
    assert(texts(strings@) =~= texts(old(strings)@).push(text@));
}

/// The words of `text`.
pub fn split_words(text: &str) -> (found: Vec<String>)
    ensures
        texts(found@) == words(text@),
{
    let chars = chars_of(text);
    let mut found: Vec<String> = Vec::new();
    let mut at: usize = 0;
    assert(text@.skip(0) == text@);
    assert(texts(found@) + words(text@) =~= words(text@));
    loop
        invariant
            chars@ == text@,
            at <= chars.len(),
            texts(found@) + words(text@.skip(at as int)) == words(text@),
        ensures
            texts(found@) == words(text@),
        decreases chars.len() - at,
    {
        let mut from: usize = at;
        while from < chars.len() && chars[from].is_whitespace()
            invariant
                at <= from <= chars.len(),
                forall|i: int| at <= i < from ==> is_white_space(chars@[i]),
            decreases chars.len() - from,
        {
            from += 1;
        }
        let mut to: usize = from;
        while to < chars.len() && !chars[to].is_whitespace()
            invariant
                from <= to <= chars.len(),
                forall|i: int| from <= i < to ==> !is_white_space(chars@[i]),
            decreases chars.len() - to,
        {
            to += 1;
        }
        let ghost here = text@.skip(at as int);
        let ghost rest = text@.skip(from as int);
        proof {
            lemma_trimmed_start_skips(here, from - at);
            assert(here.skip(from - at) == rest);
            assert(trimmed_start(rest) == rest);
            lemma_word_len(rest, to - from);
        }
        if from == to {
            assert(words(here) == Seq::<Seq<char>>::empty());
            assert(texts(found@) + words(here) =~= texts(found@));
            break;
        }
        let ghost before = texts(found@);
        push_text(&mut found, text.substring_char(from, to));
        proof {
            let word = text@.subrange(from as int, to as int);
            assert(rest.take(to - from) == word);
            assert(rest.skip(to - from) == text@.skip(to as int));
            assert(before + (seq![word] + words(text@.skip(to as int))) =~= before.push(word)
                + words(text@.skip(to as int)));
        }
        at = to;
    }
    found
}

/// The place of the first line feed of `text`, or its length where it has none.
pub open spec fn line_len(text: Seq<char>) -> int
    decreases text.len(),
{
    if text.len() == 0 || text.first() == '\n' {
        0
    } else {
        1 + line_len(text.drop_first())
    }
}

/// A line that a line feed ended, without the carriage return before that.
pub open spec fn without_carriage_return(line: Seq<char>) -> Seq<char> {
    if line.len() > 0 && line.last() == '\r' {
        line.drop_last()
    } else {
        line
    }
}

/// The lines of `text`: each ends at a line feed or a carriage return and a line
/// feed, and the last one may end without.
pub open spec fn lines(text: Seq<char>) -> Seq<Seq<char>>
    decreases text.len(),
{
    let n = line_len(text);
    if text.len() == 0 {
        Seq::empty()
    } else if 0 <= n < text.len() {
        seq![without_carriage_return(text.take(n))] + lines(text.skip(n + 1))
    } else {
        seq![text]
    }
}

proof fn lemma_line_len(text: Seq<char>, n: int)
    requires
        0 <= n <= text.len(),
        forall|i: int| 0 <= i < n ==> text[i] != '\n',
        n < text.len() ==> text[n] == '\n',
    ensures
        line_len(text) == n,
    decreases n,
{
    if n > 0 {
        lemma_line_len(text.drop_first(), n - 1);
    }
}

/// The lines of `text`.
pub fn split_lines(text: &str) -> (found: Vec<String>)
    ensures
        texts(found@) == lines(text@),
{
    let chars = chars_of(text);
    let mut found: Vec<String> = Vec::new();
    let mut at: usize = 0;
    assert(text@.skip(0) == text@);
    assert(texts(found@) + lines(text@) =~= lines(text@));
    while at < chars.len()
        invariant
            chars@ == text@,
            at <= chars.len(),
            texts(found@) + lines(text@.skip(at as int)) == lines(text@),
        decreases chars.len() - at,
    {
        let mut to: usize = at;
        while to < chars.len() && chars[to] != '\n'
            invariant
                at <= to <= chars.len(),
                forall|i: int| at <= i < to ==> chars@[i] != '\n',
            decreases chars.len() - to,
        {
            to += 1;
        }
        let ghost rest = text@.skip(at as int);
        let ghost before = texts(found@);
        let ghost line = text@.subrange(at as int, to as int);
        proof {
            lemma_line_len(rest, to - at);
            assert(rest.take(to - at) == line);
        }
        if to == chars.len() {
            push_text(&mut found, text.substring_char(at, to));
            proof {
                assert(line == rest);
                assert(before + seq![line] =~= before.push(line));
                assert(text@.skip(to as int) =~= Seq::empty());
                assert(texts(found@) + lines(text@.skip(to as int)) =~= texts(found@));
            }
            at = to;
        } else {
            let end: usize = if to > at && chars[to - 1] == '\r' {
                to - 1
            } else {
                to
            };
            push_text(&mut found, text.substring_char(at, end));
            proof {
                let kept = text@.subrange(at as int, end as int);
                assert(without_carriage_return(line) =~= kept);
                assert(rest.skip(to - at + 1) == text@.skip(to + 1));
                assert(before + (seq![kept] + lines(text@.skip(to + 1))) =~= before.push(kept)
                    + lines(text@.skip(to + 1)));
            }
            at = to + 1;
        }
    }
    proof {
        assert(text@.skip(at as int) =~= Seq::empty());
        assert(texts(found@) + lines(text@.skip(at as int)) =~= texts(found@));
    }
    found
}

/// The texts one after another, with `between` between any two.
pub open spec fn joined(parts: Seq<Seq<char>>, between: Seq<char>) -> Seq<char>
    decreases parts.len(),
{
    if parts.len() == 0 {
        Seq::empty()
    } else if parts.len() == 1 {
        parts[0]
    } else {
        joined(parts.drop_last(), between) + between + parts.last()
    }
}

/// How often `mark` occurs in `text`.
pub open spec fn occurrences(text: Seq<char>, mark: char) -> nat
    decreases text.len(),
{
    if text.len() == 0 {
        0
    } else {
        occurrences(text.drop_last(), mark) + (if text.last() == mark {
            1nat
        } else {
            0nat
        })
    }
}

/// What occurs in two texts occurs in both of them together.
proof fn lemma_occurrences_add_up(a: Seq<char>, b: Seq<char>, mark: char)
    ensures
        occurrences(a + b, mark) == occurrences(a, mark) + occurrences(b, mark),
    decreases b.len(),
{
    if b.len() == 0 {
        assert(a + b =~= a);
    } else {
        assert((a + b).drop_last() =~= a + b.drop_last());
        lemma_occurrences_add_up(a, b.drop_last(), mark);
    }
}

/// A text without `mark` holds it no time.
pub proof fn lemma_occurs_no_time(text: Seq<char>, mark: char)
    requires
        !text.contains(mark),
    ensures
        occurrences(text, mark) == 0,
    decreases text.len(),
{
    if text.len() > 0 {
        assert(text[text.len() - 1] != mark);
        assert forall|i: int| 0 <= i < text.len() - 1 implies text.drop_last()[i] != mark by {
            assert(text[i] != mark);
        }
        lemma_occurs_no_time(text.drop_last(), mark);
    }
}

/// Texts without `mark` that were joined with it hold it between any two.
pub proof fn lemma_marks_between(parts: Seq<Seq<char>>, mark: char)
    requires
        parts.len() > 0,
        forall|i: int| 0 <= i < parts.len() ==> !(#[trigger] parts[i]).contains(mark),
    ensures
        occurrences(joined(parts, seq![mark]), mark) == parts.len() - 1,
    decreases parts.len(),
{
    lemma_occurs_no_time(parts[parts.len() - 1], mark);
    if parts.len() > 1 {
        let before = parts.drop_last();
        assert forall|i: int| 0 <= i < before.len() implies !(#[trigger] before[i]).contains(
            mark,
        ) by {
            assert(before[i] == parts[i]);
        }
        lemma_marks_between(before, mark);
        lemma_marks_of_last(parts, mark);
    }
}

/// The last of several texts that were joined with `mark` adds to the others the mark
/// before it and those that it holds.
pub proof fn lemma_marks_of_last(parts: Seq<Seq<char>>, mark: char)
    requires
        parts.len() > 1,
    ensures
        occurrences(joined(parts, seq![mark]), mark) == occurrences(
            joined(parts.drop_last(), seq![mark]),
            mark,
        ) + 1 + occurrences(parts.last(), mark),
{
    let m = seq![mark];
    let before = joined(parts.drop_last(), m);
    lemma_occurrences_add_up(before + m, parts.last(), mark);
    lemma_occurrences_add_up(before, m, mark);
    assert(m.drop_last() =~= Seq::empty());
    assert(occurrences(Seq::<char>::empty(), mark) == 0);
}

/// A text that ends in `mark` and `ending` holds `mark` once more than `ending` at least.
proof fn lemma_longer_ending(text: Seq<char>, ending: Seq<char>, mark: char)
    requires
        text.len() > ending.len(),
        text.skip(text.len() - ending.len()) == ending,
        text[text.len() - ending.len() - 1] == mark,
    ensures
        occurrences(text, mark) > occurrences(ending, mark),
{
    let before = text.take(text.len() - ending.len());
    assert(text =~= before + ending);
    lemma_occurrences_add_up(before, ending, mark);
}

/// Texts can be told apart again after they were joined with `mark`, where it is known
/// how often each holds it.
pub proof fn lemma_joined_injective(a: Seq<Seq<char>>, b: Seq<Seq<char>>, mark: char)
    requires
        a.len() == b.len(),
        forall|i: int|
            0 <= i < a.len() ==> occurrences(#[trigger] a[i], mark) == occurrences(b[i], mark),
        joined(a, seq![mark]) == joined(b, seq![mark]),
    ensures
        a == b,
    decreases a.len(),
{
    if a.len() <= 1 {
        assert(a =~= b);
    } else {
        let m = seq![mark];
        let x = joined(a.drop_last(), m);
        let y = joined(b.drop_last(), m);
        let whole = joined(a, m);
        let last = a.len() - 1;
        assert(whole == x + m + a.last());
        assert(whole == y + m + b.last());
        assert(whole[x.len() as int] == mark);
        assert(whole[y.len() as int] == mark);
        assert(whole.skip(x.len() as int + 1) =~= a.last());
        assert(whole.skip(y.len() as int + 1) =~= b.last());
        assert(occurrences(a[last], mark) == occurrences(b[last], mark));
        if x.len() < y.len() {
            assert(a.last().skip(a.last().len() - b.last().len()) =~= b.last());
            lemma_longer_ending(a.last(), b.last(), mark);
        } else if y.len() < x.len() {
            assert(b.last().skip(b.last().len() - a.last().len()) =~= a.last());
            lemma_longer_ending(b.last(), a.last(), mark);
        }
        assert(whole.take(x.len() as int) =~= x);
        assert(whole.take(y.len() as int) =~= y);
        assert forall|i: int| 0 <= i < a.len() - 1 implies occurrences(
            #[trigger] a.drop_last()[i],
            mark,
        ) == occurrences(b.drop_last()[i], mark) by {
            assert(occurrences(a[i], mark) == occurrences(b[i], mark));
        }
        lemma_joined_injective(a.drop_last(), b.drop_last(), mark);
        assert(a =~= a.drop_last().push(a.last()));
        assert(b =~= b.drop_last().push(b.last()));
    }
}

/// The texts from place `from` on, one after another, with `between` between any
/// two.
pub fn join_from(parts: &Vec<String>, from: usize, between: &str) -> (whole: String)
    requires
        from <= parts.len(),
    ensures
        whole@ == joined(texts(parts@).skip(from as int), between@),
{
    let ghost all = texts(parts@).skip(from as int);
    let mut whole = String::new();
    let mut i: usize = from;
    assert(all.take(0) =~= Seq::empty());
    while i < parts.len()
        invariant
            from <= i <= parts.len(),
            all == texts(parts@).skip(from as int),
            whole@ == joined(all.take(i - from), between@),
        decreases parts.len() - i,
    {
        proof {
            let next = all.take(i + 1 - from);
            assert(next.drop_last() =~= all.take(i - from));
            assert(next.last() == parts@[i as int]@);
            assert(i > from || next[0] == parts@[i as int]@);
        }
        if i > from {
            whole.append(between);
        }
        whole.append(parts[i].as_str());
        i += 1;
        assert(i - 1 > from || whole@ =~= parts@[i - 1]@);
    }
    assert(all.take(parts.len() - from) =~= all);
    whole
}

// ----------------------------------------------------------------------------
// Numbers and truth values
// ----------------------------------------------------------------------------

/// The ten digits, each at the place of its value.
pub open spec fn digits() -> Seq<char> {
    seq!['0', '1', '2', '3', '4', '5', '6', '7', '8', '9']
}

/// `n` in decimal, without leading zeros.
pub open spec fn decimal(n: nat) -> Seq<char>
    decreases n,
{
    if n < 10 {
        seq![digits()[n as int]]
    } else {
        decimal(n / 10).push(digits()[(n % 10) as int])
    }
}

/// The digit of value `d`.
fn digit_text(d: u64) -> (digit: &'static str)
    requires
        d < 10,
    ensures
        digit@ == seq![digits()[d as int]],
{
    proof {
        reveal_strlit("0");
        reveal_strlit("1");
        reveal_strlit("2");
        reveal_strlit("3");
        reveal_strlit("4");
        reveal_strlit("5");
        reveal_strlit("6");
        reveal_strlit("7");
        reveal_strlit("8");
        reveal_strlit("9");
    }
    if d == 0 {
        "0"
    } else if d == 1 {
        "1"
    } else if d == 2 {
        "2"
    } else if d == 3 {
        "3"
    } else if d == 4 {
        "4"
    } else if d == 5 {
        "5"
    } else if d == 6 {
        "6"
    } else if d == 7 {
        "7"
    } else if d == 8 {
        "8"
    } else {
        "9"
    }
}

/// `n` in decimal.
pub fn decimal_text(n: u64) -> (text: String)
    ensures
        text@ == decimal(n as nat),
    decreases n,
{
    if n < 10 {
        digit_text(n).to_string()
    } else {
        let mut text = decimal_text(n / 10);
        let ghost high = text@;
        text.append(digit_text(n % 10));
        assert(text@ =~= high.push(digits()[(n % 10) as int]));
        text
    }
}

/// Different numbers are written differently.
pub proof fn lemma_decimal_injective(m: nat, n: nat)
    requires
        decimal(m) == decimal(n),
    ensures
        m == n,
    decreases m,
{
    let a = decimal(m);
    let b = decimal(n);
    lemma_decimal_nonempty(m / 10);
    lemma_decimal_nonempty(n / 10);
    assert(a.last() == digits()[(m % 10) as int]);
    assert(b.last() == digits()[(n % 10) as int]);
    if m >= 10 && n >= 10 {
        assert(a.drop_last() =~= decimal(m / 10));
        assert(b.drop_last() =~= decimal(n / 10));
        lemma_decimal_injective(m / 10, n / 10);
    }
}

proof fn lemma_decimal_nonempty(n: nat)
    ensures
        decimal(n).len() > 0,
{
}

/// A truth value as it is written.
pub open spec fn truth(b: bool) -> Seq<char> {
    if b {
        "true"@
    } else {
        "false"@
    }
}

/// A truth value as it is written.
pub fn truth_text(b: bool) -> (text: &'static str)
    ensures
        text@ == truth(b),
{
    if b {
        "true"
    } else {
        "false"
    }
}

// ----------------------------------------------------------------------------
// Ends
// ----------------------------------------------------------------------------

/// `text` without every `part` that it ends with.
pub open spec fn without_ending(text: Seq<char>, part: Seq<char>) -> Seq<char>
    decreases text.len(),
{
    if part.len() > 0 && finishes_with(text, part) {
        without_ending(text.take(text.len() - part.len()), part)
    } else {
        text
    }
}

/// `text` without every `part` that it ends with.
pub fn trim_ending<'a>(text: &'a str, part: &str) -> (rest: &'a str)
    requires
        part@.len() > 0,
    ensures
        rest@ == without_ending(text@, part@),
{
    let chars = chars_of(text);
    let ending = chars_of(part);
    let mut end: usize = chars.len();
    let mut left = text;
    assert(text@.take(end as int) =~= text@);
    while ending.len() <= end && ends_with(left, part)
        invariant
            ending@ == part@,
            part@.len() > 0,
            end <= text@.len(),
            left@ == text@.take(end as int),
            without_ending(left@, part@) == without_ending(text@, part@),
        decreases end,
    {
        let ghost longer = left@;
        end -= ending.len();
        left = text.substring_char(0, end);
        assert(left@ =~= longer.take(longer.len() - part@.len()));
        assert(left@ =~= text@.take(end as int));
    }
    left
}

/// What stands after the last `mark` of `text`; all of it where it has none.
pub open spec fn after_last(text: Seq<char>, mark: char) -> Seq<char>
    decreases text.len(),
{
    if text.len() == 0 || text.last() == mark {
        Seq::empty()
    } else {
        after_last(text.drop_last(), mark).push(text.last())
    }
}

proof fn lemma_after_last(text: Seq<char>, mark: char, from: int)
    requires
        0 <= from <= text.len(),
        forall|i: int| from <= i < text.len() ==> text[i] != mark,
        from > 0 ==> text[from - 1] == mark,
    ensures
        after_last(text, mark) == text.skip(from),
    decreases text.len() - from,
{
    if from == text.len() {
        assert(text.skip(from) =~= Seq::empty());
    } else {
        lemma_after_last(text.drop_last(), mark, from);
        assert(text.drop_last().skip(from).push(text.last()) =~= text.skip(from));
    }
}

/// What stands after the last `mark` of `text`; all of it where it has none.
pub fn last_part(text: &str, mark: char) -> (part: &str)
    ensures
        part@ == after_last(text@, mark),
{
    let chars = chars_of(text);
    let mut from: usize = chars.len();
    while from > 0 && chars[from - 1] != mark
        invariant
            from <= chars.len(),
            forall|i: int| from <= i < chars.len() ==> chars@[i] != mark,
        decreases from,
    {
        from -= 1;
    }
    proof {
        lemma_after_last(text@, mark, from as int);
        assert(text@.skip(from as int) == text@.subrange(from as int, text@.len() as int));
    }
    text.substring_char(from, chars.len())
}

// ----------------------------------------------------------------------------
// Laws
// ----------------------------------------------------------------------------

/// `text` is `part` with something, or nothing, before and after it.
pub open spec fn holds(text: Seq<char>, part: Seq<char>) -> bool {
    exists|before: Seq<char>, after: Seq<char>| text == #[trigger] (before + part + after)
}

/// To occur in a text is to be what is left of it between a beginning and an end.
pub proof fn what_occurs_is_held(text: Seq<char>, part: Seq<char>)
    ensures
        occurs_in(text, part) <==> holds(text, part),
{
    if occurs_in(text, part) {
        let at = choose|at: int| occurs_at(text, part, at);
        let before = text.take(at);
        let after = text.skip(at + part.len());
        assert(text =~= before + part + after);
    }
    if holds(text, part) {
        let (before, after) = choose|before: Seq<char>, after: Seq<char>|
            text == #[trigger] (before + part + after);
        let at = before.len() as int;
        assert(text.subrange(at, at + part.len()) =~= part);
        assert(occurs_at(text, part, at));
    }
}

/// A text begins with a part exactly where it is the part and a rest.
pub proof fn a_beginning_leaves_a_rest(text: Seq<char>, part: Seq<char>)
    ensures
        begins_with(text, part) <==> exists|rest: Seq<char>| text == #[trigger] (part + rest),
{
    if begins_with(text, part) {
        assert(text =~= part + text.skip(part.len() as int));
    }
    if exists|rest: Seq<char>| text == #[trigger] (part + rest) {
        assert(text.subrange(0, part.len() as int) =~= part);
    }
}

/// A text ends with a part exactly where it is a rest and the part.
pub proof fn an_ending_leaves_a_rest(text: Seq<char>, part: Seq<char>)
    ensures
        finishes_with(text, part) <==> exists|rest: Seq<char>| text == #[trigger] (rest + part),
{
    if finishes_with(text, part) {
        assert(text =~= text.take(text.len() - part.len()) + part);
    }
    if exists|rest: Seq<char>| text == #[trigger] (rest + part) {
        let rest = choose|rest: Seq<char>| text == #[trigger] (rest + part);
        assert(text.subrange(text.len() - part.len(), text.len() as int) =~= part);
    }
}

/// The first difference decides which of two texts comes first, and a text comes before
/// any that it begins.
pub proof fn first_difference_decides(
    same: Seq<char>,
    c: char,
    d: char,
    a: Seq<char>,
    b: Seq<char>,
)
    ensures
        c != d ==> text_le(same + seq![c] + a, same + seq![d] + b) == (c < d),
        text_le(same, same + a),
        a.len() > 0 ==> !text_le(same + a, same),
    decreases same.len(),
{
    let x = same + seq![c] + a;
    let y = same + seq![d] + b;
    if same.len() > 0 {
        let rest = same.drop_first();
        first_difference_decides(rest, c, d, a, b);
        assert(x.drop_first() =~= rest + seq![c] + a);
        assert(y.drop_first() =~= rest + seq![d] + b);
        assert((same + a).drop_first() =~= rest + a);
        assert(x.first() == same.first() && y.first() == same.first());
        assert((same + a).first() == same.first());
    } else {
        assert(x.first() == c);
        assert(y.first() == d);
    }
}

/// Something in the text can be seen.
pub open spec fn shows_something(text: Seq<char>) -> bool {
    exists|i: int| 0 <= i < text.len() && !is_white_space(#[trigger] text[i])
}

/// A text is blank exactly where nothing in it can be seen.
pub proof fn blank_shows_nothing(text: Seq<char>)
    ensures
        is_blank(text) <==> !shows_something(text),
{
    if !is_blank(text) {
        let i = choose|i: int| 0 <= i < text.len() && !is_white_space(text[i]);
        assert(!is_white_space(text[i]));
    }
}

/// The first and the last place of a text at which something can be seen.
pub proof fn lemma_what_is_seen(text: Seq<char>) -> (ends: (int, int))
    requires
        shows_something(text),
    ensures
        0 <= ends.0 <= ends.1 < text.len(),
        !is_white_space(text[ends.0]),
        !is_white_space(text[ends.1]),
        forall|i: int| 0 <= i < ends.0 ==> is_white_space(text[i]),
        forall|i: int| ends.1 < i < text.len() ==> is_white_space(text[i]),
    decreases text.len(),
{
    if is_white_space(text.first()) {
        let rest = text.drop_first();
        let k = choose|i: int| 0 <= i < text.len() && !is_white_space(#[trigger] text[i]);
        assert(rest[k - 1] == text[k]);
        let (a, b) = lemma_what_is_seen(rest);
        assert forall|i: int| 0 <= i < a + 1 implies is_white_space(text[i]) by {
            if i > 0 {
                assert(text[i] == rest[i - 1]);
            }
        }
        assert forall|i: int| b + 1 < i < text.len() implies is_white_space(text[i]) by {
            assert(text[i] == rest[i - 1]);
        }
        (a + 1, b + 1)
    } else if is_white_space(text.last()) {
        let rest = text.drop_last();
        assert(rest[0] == text[0]);
        let (a, b) = lemma_what_is_seen(rest);
        assert forall|i: int| 0 <= i < a implies is_white_space(text[i]) by {
            assert(text[i] == rest[i]);
        }
        assert forall|i: int| b < i < text.len() implies is_white_space(text[i]) by {
            if i < rest.len() {
                assert(text[i] == rest[i]);
            }
        }
        (a, b)
    } else {
        (0, text.len() - 1)
    }
}

/// Trimming takes the white space around a text, and nothing else: what begins and ends
/// with a character that can be seen comes out as it is.
pub proof fn trimming_takes_what_is_around(
    before: Seq<char>,
    inner: Seq<char>,
    after: Seq<char>,
)
    requires
        !shows_something(before),
        !shows_something(after),
        inner.len() > 0 ==> !is_white_space(inner[0]) && !is_white_space(inner[inner.len() - 1]),
    ensures
        trimmed(before + inner + after) == inner,
{
    let text = before + inner + after;
    let n = before.len() as int;
    blank_shows_nothing(before);
    blank_shows_nothing(after);
    if inner.len() == 0 {
        assert forall|i: int| 0 <= i < text.len() implies is_white_space(text[i]) by {
            if i < n {
                assert(text[i] == before[i]);
            } else {
                assert(text[i] == after[i - n]);
            }
        }
        lemma_blank_is_trimmed_empty(text);
        assert(trimmed(text) =~= inner);
    } else {
        assert forall|i: int| 0 <= i < n implies is_white_space(text[i]) by {
            assert(text[i] == before[i]);
        }
        lemma_trimmed_start_skips(text, n);
        let start = text.skip(n);
        assert(start =~= inner + after);
        assert(start.first() == inner[0]);
        assert(trimmed_start(start) == start);
        let m = inner.len() as int;
        assert forall|i: int| m <= i < start.len() implies is_white_space(start[i]) by {
            assert(start[i] == after[i - m]);
        }
        lemma_trimmed_end_takes(start, m);
        assert(start.take(m) =~= inner);
        assert(inner.last() == inner[m - 1]);
    }
}

/// A text without white space is one word; white space parts words, and how much of it
/// makes no difference.
pub proof fn white_space_parts_words(a: Seq<char>, c: char, b: Seq<char>)
    requires
        is_white_space(c),
    ensures
        words(a + seq![c] + b) == words(a) + words(b),
    decreases a.len(),
{
    let text = a + seq![c] + b;
    if a.len() == 0 {
        assert(text.drop_first() =~= b);
        assert(text.first() == c);
        assert(trimmed_start(text) == trimmed_start(b));
        lemma_trimmed_start_is_short(b);
        lemma_trimmed_start_is_short(text);
        lemma_words_of_trimmed(text);
        lemma_words_of_trimmed(b);
        assert(words(a) =~= Seq::empty());
        assert(words(a) + words(b) =~= words(b));
    } else if is_white_space(a.first()) {
        let rest = a.drop_first();
        white_space_parts_words(rest, c, b);
        assert(text.drop_first() =~= rest + seq![c] + b);
        assert(text.first() == a.first());
        lemma_words_of_trimmed(text);
        lemma_words_of_trimmed(text.drop_first());
        lemma_words_of_trimmed(a);
        lemma_words_of_trimmed(rest);
        assert(trimmed_start(text) == trimmed_start(text.drop_first()));
        assert(trimmed_start(a) == trimmed_start(rest));
    } else {
        let n = lemma_first_word(a);
        lemma_word_len(a, n);
        assert forall|i: int| 0 <= i < n implies !is_white_space(text[i]) by {
            assert(text[i] == a[i]);
        }
        if n < a.len() {
            assert(text[n] == a[n]);
        } else {
            assert(text[n] == c);
        }
        lemma_word_len(text, n);
        assert(text.first() == a.first());
        assert(text.take(n) =~= a.take(n));
        if n < a.len() {
            let rest = a.skip(n);
            white_space_parts_words(rest, c, b);
            assert(text.skip(n) =~= rest + seq![c] + b);
        } else {
            white_space_parts_words(Seq::empty(), c, b);
            assert(text.skip(n) =~= Seq::<char>::empty() + seq![c] + b);
            assert(a.skip(n) =~= Seq::<char>::empty());
        }
        assert(words(a) =~= seq![a.take(n)] + words(a.skip(n)));
        assert(words(text) =~= seq![a.take(n)] + words(text.skip(n)));
        assert(seq![a.take(n)] + (words(a.skip(n)) + words(b)) =~= words(a) + words(b));
    }
}

/// A text without white space is one word.
pub proof fn a_text_without_white_space_is_a_word(text: Seq<char>)
    requires
        text.len() > 0,
        forall|i: int| 0 <= i < text.len() ==> !is_white_space(#[trigger] text[i]),
    ensures
        words(text) == seq![text],
        words(Seq::<char>::empty()) == Seq::<Seq<char>>::empty(),
{
    let n = text.len() as int;
    assert(!is_white_space(text[0]));
    lemma_word_len(text, n);
    assert(text.take(n) =~= text);
    assert(text.skip(n) =~= Seq::<char>::empty());
    assert(words(Seq::<char>::empty()) =~= Seq::empty());
    assert(words(text) =~= seq![text]);
}

proof fn lemma_trimmed_start_is_short(text: Seq<char>)
    ensures
        trimmed_start(text).len() <= text.len(),
    decreases text.len(),
{
    if text.len() > 0 && is_white_space(text.first()) {
        lemma_trimmed_start_is_short(text.drop_first());
    }
}

/// White space at the beginning makes no difference to the words.
proof fn lemma_words_of_trimmed(text: Seq<char>)
    ensures
        words(text) == words(trimmed_start(text)),
    decreases text.len(),
{
    let rest = trimmed_start(text);
    lemma_trimmed_start_is_short(text);
    lemma_trimmed_start_settles(text);
}

proof fn lemma_trimmed_start_settles(text: Seq<char>)
    ensures
        trimmed_start(trimmed_start(text)) == trimmed_start(text),
    decreases text.len(),
{
    if text.len() > 0 && is_white_space(text.first()) {
        lemma_trimmed_start_settles(text.drop_first());
    }
}

/// Where the first word of a text that begins with one ends.
proof fn lemma_first_word(text: Seq<char>) -> (n: int)
    requires
        text.len() > 0,
        !is_white_space(text.first()),
    ensures
        0 < n <= text.len(),
        forall|i: int| 0 <= i < n ==> !is_white_space(text[i]),
        n < text.len() ==> is_white_space(text[n]),
    decreases text.len(),
{
    let rest = text.drop_first();
    if rest.len() > 0 && !is_white_space(rest.first()) {
        let m = lemma_first_word(rest);
        assert forall|i: int| 0 <= i < m + 1 implies !is_white_space(text[i]) by {
            if i > 0 {
                assert(text[i] == rest[i - 1]);
            }
        }
        m + 1
    } else {
        1
    }
}

/// A line feed ends a line, and takes a carriage return before it along.
pub proof fn a_line_feed_ends_a_line(line: Seq<char>, rest: Seq<char>)
    requires
        !line.contains('\n'),
    ensures
        lines(line + seq!['\n'] + rest) == seq![
            if line.len() > 0 && line[line.len() - 1] == '\r' {
                line.take(line.len() - 1)
            } else {
                line
            },
        ] + lines(rest),
        line.len() > 0 ==> lines(line) == seq![line],
        lines(Seq::<char>::empty()) == Seq::<Seq<char>>::empty(),
{
    let text = line + seq!['\n'] + rest;
    let n = line.len() as int;
    assert forall|i: int| 0 <= i < n implies text[i] != '\n' && line[i] != '\n' by {
        assert(text[i] == line[i]);
        assert(line.contains(line[i]));
    }
    assert(text[n] == '\n');
    lemma_line_len(text, n);
    lemma_line_len(line, n);
    assert(text.take(n) =~= line);
    assert(text.skip(n + 1) =~= rest);
    assert(line.len() > 0 ==> line.drop_last() =~= line.take(n - 1));
}

/// What the digits of `text` come to, read from left to right.
pub open spec fn value_of(text: Seq<char>) -> int
    decreases text.len(),
{
    if text.len() == 0 {
        0
    } else {
        10 * value_of(text.drop_last()) + (text.last() as int - '0' as int)
    }
}

/// A number that is written in decimal is read back, and is written without leading
/// zeros in digits alone.
pub proof fn decimal_is_read_back(n: nat)
    ensures
        value_of(decimal(n)) == n,
        decimal(n).len() > 0,
        forall|i: int| 0 <= i < decimal(n).len() ==> '0' <= #[trigger] decimal(n)[i] <= '9',
        decimal(n).len() > 1 ==> decimal(n)[0] != '0',
    decreases n,
{
    let text = decimal(n);
    assert(forall|d: int| 0 <= d < 10 ==> (#[trigger] digits()[d]) as int - '0' as int == d);
    assert(forall|d: int| 0 < d < 10 ==> #[trigger] digits()[d] != '0');
    if n < 10 {
        assert(text.drop_last() =~= Seq::empty());
        assert(value_of(text.drop_last()) == 0);
    } else {
        decimal_is_read_back(n / 10);
        assert(text.drop_last() =~= decimal(n / 10));
        assert forall|i: int| 0 <= i < text.len() implies '0' <= #[trigger] text[i] <= '9' by {
            if i < text.len() - 1 {
                assert(text[i] == decimal(n / 10)[i]);
            }
        }
        assert(text[0] == decimal(n / 10)[0]);
        if decimal(n / 10).len() == 1 {
            assert(n / 10 >= 1);
            if n / 10 >= 10 {
                assert(decimal(n / 10) == decimal(n / 10 / 10).push(
                    digits()[((n / 10) % 10) as int],
                ));
                decimal_is_read_back(n / 10 / 10);
            }
        }
    }
}

/// Joined texts fall apart at any place, and one text alone is joined to itself.
pub proof fn joining_goes_piece_by_piece(
    a: Seq<Seq<char>>,
    b: Seq<Seq<char>>,
    between: Seq<char>,
)
    ensures
        a.len() > 0 && b.len() > 0 ==> joined(a + b, between) == joined(a, between) + between
            + joined(b, between),
        a.len() == 1 ==> joined(a, between) == a[0],
        joined(Seq::<Seq<char>>::empty(), between) == Seq::<char>::empty(),
    decreases b.len(),
{
    if a.len() > 0 && b.len() > 0 {
        let all = a + b;
        assert(all.drop_last() =~= a + b.drop_last());
        assert(all.last() == b.last());
        if b.len() == 1 {
            assert(a + b.drop_last() =~= a);
        } else {
            joining_goes_piece_by_piece(a, b.drop_last(), between);
            assert(joined(all, between) =~= joined(a, between) + between + joined(b, between));
        }
    }
}

/// What is left without an ending does not end so, and an ending more makes no
/// difference.
pub proof fn endings_are_taken_off(text: Seq<char>, part: Seq<char>)
    requires
        part.len() > 0,
    ensures
        without_ending(text + part, part) == without_ending(text, part),
        !(exists|rest: Seq<char>| text == #[trigger] (rest + part)) ==> without_ending(text, part)
            == text,
{
    let longer = text + part;
    assert(longer.subrange(longer.len() - part.len(), longer.len() as int) =~= part);
    assert(longer.take(longer.len() - part.len()) =~= text);
    an_ending_leaves_a_rest(text, part);
}

/// What stands after the last mark is what has no mark in it.
pub proof fn last_part_has_no_mark(before: Seq<char>, mark: char, part: Seq<char>)
    requires
        !part.contains(mark),
    ensures
        after_last(before + seq![mark] + part, mark) == part,
        after_last(part, mark) == part,
{
    let text = before + seq![mark] + part;
    let n = before.len() + 1;
    assert forall|i: int| 0 <= i < part.len() implies part[i] != mark by {
        assert(part.contains(part[i]));
    }
    assert forall|i: int| n <= i < text.len() implies text[i] != mark by {
        assert(text[i] == part[i - n]);
    }
    assert(text[n - 1] == mark);
    lemma_after_last(text, mark, n as int);
    lemma_after_last(part, mark, 0);
    assert(text.skip(n as int) =~= part);
    assert(part.skip(0) =~= part);
}

/// Capitals make no difference to the lower-case equivalent of an ASCII text, which holds
/// none and is as long.
pub proof fn capitals_make_no_difference(text: Seq<char>)
    requires
        is_ascii_chars(text),
    ensures
        lowered(text).len() == text.len(),
        forall|i: int|
            0 <= i < text.len() ==> !('A' <= #[trigger] lowered(text)[i] <= 'Z') && (lowered(
                text,
            )[i] == text[i] || ('A' <= text[i] <= 'Z' && lowered(text)[i] as int
                == text[i] as int + 32)),
{
}

} // verus!
