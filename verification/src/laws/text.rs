//! Laws of text: what the searches, cuts and numbers give, in terms of how the text is put
//! together.

use vstd::prelude::*;

use crate::laws::ppk2::{all_white, lemma_find_from_is, lemma_solid_end};
use crate::text::{
    contains_text, decimal, digit, ended_line, failure, find_from, first_word, joined,
    lemma_find_from, lines, lines_from, numeric, occurs_at, slices, solid_end, starts_with, texts,
    trimmed, white_space, CharClass,
};

verus! {

/// Whether no character of `s` is white space.
pub open spec fn all_solid(s: Seq<char>) -> bool {
    forall|i: int| 0 <= i < s.len() ==> !white_space(#[trigger] s[i])
}

/// White space is exactly the 25 characters that Unicode gives the property `White_Space`.
pub proof fn law_white_space_is_unicodes(c: char)
    ensures
        white_space(c) <==> {
            ||| c == '\t'
            ||| c == '\n'
            ||| c as u32 == 0xb
            ||| c as u32 == 0xc
            ||| c == '\r'
            ||| c == ' '
            ||| c as u32 == 0x85
            ||| c as u32 == 0xa0
            ||| c as u32 == 0x1680
            ||| c as u32 == 0x2000
            ||| c as u32 == 0x2001
            ||| c as u32 == 0x2002
            ||| c as u32 == 0x2003
            ||| c as u32 == 0x2004
            ||| c as u32 == 0x2005
            ||| c as u32 == 0x2006
            ||| c as u32 == 0x2007
            ||| c as u32 == 0x2008
            ||| c as u32 == 0x2009
            ||| c as u32 == 0x200a
            ||| c as u32 == 0x2028
            ||| c as u32 == 0x2029
            ||| c as u32 == 0x202f
            ||| c as u32 == 0x205f
            ||| c as u32 == 0x3000
        },
{
}

/// The characters of numbers are the ten digits, the point, the signs and the exponent marks.
pub proof fn law_numbers_have_fifteen_characters(c: char)
    ensures
        numeric(c) <==> {
            ||| c == '0'
            ||| c == '1'
            ||| c == '2'
            ||| c == '3'
            ||| c == '4'
            ||| c == '5'
            ||| c == '6'
            ||| c == '7'
            ||| c == '8'
            ||| c == '9'
            ||| c == '.'
            ||| c == '-'
            ||| c == '+'
            ||| c == 'e'
            ||| c == 'E'
        },
{
}

/// A text contains another exactly if it is that text with something, or nothing, before and after
/// it.
pub proof fn law_contains_iff_put_together_from(hay: Seq<char>, needle: Seq<char>)
    ensures
        contains_text(hay, needle) <==> exists|before: Seq<char>, after: Seq<char>|
            hay == #[trigger] (before + needle + after),
{
    if contains_text(hay, needle) {
        let i = choose|i: int| #[trigger] occurs_at(hay, needle, i);
        assert(hay =~= hay.take(i) + needle + hay.skip(i + needle.len())) by {
            assert(hay.subrange(i, i + needle.len()) =~= needle);
            assert(hay =~= hay.take(i) + hay.subrange(i, i + needle.len()) + hay.skip(
                i + needle.len(),
            ));
        }
    }
    if exists|before: Seq<char>, after: Seq<char>| hay == #[trigger] (before + needle + after) {
        let (before, after) = choose|before: Seq<char>, after: Seq<char>|
            hay == #[trigger] (before + needle + after);
        assert(hay.subrange(before.len() as int, (before.len() + needle.len()) as int) =~= needle);
        assert(occurs_at(hay, needle, before.len() as int));
    }
}

/// A text stands at a place of another exactly if so many characters are before it.
pub proof fn law_occurs_iff_split_there(hay: Seq<char>, needle: Seq<char>, i: int)
    ensures
        occurs_at(hay, needle, i) <==> exists|before: Seq<char>, after: Seq<char>|
            hay == #[trigger] (before + needle + after) && before.len() == i,
{
    if occurs_at(hay, needle, i) {
        assert(hay.subrange(i, i + needle.len()) =~= needle);
        assert(hay =~= hay.take(i) + needle + hay.skip(i + needle.len()));
    }
    if exists|before: Seq<char>, after: Seq<char>|
        hay == #[trigger] (before + needle + after) && before.len() == i {
        let (before, after) = choose|before: Seq<char>, after: Seq<char>|
            hay == #[trigger] (before + needle + after) && before.len() == i;
        assert(hay.subrange(i, i + needle.len()) =~= needle);
    }
}

/// A text begins with another exactly if it is that text with something, or nothing, after it.
pub proof fn law_starts_iff_continued(s: Seq<char>, prefix: Seq<char>)
    ensures
        starts_with(s, prefix) <==> exists|rest: Seq<char>| s == #[trigger] (prefix + rest),
{
    if starts_with(s, prefix) {
        assert(s.subrange(0, prefix.len() as int) =~= prefix);
        assert(s =~= prefix + s.skip(prefix.len() as int));
    }
    if exists|rest: Seq<char>| s == #[trigger] (prefix + rest) {
        let rest = choose|rest: Seq<char>| s == #[trigger] (prefix + rest);
        assert(s.subrange(0, prefix.len() as int) =~= prefix);
    }
}

/// Trimming takes the white space around a text off and leaves the text, with all white space
/// that is inside it.
pub proof fn law_trim_leaves_the_middle(before: Seq<char>, middle: Seq<char>, after: Seq<char>)
    requires
        all_white(before),
        all_white(after),
        middle.len() > 0 ==> !white_space(middle[0]) && !white_space(middle.last()),
    ensures
        trimmed(before + middle + after) == middle,
{
    let s = before + middle + after;
    let start = find_from(s, CharClass::Solid, 0);
    let end = solid_end(s, s.len() as int);
    lemma_find_from(s, CharClass::Solid, 0);
    lemma_solid_end(s, s.len() as int);
    if middle.len() > 0 {
        let first = before.len() as int;
        let last = before.len() + middle.len() - 1;
        assert(s[first] == middle[0]);
        assert(s[last] == middle.last());
        assert forall|j: int| 0 <= j < first implies white_space(#[trigger] s[j]) by {
            assert(s[j] == before[j]);
        }
        assert forall|j: int| last < j < s.len() implies white_space(#[trigger] s[j]) by {
            assert(s[j] == after[j - last - 1]);
        }
        assert(start == first);
        assert(end == last + 1) by {
            if end > last + 1 {
                assert(white_space(s[end - 1]));
            }
            if end <= last {
                assert(white_space(s[last]));
            }
        }
        assert(s.subrange(start, end) =~= middle);
    } else {
        assert forall|j: int| 0 <= j < s.len() implies white_space(#[trigger] s[j]) by {
            if j < before.len() {
                assert(s[j] == before[j]);
            } else {
                assert(s[j] == after[j - before.len()]);
            }
        }
        assert(start == s.len());
        assert(trimmed(s) =~= middle);
    }
}

/// The first word of a line is the first run of characters that are not white space, whatever
/// white space stands before it and whatever follows the white space after it.
pub proof fn law_first_word_is_cut(space: Seq<char>, word: Seq<char>, rest: Seq<char>)
    requires
        all_white(space),
        all_solid(word),
        word.len() > 0,
        rest.len() > 0 ==> white_space(rest[0]),
    ensures
        first_word(space + word + rest) == Some(word),
{
    let line = space + word + rest;
    let start = space.len() as int;
    let end = start + word.len();
    assert forall|j: int| 0 <= j < start implies !CharClass::Solid.admits(#[trigger] line[j]) by {
        assert(line[j] == space[j]);
    }
    assert(line[start] == word[0]);
    lemma_find_from_is(line, CharClass::Solid, 0, start);
    assert forall|j: int| start <= j < end implies !CharClass::White.admits(#[trigger] line[j]) by {
        assert(line[j] == word[j - start]);
    }
    if end < line.len() {
        assert(line[end] == rest[0]);
    }
    lemma_find_from_is(line, CharClass::White, start, end);
    assert(line.subrange(start, end) =~= word);
}

/// A line has no first word exactly if it is all white space.
pub proof fn law_no_word_iff_all_white(line: Seq<char>)
    ensures
        first_word(line) is None <==> all_white(line),
{
    lemma_find_from(line, CharClass::Solid, 0);
    if all_white(line) && find_from(line, CharClass::Solid, 0) < line.len() {
        assert(white_space(line[find_from(line, CharClass::Solid, 0)]));
    }
}

/// A line that has a first word is white space, the word, and nothing or white space and the rest.
pub proof fn law_line_is_split_at_its_first_word(line: Seq<char>)
    ensures
        first_word(line) matches Some(word) ==> word.len() > 0 && all_solid(word) && exists|
            space: Seq<char>,
            rest: Seq<char>,
        |
            line == #[trigger] (space + word + rest) && all_white(space) && (rest.len() > 0
                ==> white_space(rest[0])),
{
    if let Some(word) = first_word(line) {
        lemma_find_from(line, CharClass::Solid, 0);
        let start = find_from(line, CharClass::Solid, 0);
        lemma_find_from(line, CharClass::White, start);
        let end = find_from(line, CharClass::White, start);
        assert(line =~= line.take(start) + word + line.skip(end));
        assert(all_white(line.take(start)));
        assert(all_solid(word)) by {
            assert forall|i: int| 0 <= i < word.len() implies !white_space(#[trigger] word[i]) by {
                assert(word[i] == line[start + i]);
            }
        }
        assert(word.len() > 0);
        if end < line.len() {
            assert(line.skip(end)[0] == line[end]);
        }
    }
}

/// Whether `s` holds no line feed.
pub open spec fn one_line(s: Seq<char>) -> bool {
    forall|i: int| 0 <= i < s.len() ==> #[trigger] s[i] != '\n'
}

/// A line without the carriage return at its end, if it has one.
pub open spec fn without_return(line: Seq<char>) -> Seq<char> {
    if line.len() > 0 && line.last() == '\r' {
        line.drop_last()
    } else {
        line
    }
}

/// What a text is cut into from a place on depends on the text from there on alone.
proof fn lemma_lines_shift(front: Seq<char>, s: Seq<char>, at: int)
    requires
        0 <= at <= s.len(),
    ensures
        lines_from(front + s, front.len() + at) == lines_from(s, at),
    decreases s.len() - at,
{
    let whole = front + s;
    let shift = front.len();
    lemma_find_from(s, CharClass::LineFeed, at);
    let end = find_from(s, CharClass::LineFeed, at);
    assert forall|j: int| shift + at <= j < shift + end implies !CharClass::LineFeed.admits(
        #[trigger] whole[j],
    ) by {
        assert(whole[j] == s[j - shift]);
    }
    if end < s.len() {
        assert(whole[shift + end] == s[end]);
    }
    lemma_find_from_is(whole, CharClass::LineFeed, shift + at, shift + end);
    if at < s.len() {
        if end >= s.len() {
            assert(whole.subrange(shift + at, whole.len() as int) =~= s.subrange(
                at,
                s.len() as int,
            ));
        } else {
            assert(ended_line(whole, shift + at, shift + end) =~= ended_line(s, at, end));
            lemma_lines_shift(front, s, end + 1);
        }
    }
}

/// Lines are what stands between line feeds, in order: a text that begins with a line and its line
/// feed has that line, without a carriage return at its end, before the lines of what follows. What
/// no line feed ends is a line as it stands, and no text has no lines.
pub proof fn law_lines_are_cut_at_line_feeds(line: Seq<char>, rest: Seq<char>)
    requires
        one_line(line),
    ensures
        lines(line + seq!['\n'] + rest) == seq![without_return(line)] + lines(rest),
        line.len() > 0 ==> lines(line) == seq![line],
        lines(Seq::empty()) == Seq::<Seq<char>>::empty(),
{
    let front = line + seq!['\n'];
    let whole = front + rest;
    let end = line.len() as int;
    assert forall|j: int| 0 <= j < end implies !CharClass::LineFeed.admits(
        #[trigger] whole[j],
    ) by {
        assert(whole[j] == line[j]);
    }
    assert(whole[end] == '\n');
    lemma_find_from_is(whole, CharClass::LineFeed, 0, end);
    if end > 0 {
        assert(whole[end - 1] == line.last());
    }
    assert(ended_line(whole, 0, end) =~= without_return(line));
    lemma_lines_shift(front, rest, 0);
    if line.len() > 0 {
        lemma_find_from_is(line, CharClass::LineFeed, 0, end);
        assert(line.subrange(0, end) =~= line);
    }
}

/// Joining puts the separator between the texts and nowhere else: one text is itself, and two
/// lists joined are joined by the separator.
pub proof fn law_join_separates(a: Seq<Seq<char>>, b: Seq<Seq<char>>, one: Seq<char>, sep: Seq<char>)
    requires
        a.len() > 0,
        b.len() > 0,
    ensures
        joined(a + b, sep) == joined(a, sep) + sep + joined(b, sep),
        joined(seq![one], sep) == one,
        joined(Seq::empty(), sep) == Seq::<char>::empty(),
    decreases b.len(),
{
    let whole = a + b;
    assert(whole.last() == b.last());
    if b.len() == 1 {
        assert(whole.drop_last() =~= a);
    } else {
        law_join_separates(a, b.drop_last(), one, sep);
        assert(whole.drop_last() =~= a + b.drop_last());
        assert(joined(whole, sep) =~= joined(a, sep) + sep + joined(b, sep));
    }
}

/// A failure message is what failed, what it failed on, a colon and a space, and the cause, in this
/// order and with nothing else.
pub proof fn law_failure_is_put_together(head: Seq<char>, subject: Seq<char>, cause: Seq<char>)
    ensures
        failure(head, subject, cause) == head + (subject + (seq![':', ' '] + cause)),
{
    reveal_strlit(": ");
    assert(": "@ =~= seq![':', ' ']);
    assert(failure(head, subject, cause) =~= head + (subject + (seq![':', ' '] + cause)));
}

/// The number that a row of digits stands for.
pub open spec fn digits_value(s: Seq<char>) -> nat
    decreases s.len(),
{
    if s.len() == 0 {
        0
    } else {
        (10 * digits_value(s.drop_last()) + (s.last() as u32 - '0' as u32)) as nat
    }
}

/// Whether `s` is `n` in decimal: digits alone, that stand for `n`, and no zero before another digit.
pub open spec fn writes_number(s: Seq<char>, n: nat) -> bool {
    &&& s.len() > 0
    &&& forall|i: int| 0 <= i < s.len() ==> '0' <= #[trigger] s[i] <= '9'
    &&& s[0] == '0' ==> s.len() == 1
    &&& digits_value(s) == n
}

proof fn lemma_decimal_writes(n: nat)
    ensures
        writes_number(decimal(n), n),
        n > 0 ==> decimal(n)[0] != '0',
    decreases n,
{
    reveal_with_fuel(digits_value, 2);
    let s = decimal(n);
    if n < 10 {
        assert(s.drop_last() =~= Seq::<char>::empty());
    } else {
        lemma_decimal_writes(n / 10);
        assert(s.drop_last() =~= decimal(n / 10));
        assert(s[0] == decimal(n / 10)[0]);
    }
}

proof fn lemma_value_is_positive(s: Seq<char>)
    requires
        s.len() > 0,
        forall|i: int| 0 <= i < s.len() ==> '0' <= #[trigger] s[i] <= '9',
        s[0] != '0',
    ensures
        digits_value(s) > 0,
    decreases s.len(),
{
    if s.len() > 1 {
        lemma_value_is_positive(s.drop_last());
    }
}

proof fn lemma_writing_is_unique(s: Seq<char>, n: nat)
    requires
        writes_number(s, n),
    ensures
        s == decimal(n),
    decreases s.len(),
{
    let front = s.drop_last();
    let last = (s.last() as u32 - '0' as u32) as nat;
    assert('0' <= s.last() <= '9');
    assert(digit(last) == s.last());
    if s.len() == 1 {
        assert(front =~= Seq::<char>::empty());
        assert(s =~= seq![digit(n)]);
    } else {
        assert(front[0] == s[0]);
        lemma_value_is_positive(front);
        lemma_writing_is_unique(front, digits_value(front));
        assert(n / 10 == digits_value(front));
        assert(n % 10 == last);
        assert(s =~= front.push(s.last()));
    }
}

/// A number is written in decimal, without needless zeros, and in no other way.
pub proof fn law_decimal_writes_the_number(s: Seq<char>, n: nat)
    ensures
        writes_number(s, n) <==> s == decimal(n),
{
    lemma_decimal_writes(n);
    if writes_number(s, n) {
        lemma_writing_is_unique(s, n);
    }
}

/// The texts of a list are those of its strings, one for each and in order.
pub proof fn law_texts_are_in_order(v: Seq<String>, w: Seq<&str>)
    ensures
        texts(v).len() == v.len(),
        slices(w).len() == w.len(),
        forall|i: int| 0 <= i < v.len() ==> #[trigger] texts(v)[i] == v[i]@,
        forall|i: int| 0 <= i < w.len() ==> #[trigger] slices(w)[i] == w[i]@,
{
}

} // verus!
