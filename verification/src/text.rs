//! Text as a sequence of characters: the searches, cuts and numbers that the harness needs.

use vstd::prelude::*;

verus! {

/// A class of characters to stop at.
#[derive(Debug, Clone, Copy, PartialEq, Eq, Structural)]
pub enum CharClass {
    /// White space, as Unicode's `White_Space` property has it.
    White,
    /// Anything but white space.
    Solid,
    /// The line feed.
    LineFeed,
    /// The colon.
    Colon,
    /// Anything that cannot stand in a written number.
    NotNumeric,
}

/// Whether `c` has Unicode's `White_Space` property.
pub open spec fn white_space(c: char) -> bool {
    ||| '\u{9}' <= c <= '\u{d}'
    ||| c == '\u{20}'
    ||| c == '\u{85}'
    ||| c == '\u{a0}'
    ||| c == '\u{1680}'
    ||| '\u{2000}' <= c <= '\u{200a}'
    ||| c == '\u{2028}'
    ||| c == '\u{2029}'
    ||| c == '\u{202f}'
    ||| c == '\u{205f}'
    ||| c == '\u{3000}'
}

/// Whether `c` can stand in a written decimal number: a digit, a point, a sign or an exponent
/// mark.
pub open spec fn numeric(c: char) -> bool {
    ||| '0' <= c <= '9'
    ||| c == '.'
    ||| c == '-'
    ||| c == '+'
    ||| c == 'e'
    ||| c == 'E'
}

impl CharClass {
    /// Whether `c` is in the class.
    pub open spec fn admits(self, c: char) -> bool {
        match self {
            CharClass::White => white_space(c),
            CharClass::Solid => !white_space(c),
            CharClass::LineFeed => c == '\n',
            CharClass::Colon => c == ':',
            CharClass::NotNumeric => !numeric(c),
        }
    }

    /// Tests whether `c` is in the class.
    pub fn holds(self, c: char) -> (r: bool)
        ensures
            r == self.admits(c),
    {
        match self {
            CharClass::White => is_white_space(c),
            CharClass::Solid => !is_white_space(c),
            CharClass::LineFeed => c == '\n',
            CharClass::Colon => c == ':',
            CharClass::NotNumeric => !is_numeric(c),
        }
    }
}

/// Tests for white space.
pub fn is_white_space(c: char) -> (r: bool)
    ensures
        r == white_space(c),
{
    ('\u{9}' <= c && c <= '\u{d}') || c == '\u{20}' || c == '\u{85}' || c == '\u{a0}' || c
        == '\u{1680}' || ('\u{2000}' <= c && c <= '\u{200a}') || c == '\u{2028}' || c == '\u{2029}'
        || c == '\u{202f}' || c == '\u{205f}' || c == '\u{3000}'
}

/// Tests whether a character can stand in a written decimal number.
pub fn is_numeric(c: char) -> (r: bool)
    ensures
        r == numeric(c),
{
    ('0' <= c && c <= '9') || c == '.' || c == '-' || c == '+' || c == 'e' || c == 'E'
}

/// The least index at or after `i` whose character is in `class`; the length where there is none.
pub open spec fn find_from(s: Seq<char>, class: CharClass, i: int) -> int
    decreases s.len() - i,
{
    if i >= s.len() {
        s.len() as int
    } else if class.admits(s[i]) {
        i
    } else {
        find_from(s, class, i + 1)
    }
}

/// A search ends at the first character of the class, or at the end.
pub proof fn lemma_find_from(s: Seq<char>, class: CharClass, i: int)
    requires
        i <= s.len(),
    ensures
        i <= find_from(s, class, i) <= s.len(),
        forall|j: int| i <= j < find_from(s, class, i) ==> !class.admits(#[trigger] s[j]),
        find_from(s, class, i) < s.len() ==> class.admits(s[find_from(s, class, i)]),
    decreases s.len() - i,
{
    if i < s.len() && !class.admits(s[i]) {
        lemma_find_from(s, class, i + 1);
    }
}

/// The end of the text that is left when trailing white space is cut from `s.take(end)`.
pub open spec fn solid_end(s: Seq<char>, end: int) -> int
    decreases end,
{
    if end <= 0 {
        0
    } else if white_space(s[end - 1]) {
        solid_end(s, end - 1)
    } else {
        end
    }
}

/// `s` without leading and trailing white space.
pub open spec fn trimmed(s: Seq<char>) -> Seq<char> {
    let start = find_from(s, CharClass::Solid, 0);
    let end = solid_end(s, s.len() as int);
    if start < end {
        s.subrange(start, end)
    } else {
        Seq::empty()
    }
}

/// Whether `needle` stands in `hay` at index `i`.
pub open spec fn occurs_at(hay: Seq<char>, needle: Seq<char>, i: int) -> bool {
    0 <= i && i + needle.len() <= hay.len() && hay.subrange(i, i + needle.len()) == needle
}

/// Whether `needle` stands anywhere in `hay`.
pub open spec fn contains_text(hay: Seq<char>, needle: Seq<char>) -> bool {
    exists|i: int| #[trigger] occurs_at(hay, needle, i)
}

/// The least index at or after `i` at which `needle` stands in `hay`.
pub open spec fn find_text_from(hay: Seq<char>, needle: Seq<char>, i: int) -> Option<int>
    decreases hay.len() + 1 - i,
{
    if i + needle.len() > hay.len() {
        None
    } else if occurs_at(hay, needle, i) {
        Some(i)
    } else {
        find_text_from(hay, needle, i + 1)
    }
}

/// Whether `s` begins with `prefix`.
pub open spec fn starts_with(s: Seq<char>, prefix: Seq<char>) -> bool {
    occurs_at(s, prefix, 0)
}

/// The characters of a text.
pub fn chars_of(s: &str) -> (v: Vec<char>)
    ensures
        v@ == s@,
{
    let mut v: Vec<char> = Vec::new();
    for c in it: s.chars()
        invariant
            v@ == it.seq().take(it.index()),
            it.seq() == s@,
    {
        v.push(c);
    }
    assert(v@ == s@);
    v
}

/// Finds the first character of `class` at or after `from`.
pub fn find_class(s: &Vec<char>, class: CharClass, from: usize) -> (r: usize)
    requires
        from <= s@.len(),
    ensures
        r == find_from(s@, class, from as int),
        from <= r <= s@.len(),
{
    let mut i: usize = from;
    while i < s.len() && !class.holds(s[i])
        invariant
            from <= i <= s@.len(),
            find_from(s@, class, from as int) == find_from(s@, class, i as int),
        decreases s@.len() - i,
    {
        i = i + 1;
    }
    i
}

/// Finds the end of `s` without its trailing white space.
fn find_solid_end(s: &Vec<char>) -> (r: usize)
    ensures
        r == solid_end(s@, s@.len() as int),
        r <= s@.len(),
{
    let mut end: usize = s.len();
    while end > 0 && is_white_space(s[end - 1])
        invariant
            end <= s@.len(),
            solid_end(s@, s@.len() as int) == solid_end(s@, end as int),
        decreases end,
    {
        end = end - 1;
    }
    end
}

/// Cuts leading and trailing white space.
pub fn trim(s: &str) -> (r: &str)
    ensures
        r@ == trimmed(s@),
{
    let chars: Vec<char> = chars_of(s);
    let start: usize = find_class(&chars, CharClass::Solid, 0);
    let end: usize = find_solid_end(&chars);
    if start < end {
        s.substring_char(start, end)
    } else {
        let r: &str = s.substring_char(0, 0);
        assert(r@ == Seq::<char>::empty());
        r
    }
}

/// Tests whether `needle` stands in `hay` at index `at`.
fn stands_at(hay: &Vec<char>, needle: &Vec<char>, at: usize) -> (r: bool)
    ensures
        r == occurs_at(hay@, needle@, at as int),
{
    if needle.len() > hay.len() || at > hay.len() - needle.len() {
        return false;
    }
    let mut k: usize = 0;
    while k < needle.len()
        invariant
            k <= needle@.len(),
            at + needle@.len() <= hay@.len(),
            hay@.len() == hay.len(),
            forall|j: int| 0 <= j < k ==> hay@[at + j] == needle@[j],
        decreases needle@.len() - k,
    {
        if hay[at + k] != needle[k] {
            assert(hay@.subrange(at as int, at + needle@.len())[k as int] == hay@[at + k]);
            return false;
        }
        k = k + 1;
    }
    assert(hay@.subrange(at as int, at + needle@.len()) =~= needle@);
    true
}

/// Finds the first place at or after `from` at which `needle` stands in `hay`.
pub fn find_text(hay: &Vec<char>, needle: &Vec<char>, from: usize) -> (r: Option<usize>)
    requires
        from <= hay@.len(),
    ensures
        match r {
            Some(i) => find_text_from(hay@, needle@, from as int) == Some(i as int) && from <= i
                && i + needle@.len() <= hay@.len() <= usize::MAX,
            None => find_text_from(hay@, needle@, from as int) is None,
        },
{
    if needle.len() > hay.len() {
        return None;
    }
    let last: usize = hay.len() - needle.len();
    let mut i: usize = from;
    while i <= last
        invariant
            needle@.len() <= hay@.len(),
            last == hay@.len() - needle@.len(),
            from <= i <= hay@.len() + 1,
            last <= hay@.len(),
            hay@.len() == hay.len(),
            find_text_from(hay@, needle@, from as int) == find_text_from(hay@, needle@, i as int),
        decreases hay@.len() + 1 - i,
    {
        if stands_at(hay, needle, i) {
            return Some(i);
        }
        if i == last {
            assert(find_text_from(hay@, needle@, i + 1) is None);
            return None;
        }
        i = i + 1;
    }
    None
}

/// A search finds the first occurrence, and finds one where there is one.
pub proof fn lemma_find_text(hay: Seq<char>, needle: Seq<char>, i: int)
    requires
        0 <= i,
    ensures
        match find_text_from(hay, needle, i) {
            Some(k) => i <= k && occurs_at(hay, needle, k) && forall|j: int|
                i <= j < k ==> !#[trigger] occurs_at(hay, needle, j),
            None => forall|j: int| i <= j ==> !#[trigger] occurs_at(hay, needle, j),
        },
    decreases hay.len() + 1 - i,
{
    if i + needle.len() <= hay.len() && !occurs_at(hay, needle, i) {
        lemma_find_text(hay, needle, i + 1);
    }
}

/// What a text is put together from stands in it.
pub proof fn lemma_contains_part(before: Seq<char>, part: Seq<char>, after: Seq<char>)
    ensures
        contains_text(before + part + after, part),
{
    let whole = before + part + after;
    assert(whole.subrange(before.len() as int, (before.len() + part.len()) as int) =~= part);
    assert(occurs_at(whole, part, before.len() as int));
}

/// What stands in a part of a text stands in the text.
pub proof fn lemma_contains_within(hay: Seq<char>, middle: Seq<char>, needle: Seq<char>)
    requires
        contains_text(hay, middle),
        contains_text(middle, needle),
    ensures
        contains_text(hay, needle),
{
    let i = choose|i: int| #[trigger] occurs_at(hay, middle, i);
    let j = choose|j: int| #[trigger] occurs_at(middle, needle, j);
    assert(hay.subrange(i + j, i + j + needle.len()) =~= needle) by {
        assert(hay.subrange(i, i + middle.len()) =~= middle);
        assert(hay.subrange(i + j, i + j + needle.len()) =~= hay.subrange(
            i,
            i + middle.len(),
        ).subrange(j, j + needle.len()));
    }
    assert(occurs_at(hay, needle, i + j));
}

/// Tests whether `needle` stands anywhere in `hay`.
pub fn contains(hay: &str, needle: &str) -> (r: bool)
    ensures
        r == contains_text(hay@, needle@),
{
    let hay_chars: Vec<char> = chars_of(hay);
    let needle_chars: Vec<char> = chars_of(needle);
    proof {
        lemma_find_text(hay@, needle@, 0);
    }
    find_text(&hay_chars, &needle_chars, 0).is_some()
}

/// Tests whether `s` begins with `prefix`.
pub fn begins_with(s: &str, prefix: &str) -> (r: bool)
    ensures
        r == starts_with(s@, prefix@),
{
    let chars: Vec<char> = chars_of(s);
    let prefix_chars: Vec<char> = chars_of(prefix);
    stands_at(&chars, &prefix_chars, 0)
}

/// The line of `s` from `start` to the line feed at `end`, without a carriage return before it.
pub open spec fn ended_line(s: Seq<char>, start: int, end: int) -> Seq<char> {
    if start < end && s[end - 1] == '\r' {
        s.subrange(start, end - 1)
    } else {
        s.subrange(start, end)
    }
}

/// The lines of `s` from `start` on. A line feed ends a line, and a carriage return before it
/// belongs to the line's end; the last line needs no end.
pub open spec fn lines_from(s: Seq<char>, start: int) -> Seq<Seq<char>>
    decreases s.len() - start,
{
    let end = find_from(s, CharClass::LineFeed, start);
    if start >= s.len() {
        Seq::empty()
    } else if end >= s.len() {
        seq![s.subrange(start, s.len() as int)]
    } else {
        proof {
            lemma_find_from(s, CharClass::LineFeed, start);
        }
        seq![ended_line(s, start, end)] + lines_from(s, end + 1)
    }
}

/// The lines of a text.
pub open spec fn lines(s: Seq<char>) -> Seq<Seq<char>> {
    lines_from(s, 0)
}

/// The texts of a list of strings.
pub open spec fn texts(v: Seq<String>) -> Seq<Seq<char>> {
    Seq::new(v.len(), |i: int| v[i]@)
}

/// The texts of a list of string slices.
pub open spec fn slices(v: Seq<&str>) -> Seq<Seq<char>> {
    Seq::new(v.len(), |i: int| v[i]@)
}

/// Splits a text into its lines.
pub fn split_lines(s: &str) -> (r: Vec<&str>)
    ensures
        slices(r@) == lines(s@),
{
    let chars: Vec<char> = chars_of(s);
    let mut r: Vec<&str> = Vec::new();
    let mut start: usize = 0;
    assert(slices(r@) + lines_from(s@, 0) =~= lines(s@));
    while start < chars.len()
        invariant
            chars@ == s@,
            start <= chars@.len(),
            slices(r@) + lines_from(s@, start as int) == lines(s@),
        decreases chars@.len() - start,
    {
        let ghost before = slices(r@);
        let ghost rest = lines_from(s@, start as int);
        let end: usize = find_class(&chars, CharClass::LineFeed, start);
        if end == chars.len() {
            r.push(s.substring_char(start, end));
            assert(slices(r@) =~= before + rest);
            assert(lines_from(s@, end as int) =~= Seq::empty());
            assert(slices(r@) + lines_from(s@, end as int) =~= before + rest);
            start = end;
        } else {
            if start < end && chars[end - 1] == '\r' {
                r.push(s.substring_char(start, end - 1));
            } else {
                r.push(s.substring_char(start, end));
            }
            assert(slices(r@) =~= before.push(ended_line(s@, start as int, end as int)));
            assert(slices(r@) + lines_from(s@, end + 1) =~= before + rest);
            start = end + 1;
        }
    }
    assert(lines_from(s@, start as int) =~= Seq::empty());
    assert(slices(r@) =~= lines(s@));
    r
}

/// The first word of a line: its first run of characters that are not white space.
pub open spec fn first_word(line: Seq<char>) -> Option<Seq<char>> {
    let start = find_from(line, CharClass::Solid, 0);
    if start >= line.len() {
        None
    } else {
        Some(line.subrange(start, find_from(line, CharClass::White, start)))
    }
}

/// Cuts the first word out of a line.
pub fn cut_first_word(line: &str) -> (r: Option<&str>)
    ensures
        match r {
            Some(w) => first_word(line@) == Some(w@),
            None => first_word(line@) is None,
        },
{
    let chars: Vec<char> = chars_of(line);
    let start: usize = find_class(&chars, CharClass::Solid, 0);
    if start >= chars.len() {
        None
    } else {
        let end: usize = find_class(&chars, CharClass::White, start);
        Some(line.substring_char(start, end))
    }
}

/// The texts of `parts` one after the other, with `sep` between them.
pub open spec fn joined(parts: Seq<Seq<char>>, sep: Seq<char>) -> Seq<char>
    decreases parts.len(),
{
    if parts.len() == 0 {
        Seq::empty()
    } else if parts.len() == 1 {
        parts[0]
    } else {
        joined(parts.drop_last(), sep) + sep + parts.last()
    }
}

/// Every text that was joined stands in the result.
pub proof fn lemma_joined_contains(parts: Seq<Seq<char>>, sep: Seq<char>, i: int)
    requires
        0 <= i < parts.len(),
    ensures
        contains_text(joined(parts, sep), parts[i]),
    decreases parts.len(),
{
    let whole = joined(parts, sep);
    let empty = Seq::<char>::empty();
    if parts.len() == 1 {
        assert(empty + parts[0] + empty =~= whole);
        lemma_contains_part(empty, parts[0], empty);
    } else if i == parts.len() - 1 {
        let front = joined(parts.drop_last(), sep) + sep;
        assert(front + parts[i] + empty =~= whole);
        lemma_contains_part(front, parts[i], empty);
    } else {
        let front = joined(parts.drop_last(), sep);
        lemma_joined_contains(parts.drop_last(), sep, i);
        assert(empty + front + (sep + parts.last()) =~= whole);
        lemma_contains_part(empty, front, sep + parts.last());
        lemma_contains_within(whole, front, parts[i]);
    }
}

/// Joins texts.
pub fn join(parts: &Vec<String>, sep: &str) -> (r: String)
    ensures
        r@ == joined(texts(parts@), sep@),
{
    let mut r: String = String::new();
    let mut i: usize = 0;
    while i < parts.len()
        invariant
            i <= parts@.len(),
            r@ == joined(texts(parts@).take(i as int), sep@),
        decreases parts@.len() - i,
    {
        let ghost before = texts(parts@).take(i as int);
        let ghost after = texts(parts@).take(i + 1);
        assert(after.drop_last() =~= before);
        if i > 0 {
            r.append(sep);
        }
        r.append(parts[i].as_str());
        assert(r@ =~= joined(after, sep@));
        i = i + 1;
    }
    assert(texts(parts@).take(i as int) =~= texts(parts@));
    r
}

/// `head`, `subject`, a colon and a space, and `cause`.
pub open spec fn failure(head: Seq<char>, subject: Seq<char>, cause: Seq<char>) -> Seq<char> {
    head + subject + ": "@ + cause
}

/// Writes a failure message that names its subject.
pub(crate) fn failure_text(head: &str, subject: &str, cause: &str) -> (r: String)
    ensures
        r@ == failure(head@, subject@, cause@),
{
    let mut r: String = head.to_owned();
    r.append(subject);
    r.append(": ");
    r.append(cause);
    r
}

/// Writes `head` and `tail`.
pub(crate) fn concat_text(head: &str, tail: &str) -> (r: String)
    ensures
        r@ == head@ + tail@,
{
    let mut r: String = head.to_owned();
    r.append(tail);
    r
}

/// The character of a digit.
pub open spec fn digit(d: nat) -> char {
    (('0' as u8) + d) as char
}

/// `n` in decimal, without leading zeros.
pub open spec fn decimal(n: nat) -> Seq<char>
    decreases n,
{
    if n < 10 {
        seq![digit(n)]
    } else {
        decimal(n / 10).push(digit(n % 10))
    }
}

/// The text of one digit.
fn digit_text(d: u32) -> (r: &'static str)
    requires
        d < 10,
    ensures
        r@ == seq![digit(d as nat)],
{
    proof {
        reveal_strlit("0");
        reveal_strlit("1");
        reveal_strlit("2");
        reveal_strlit("3");
        reveal_strlit("4");
        reveal_strlit("5");
        reveal_strlit("6");
        reveal_strlit("7");
        reveal_strlit("8");
        reveal_strlit("9");
    }
    let r: &'static str = match d {
        0 => "0",
        1 => "1",
        2 => "2",
        3 => "3",
        4 => "4",
        5 => "5",
        6 => "6",
        7 => "7",
        8 => "8",
        _ => "9",
    };
    assert(r@ =~= seq![digit(d as nat)]);
    r
}

/// Writes a number in decimal.
pub fn decimal_text(n: u32) -> (r: String)
    ensures
        r@ == decimal(n as nat),
    decreases n,
{
    let mut r: String = if n < 10 {
        String::new()
    } else {
        decimal_text(n / 10)
    };
    let ghost before = r@;
    r.append(digit_text(n % 10));
    assert(r@ =~= before.push(digit((n % 10) as nat)));
    assert(r@ =~= decimal(n as nat));
    r
}

} // verus!
