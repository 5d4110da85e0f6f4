//! Character sequences: white space, lines, decimal numerals, and the bridges
//! between strings and characters.

use vstd::prelude::*;
use vstd::string::*;
use vstd::utf8::*;

verus! {

/// The characters with the Unicode property `White_Space`.
pub open spec fn is_space(c: char) -> bool {
    ||| '\u{9}' <= c <= '\u{d}'
    ||| c == '\u{20}'
    ||| c == '\u{85}'
    ||| c == '\u{a0}'
    ||| c == '\u{1680}'
    ||| '\u{2000}' <= c <= '\u{200a}'
    ||| c == '\u{2028}'
    ||| c == '\u{2029}'
    ||| c == '\u{202f}'
    ||| c == '\u{205f}'
    ||| c == '\u{3000}'
}

/// `s` without its leading white space.
pub open spec fn trim_start(s: Seq<char>) -> Seq<char>
    decreases s.len(),
{
    if s.len() > 0 && is_space(s.first()) {
        trim_start(s.drop_first())
    } else {
        s
    }
}

/// `s` without its trailing white space.
pub open spec fn trim_end(s: Seq<char>) -> Seq<char>
    decreases s.len(),
{
    if s.len() > 0 && is_space(s.last()) {
        trim_end(s.drop_last())
    } else {
        s
    }
}

/// `s` without its leading and trailing white space.
pub open spec fn trim(s: Seq<char>) -> Seq<char> {
    trim_end(trim_start(s))
}

/// The first position at or after `from` where `c` stands in `s`, or the length
/// of `s` where it stands at none.
pub open spec fn index_from(s: Seq<char>, c: char, from: int) -> int
    decreases s.len() - from,
{
    if from < 0 || from >= s.len() {
        s.len() as int
    } else if s[from] == c {
        from
    } else {
        index_from(s, c, from + 1)
    }
}

/// `s` without one trailing carriage return.
pub open spec fn strip_return(s: Seq<char>) -> Seq<char> {
    if s.len() > 0 && s.last() == '\r' {
        s.drop_last()
    } else {
        s
    }
}

/// The lines of `s`: each ends with a line feed, or with a carriage return and a
/// line feed, which are not part of it. The last line may lack its end.
pub open spec fn lines(s: Seq<char>) -> Seq<Seq<char>>
    decreases s.len(),
    via lines_decreases
{
    if s.len() == 0 {
        Seq::empty()
    } else {
        let end = index_from(s, '\n', 0);
        if end < s.len() {
            seq![strip_return(s.take(end))] + lines(s.skip(end + 1))
        } else {
            seq![s]
        }
    }
}

#[via_fn]
proof fn lines_decreases(s: Seq<char>) {
    lemma_index_from(s, '\n', 0);
}

/// `index_from` finds the first occurrence.
pub proof fn lemma_index_from(s: Seq<char>, c: char, from: int)
    requires
        0 <= from <= s.len(),
    ensures
        from <= index_from(s, c, from) <= s.len(),
        index_from(s, c, from) < s.len() ==> s[index_from(s, c, from)] == c,
        forall|i: int| from <= i < index_from(s, c, from) ==> s[i] != c,
    decreases s.len() - from,
{
    if from < s.len() && s[from] != c {
        lemma_index_from(s, c, from + 1);
    }
}

/// The character of a decimal digit.
pub open spec fn digit(d: int) -> char {
    if d == 0 {
        '0'
    } else if d == 1 {
        '1'
    } else if d == 2 {
        '2'
    } else if d == 3 {
        '3'
    } else if d == 4 {
        '4'
    } else if d == 5 {
        '5'
    } else if d == 6 {
        '6'
    } else if d == 7 {
        '7'
    } else if d == 8 {
        '8'
    } else {
        '9'
    }
}

/// The decimal numeral of `n`, without leading zeros.
pub open spec fn decimal(n: nat) -> Seq<char>
    decreases n,
{
    if n < 10 {
        seq![digit(n as int)]
    } else {
        decimal(n / 10).push(digit((n % 10) as int))
    }
}

/// What a text becomes in lower case under Unicode's mapping.
pub uninterp spec fn lowercased(text: Seq<char>) -> Seq<char>;

/// A character in lower case under ASCII's mapping.
pub open spec fn ascii_lower(c: char) -> char {
    if 'A' <= c <= 'Z' {
        ((c as u32) + 32) as char
    } else {
        c
    }
}

/// Calls `str::to_lowercase`. The outcome is a function of the text; on ASCII
/// text it maps the letters `A` to `Z` and leaves the rest.
#[verifier::external_body]
pub(crate) fn to_lowercase(text: &str) -> (lower: String)
    ensures
        lower@ == lowercased(text@),
        is_ascii_chars(text@) ==> lower@ == text@.map_values(|c: char| ascii_lower(c)),
{
    text.to_lowercase()
}

/// The text that bytes stand for when what is not UTF-8 in them is replaced.
pub uninterp spec fn lossy_text(bytes: Seq<u8>) -> Seq<char>;

/// Calls `String::from_utf8_lossy`. The outcome is a function of the bytes; bytes
/// that are valid UTF-8 stand for the text that they encode.
#[verifier::external_body]
pub(crate) fn from_utf8_lossy(bytes: &[u8]) -> (text: String)
    ensures
        text@ == lossy_text(bytes@),
        valid_utf8(bytes@) ==> text@ == decode_utf8(bytes@),
{
    String::from_utf8_lossy(bytes).into_owned()
}

/// `String::push` appends one character.
pub assume_specification[ String::push ](string: &mut String, c: char)
    ensures
        final(string)@ == old(string)@.push(c),
;

/// The view of an optional string.
pub open spec fn option_view(text: Option<String>) -> Option<Seq<char>> {
    match text {
        Some(t) => Some(t@),
        None => None,
    }
}

/// The characters of `text`.
pub fn chars_of(text: &str) -> (chars: Vec<char>)
    ensures
        chars@ == text@,
{
    let mut chars: Vec<char> = Vec::new();
    for c in iter: text.chars()
        invariant
            iter.seq() == text@,
            chars@ == iter.seq().take(iter.index() as int),
    {
        chars.push(c);
    }
    chars
}

/// The string of these characters.
pub fn string_of(chars: &[char]) -> (text: String)
    ensures
        text@ == chars@,
{
    let mut text = String::new();
    let mut i: usize = 0;
    while i < chars.len()
        invariant
            i <= chars@.len(),
            text@ == chars@.take(i as int),
        decreases chars@.len() - i,
    {
        text.push(chars[i]);
        assert(chars@.take(i + 1) == chars@.take(i as int).push(chars@[i as int]));
        i = i + 1;
    }
    text
}

/// Whether two texts are the same.
pub fn same(a: &str, b: &str) -> (equal: bool)
    ensures
        equal == (a@ == b@),
{
    a.to_owned() == b.to_owned()
}

/// Whether `c` is white space.
pub fn is_white_space(c: char) -> (white: bool)
    ensures
        white == is_space(c),
{
    ('\u{9}' <= c && c <= '\u{d}') || c == '\u{20}' || c == '\u{85}' || c == '\u{a0}' || c
        == '\u{1680}' || ('\u{2000}' <= c && c <= '\u{200a}') || c == '\u{2028}' || c == '\u{2029}'
        || c == '\u{202f}' || c == '\u{205f}' || c == '\u{3000}'
}

/// A trimmed text neither begins nor ends with white space.
pub proof fn lemma_trim_ends(s: Seq<char>)
    ensures
        trim(s).len() > 0 ==> !is_space(trim(s).first()) && !is_space(trim(s).last()),
{
    lemma_trim_start(s);
    lemma_trim_end(trim_start(s));
}

proof fn lemma_trim_start(s: Seq<char>)
    ensures
        trim_start(s).len() > 0 ==> !is_space(trim_start(s).first()),
    decreases s.len(),
{
    if s.len() > 0 && is_space(s.first()) {
        lemma_trim_start(s.drop_first());
    }
}

proof fn lemma_trim_end(s: Seq<char>)
    ensures
        trim_end(s).len() <= s.len(),
        trim_end(s) == s.take(trim_end(s).len() as int),
        trim_end(s).len() > 0 ==> !is_space(trim_end(s).last()),
    decreases s.len(),
{
    if s.len() > 0 && is_space(s.last()) {
        lemma_trim_end(s.drop_last());
        assert(s.drop_last().take(trim_end(s).len() as int) == s.take(trim_end(s).len() as int));
    }
}

/// The part of `s` without leading and trailing white space.
pub fn trimmed(s: &[char]) -> (part: &[char])
    ensures
        part@ == trim(s@),
{
    let mut start: usize = 0;
    assert(s@.skip(0) == s@);
    while start < s.len() && is_white_space(s[start])
        invariant
            start <= s@.len(),
            trim_start(s@) == trim_start(s@.skip(start as int)),
        decreases s@.len() - start,
    {
        assert(s@.skip(start as int).drop_first() == s@.skip(start + 1));
        start = start + 1;
    }
    let ghost body = s@.skip(start as int);
    assert(trim_start(s@) == body);
    let mut end: usize = s.len();
    assert(s@.subrange(start as int, end as int) == body);
    while start < end && is_white_space(s[end - 1])
        invariant
            start <= end <= s@.len(),
            trim_end(body) == trim_end(s@.subrange(start as int, end as int)),
        decreases end - start,
    {
        assert(s@.subrange(start as int, end as int).drop_last() == s@.subrange(
            start as int,
            end - 1,
        ));
        end = end - 1;
    }
    vstd::slice::slice_subrange(s, start, end)
}

/// `text` without leading and trailing white space.
pub fn trim_text(text: &str) -> (part: String)
    ensures
        part@ == trim(text@),
{
    let chars = chars_of(text);
    string_of(trimmed(chars.as_slice()))
}

/// The decimal numeral of `n`.
pub fn decimal_of(n: u32) -> (numeral: String)
    ensures
        numeral@ == decimal(n as nat),
    decreases n,
{
    let d: u32 = n % 10;
    let mut numeral = if n < 10 {
        String::new()
    } else {
        decimal_of(n / 10)
    };
    let c = if d == 0 {
        '0'
    } else if d == 1 {
        '1'
    } else if d == 2 {
        '2'
    } else if d == 3 {
        '3'
    } else if d == 4 {
        '4'
    } else if d == 5 {
        '5'
    } else if d == 6 {
        '6'
    } else if d == 7 {
        '7'
    } else if d == 8 {
        '8'
    } else {
        '9'
    };
    numeral.push(c);
    numeral
}

/// The lines of `s`.
pub fn split_lines(s: &[char]) -> (split: Vec<Vec<char>>)
    ensures
        split@.map_values(|line: Vec<char>| line@) == lines(s@),
{
    let mut split: Vec<Vec<char>> = Vec::new();
    let mut start: usize = 0;
    assert(s@.skip(0) == s@);
    assert(split@.map_values(|line: Vec<char>| line@) + lines(s@) =~= lines(s@));
    while start < s.len()
        invariant
            start <= s@.len(),
            split@.map_values(|line: Vec<char>| line@) + lines(s@.skip(start as int)) =~= lines(s@),
        decreases s@.len() - start,
    {
        let ghost rest = s@.skip(start as int);
        let mut end: usize = start;
        while end < s.len() && s[end] != '\n'
            invariant
                start <= end <= s@.len(),
                rest == s@.skip(start as int),
                index_from(rest, '\n', 0) == index_from(rest, '\n', end - start),
            decreases s@.len() - end,
        {
            end = end + 1;
        }
        let mut stop: usize = end;
        if end < s.len() && start < end && s[end - 1] == '\r' {
            stop = end - 1;
        }
        let line = vstd::slice::slice_to_vec(vstd::slice::slice_subrange(s, start, stop));
        let next: usize = if end < s.len() {
            end + 1
        } else {
            end
        };
        proof {
            let before = split@.map_values(|line: Vec<char>| line@);
            if end < s@.len() {
                assert(line@ =~= strip_return(rest.take(end - start)));
                assert(rest.skip(end - start + 1) =~= s@.skip(next as int));
            } else {
                assert(line@ =~= rest);
                assert(s@.skip(next as int) =~= Seq::<char>::empty());
            }
            assert(lines(rest) =~= seq![line@] + lines(s@.skip(next as int)));
            assert(split@.push(line).map_values(|line: Vec<char>| line@) =~= before.push(line@));
            assert(before.push(line@) + lines(s@.skip(next as int)) =~= before + lines(rest));
        }
        split.push(line);
        start = next;
    }
    assert(s@.skip(start as int) =~= Seq::<char>::empty());
    assert(lines(s@.skip(start as int)) =~= Seq::<Seq<char>>::empty());
    split
}

proof fn lemma_trim_start_of_space(before: Seq<char>, rest: Seq<char>)
    requires
        forall|i: int| 0 <= i < before.len() ==> is_space(#[trigger] before[i]),
    ensures
        trim_start(before + rest) == trim_start(rest),
    decreases before.len(),
{
    if before.len() == 0 {
        assert(before + rest =~= rest);
    } else {
        let less = before.drop_first();
        assert forall|i: int| 0 <= i < less.len() implies is_space(#[trigger] less[i]) by {
            assert(less[i] == before[i + 1]);
        }
        lemma_trim_start_of_space(less, rest);
        assert((before + rest).first() == before[0]);
        assert((before + rest).drop_first() =~= less + rest);
    }
}

proof fn lemma_trim_end_of_space(rest: Seq<char>, after: Seq<char>)
    requires
        forall|i: int| 0 <= i < after.len() ==> is_space(#[trigger] after[i]),
    ensures
        trim_end(rest + after) == trim_end(rest),
    decreases after.len(),
{
    if after.len() == 0 {
        assert(rest + after =~= rest);
    } else {
        let less = after.drop_last();
        assert forall|i: int| 0 <= i < less.len() implies is_space(#[trigger] less[i]) by {
            assert(less[i] == after[i]);
        }
        lemma_trim_end_of_space(rest, less);
        assert((rest + after).last() == after[after.len() - 1]);
        assert((rest + after).drop_last() =~= rest + less);
    }
}

/// Trimming drops the white space at both ends, all of it, and nothing else: what
/// stands between is left as it is, white space inside it included.
pub proof fn law_trim_keeps_what_stands_between(
    before: Seq<char>,
    core: Seq<char>,
    after: Seq<char>,
)
    requires
        forall|i: int| 0 <= i < before.len() ==> is_space(#[trigger] before[i]),
        forall|i: int| 0 <= i < after.len() ==> is_space(#[trigger] after[i]),
        core.len() > 0 ==> !is_space(core[0]) && !is_space(core[core.len() - 1]),
    ensures
        trim(before + core + after) == core,
{
    assert(before + core + after =~= before + (core + after));
    lemma_trim_start_of_space(before, core + after);
    if core.len() == 0 {
        lemma_trim_start_of_space(after, core);
        assert(core + after =~= after + core);
        assert(trim_start(core) == core);
        assert(trim_end(core) == core);
    } else {
        assert((core + after).first() == core[0]);
        assert(trim_start(core + after) == core + after);
        lemma_trim_end_of_space(core, after);
        assert(core.last() == core[core.len() - 1]);
        assert(trim_end(core) == core);
    }
}

/// A text is cut into lines at its line feeds. The line feed is dropped, and one
/// carriage return before it; all else is kept. A last line needs no line feed.
pub proof fn law_lines_are_cut_at_line_feeds(line: Seq<char>, rest: Seq<char>)
    requires
        forall|i: int| 0 <= i < line.len() ==> #[trigger] line[i] != '\n',
    ensures
        lines(line.push('\n') + rest).len() == lines(rest).len() + 1,
        lines(line.push('\n') + rest).skip(1) == lines(rest),
        line.len() > 0 && line[line.len() - 1] == '\r' ==> lines(line.push('\n') + rest)[0]
            == line.take(line.len() - 1),
        !(line.len() > 0 && line[line.len() - 1] == '\r') ==> lines(line.push('\n') + rest)[0]
            == line,
        line.len() > 0 ==> lines(line) == seq![line],
        line.len() == 0 ==> lines(line) == Seq::<Seq<char>>::empty(),
{
    let s = line.push('\n') + rest;
    let n = line.len() as int;
    assert(s[n] == '\n');
    lemma_index_from(s, '\n', 0);
    let end = index_from(s, '\n', 0);
    if end < n {
        assert(s[end] == line[end]);
    }
    assert(end == n);
    assert(s.take(end) =~= line);
    assert(s.skip(end + 1) =~= rest);
    assert(line.len() > 0 ==> line.drop_last() =~= line.take(n - 1));
    assert(lines(s).skip(1) =~= lines(rest));
    lemma_index_from(line, '\n', 0);
}

/// The number that a numeral stands for.
pub open spec fn value_of(numeral: Seq<char>) -> int
    decreases numeral.len(),
{
    if numeral.len() == 0 {
        0
    } else {
        10 * value_of(numeral.drop_last()) + (numeral.last() as u32 - '0' as u32)
    }
}

/// A numeral stands for its number: it is made of digits, without leading zeros.
pub proof fn law_numerals_are_read_back(n: nat)
    ensures
        value_of(decimal(n)) == n,
        decimal(n).len() > 0,
        forall|i: int| 0 <= i < decimal(n).len() ==> '0' <= #[trigger] decimal(n)[i] <= '9',
        n > 0 ==> decimal(n)[0] != '0',
        n == 0 ==> decimal(n).len() == 1,
    decreases n,
{
    if n < 10 {
        reveal_with_fuel(value_of, 2);
        assert(decimal(n).drop_last() =~= Seq::<char>::empty());
    } else {
        law_numerals_are_read_back(n / 10);
        assert(decimal(n).drop_last() =~= decimal(n / 10));
        assert(decimal(n)[0] == decimal(n / 10)[0]);
    }
}

/// The model of an optional string holds its text, character for character.
pub proof fn law_optional_text_is_verbatim(text: String)
    ensures
        option_view(Some(text)) == Some(text@),
        option_view(None) is None,
{
}

} // verus!
