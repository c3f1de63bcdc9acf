//! Text primitives shared by the transforms: white space, trimming, decimal
//! numerals and the visible form of tabs.

use vstd::prelude::*;
use vstd::string::*;

verus! {

/// The text held by an optional string.
pub open spec fn text_of(line: Option<String>) -> Option<Seq<char>> {
    match line {
        Some(s) => Some(s@),
        None => None,
    }
}

/// The characters that Unicode classes as White_Space.
pub open spec fn is_white_space(c: char) -> bool {
    let u = c as u32;
    ||| 0x09 <= u <= 0x0D
    ||| u == 0x20
    ||| u == 0x85
    ||| u == 0xA0
    ||| u == 0x1680
    ||| 0x2000 <= u <= 0x200A
    ||| u == 0x2028
    ||| u == 0x2029
    ||| u == 0x202F
    ||| u == 0x205F
    ||| u == 0x3000
}

/// Whether `c` is white space.
pub fn white_space(c: char) -> (yes: bool)
    ensures
        yes == is_white_space(c),
{
    let u: u32 = c as u32;
    (0x09 <= u && u <= 0x0D) || u == 0x20 || u == 0x85 || u == 0xA0 || u == 0x1680 || (0x2000 <= u
        && u <= 0x200A) || u == 0x2028 || u == 0x2029 || u == 0x202F || u == 0x205F || u == 0x3000
}

/// A line is blank when it holds nothing but white space.
pub open spec fn is_blank(line: Seq<char>) -> bool {
    forall|i: int| 0 <= i < line.len() ==> is_white_space(#[trigger] line[i])
}

/// Whether `line` is blank, that is, empty once trimmed.
pub fn blank(line: &str) -> (yes: bool)
    ensures
        yes == is_blank(line@),
{
    let mut yes = true;
    for c in it: line.chars()
        invariant
            it.seq() == line@,
            yes == is_blank(line@.take(it.index() as int)),
    {
        let ghost before = line@.take(it.index() as int);
        let ghost after = line@.take(it.index() as int + 1);
        let space = white_space(c);
        proof {
            assert(after.drop_last() == before);
            assert(after.last() == c);
            if yes && space {
                assert forall|i: int| 0 <= i < after.len() implies is_white_space(
                    #[trigger] after[i],
                ) by {
                    if i < before.len() {
                        assert(after[i] == before[i]);
                    }
                }
            } else if yes {
                assert(!is_white_space(after[after.len() - 1]));
            } else {
                let bad = choose|i: int| 0 <= i < before.len() && !is_white_space(before[i]);
                assert(after[bad] == before[bad]);
            }
        }
        yes = yes && space;
    }
    assert(line@.take(line@.len() as int) == line@);
    yes
}

/// `text` without its leading white space.
pub open spec fn trim_start(text: Seq<char>) -> Seq<char>
    decreases text.len(),
{
    if text.len() > 0 && is_white_space(text[0]) {
        trim_start(text.drop_first())
    } else {
        text
    }
}

/// `text` without its trailing white space.
pub open spec fn trim_end(text: Seq<char>) -> Seq<char>
    decreases text.len(),
{
    if text.len() > 0 && is_white_space(text.last()) {
        trim_end(text.drop_last())
    } else {
        text
    }
}

/// `text` without the white space at either end.
pub open spec fn trimmed(text: Seq<char>) -> Seq<char> {
    trim_end(trim_start(text))
}

/// Trimming at the front drops exactly the leading run of white space.
pub proof fn lemma_trim_start_is_skip(text: Seq<char>, k: int)
    requires
        0 <= k <= text.len(),
        forall|i: int| 0 <= i < k ==> is_white_space(#[trigger] text[i]),
        k == text.len() || !is_white_space(text[k]),
    ensures
        trim_start(text) == text.skip(k),
    decreases k,
{
    if k == 0 {
        assert(text.skip(0) == text);
    } else {
        let rest = text.drop_first();
        assert forall|i: int| 0 <= i < k - 1 implies is_white_space(#[trigger] rest[i]) by {
            assert(rest[i] == text[i + 1]);
        }
        lemma_trim_start_is_skip(rest, k - 1);
        assert(rest.skip(k - 1) == text.skip(k));
    }
}

/// Trimming at the back keeps exactly what precedes the trailing run of white
/// space.
pub proof fn lemma_trim_end_is_take(text: Seq<char>, k: int)
    requires
        0 <= k <= text.len(),
        forall|i: int| k <= i < text.len() ==> is_white_space(#[trigger] text[i]),
        k == 0 || !is_white_space(text[k - 1]),
    ensures
        trim_end(text) == text.take(k),
    decreases text.len() - k,
{
    if k == text.len() {
        assert(text.take(k) == text);
    } else {
        let rest = text.drop_last();
        assert forall|i: int| k <= i < rest.len() implies is_white_space(#[trigger] rest[i]) by {
            assert(rest[i] == text[i]);
        }
        lemma_trim_end_is_take(rest, k);
        assert(rest.take(k) == text.take(k));
    }
}

/// How much trimming at the front removes: the length of the leading run of
/// white space.
pub proof fn lemma_trim_start_shape(text: Seq<char>) -> (k: int)
    ensures
        0 <= k <= text.len(),
        forall|i: int| 0 <= i < k ==> is_white_space(#[trigger] text[i]),
        k == text.len() || !is_white_space(text[k]),
        trim_start(text) == text.skip(k),
    decreases text.len(),
{
    if text.len() > 0 && is_white_space(text[0]) {
        let rest = text.drop_first();
        let inner = lemma_trim_start_shape(rest);
        let k = inner + 1;
        assert forall|i: int| 0 <= i < k implies is_white_space(#[trigger] text[i]) by {
            if i > 0 {
                assert(text[i] == rest[i - 1]);
            }
        }
        assert(rest.skip(inner) == text.skip(k));
        if k < text.len() {
            assert(text[k] == rest[inner]);
        }
        k
    } else {
        assert(text.skip(0) == text);
        0
    }
}

/// How much trimming at the back keeps: everything up to the trailing run of
/// white space.
pub proof fn lemma_trim_end_shape(text: Seq<char>) -> (k: int)
    ensures
        0 <= k <= text.len(),
        forall|i: int| k <= i < text.len() ==> is_white_space(#[trigger] text[i]),
        k == 0 || !is_white_space(text[k - 1]),
        trim_end(text) == text.take(k),
    decreases text.len(),
{
    if text.len() > 0 && is_white_space(text.last()) {
        let rest = text.drop_last();
        let k = lemma_trim_end_shape(rest);
        assert forall|i: int| k <= i < text.len() implies is_white_space(#[trigger] text[i]) by {
            if i < rest.len() {
                assert(text[i] == rest[i]);
            }
        }
        assert(rest.take(k) == text.take(k));
        if k > 0 {
            assert(text[k - 1] == rest[k - 1]);
        }
        k
    } else {
        assert(text.take(text.len() as int) == text);
        text.len() as int
    }
}

/// A line is blank exactly when nothing is left of it after trimming.
pub proof fn lemma_blank_is_empty_after_trimming(line: Seq<char>)
    ensures
        is_blank(line) <==> trimmed(line).len() == 0,
{
    let start = lemma_trim_start_shape(line);
    let front = line.skip(start);
    let end = lemma_trim_end_shape(front);
    if is_blank(line) {
        if start < line.len() {
            assert(is_white_space(line[start]));
        }
    }
    if trimmed(line).len() == 0 {
        if start < line.len() {
            assert(front[0] == line[start]);
            assert(is_white_space(front[0]));
        }
        assert forall|i: int| 0 <= i < line.len() implies is_white_space(#[trigger] line[i]) by {}
    }
}

/// What is left after trimming neither starts nor ends with white space.
pub proof fn lemma_trimmed_has_no_outer_space(text: Seq<char>)
    ensures
        trimmed(text).len() > 0 ==> !is_white_space(trimmed(text)[0]) && !is_white_space(
            trimmed(text).last(),
        ),
{
    let start = lemma_trim_start_shape(text);
    let front = text.skip(start);
    let end = lemma_trim_end_shape(front);
    if trimmed(text).len() > 0 {
        assert(front.take(end)[0] == front[0]);
        assert(front[0] == text[start]);
        assert(front.take(end).last() == front[end - 1]);
    }
}

/// `text` with the white space at both ends removed.
pub fn trim(text: &str) -> (kept: &str)
    ensures
        kept@ == trimmed(text@),
{
    let total: usize = text.unicode_len();
    let mut seen: usize = 0;
    let mut start: usize = 0;
    let mut end: usize = 0;
    let mut found = false;
    for c in it: text.chars()
        invariant
            it.seq() == text@,
            total == text@.len(),
            seen == it.index(),
            start <= end <= seen,
            !found ==> start == 0 && end == 0,
            !found ==> forall|i: int| 0 <= i < seen ==> is_white_space(#[trigger] text@[i]),
            found ==> start < end,
            found ==> forall|i: int| 0 <= i < start ==> is_white_space(#[trigger] text@[i]),
            found ==> !is_white_space(text@[start as int]),
            found ==> !is_white_space(text@[end - 1]),
            found ==> forall|i: int| end <= i < seen ==> is_white_space(#[trigger] text@[i]),
    {
        let space = white_space(c);
        if !space {
            if !found {
                start = seen;
                found = true;
            }
            end = seen + 1;
        }
        seen = seen + 1;
    }
    proof {
        let s = text@;
        if found {
            lemma_trim_start_is_skip(s, start as int);
            let front = s.skip(start as int);
            assert forall|i: int| end - start <= i < front.len() implies is_white_space(
                #[trigger] front[i],
            ) by {
                assert(front[i] == s[i + start]);
            }
            assert(front[end - start - 1] == s[end - 1]);
            lemma_trim_end_is_take(front, end - start);
            assert(front.take(end - start) == s.subrange(start as int, end as int));
        } else {
            lemma_trim_start_is_skip(s, s.len() as int);
            lemma_trim_end_is_take(s.skip(s.len() as int), 0);
            assert(s.skip(s.len() as int).take(0) == s.subrange(0, 0));
        }
    }
    text.substring_char(start, end)
}

/// The character that writes the digit `d`.
pub open spec fn digit(d: nat) -> char {
    if d == 0 {
        '0'
    } else if d == 1 {
        '1'
    } else if d == 2 {
        '2'
    } else if d == 3 {
        '3'
    } else if d == 4 {
        '4'
    } else if d == 5 {
        '5'
    } else if d == 6 {
        '6'
    } else if d == 7 {
        '7'
    } else if d == 8 {
        '8'
    } else {
        '9'
    }
}

/// The decimal numeral of `n`, without leading zeros.
pub open spec fn decimal(n: nat) -> Seq<char>
    decreases n,
{
    if n < 10 {
        seq![digit(n)]
    } else {
        decimal(n / 10).push(digit(n % 10))
    }
}

/// The character that writes the digit `d`.
pub fn digit_char(d: usize) -> (c: char)
    requires
        d < 10,
    ensures
        c == digit(d as nat),
{
    if d == 0 {
        '0'
    } else if d == 1 {
        '1'
    } else if d == 2 {
        '2'
    } else if d == 3 {
        '3'
    } else if d == 4 {
        '4'
    } else if d == 5 {
        '5'
    } else if d == 6 {
        '6'
    } else if d == 7 {
        '7'
    } else if d == 8 {
        '8'
    } else {
        '9'
    }
}

/// `String::push` of std: appends one character to the end of the string.
#[verifier::external_body]
pub(crate) fn push_char(target: &mut String, c: char)
    ensures
        final(target)@ == old(target)@.push(c),
{
    target.push(c);
}

/// The decimal numeral of `n`.
pub fn decimal_string(n: usize) -> (numeral: String)
    ensures
        numeral@ == decimal(n as nat),
    decreases n,
{
    if n < 10 {
        let mut numeral = String::new();
        push_char(&mut numeral, digit_char(n));
        assert(numeral@ == seq![digit(n as nat)]);
        numeral
    } else {
        let mut numeral = decimal_string(n / 10);
        push_char(&mut numeral, digit_char(n % 10));
        numeral
    }
}

/// How one character is written when tabs are made visible.
pub open spec fn tab_image(c: char) -> Seq<char> {
    if c == '\t' {
        seq!['^', 'I']
    } else {
        seq![c]
    }
}

/// `line` with every horizontal tab written as `^I`.
pub open spec fn tabs_shown(line: Seq<char>) -> Seq<char>
    decreases line.len(),
{
    if line.len() == 0 {
        line
    } else {
        tabs_shown(line.drop_last()) + tab_image(line.last())
    }
}

/// `line` with every horizontal tab written as `^I`; nothing else changes.
pub fn show_tabs(line: &str) -> (shown: String)
    ensures
        shown@ == tabs_shown(line@),
{
    let mut shown = String::new();
    for c in it: line.chars()
        invariant
            it.seq() == line@,
            shown@ == tabs_shown(line@.take(it.index() as int)),
    {
        proof {
            let after = line@.take(it.index() as int + 1);
            assert(after.drop_last() == line@.take(it.index() as int));
            assert(after.last() == c);
        }
        if c == '\t' {
            push_char(&mut shown, '^');
            push_char(&mut shown, 'I');
        } else {
            push_char(&mut shown, c);
        }
    }
    assert(line@.take(line@.len() as int) == line@);
    shown
}

/// No tab is left in the visible form of a line.
pub proof fn lemma_tabs_shown_has_no_tab(line: Seq<char>)
    ensures
        forall|i: int| 0 <= i < tabs_shown(line).len() ==> tabs_shown(line)[i] != '\t',
    decreases line.len(),
{
    if line.len() > 0 {
        lemma_tabs_shown_has_no_tab(line.drop_last());
        let front = tabs_shown(line.drop_last());
        let shown = tabs_shown(line);
        assert forall|i: int| 0 <= i < shown.len() implies shown[i] != '\t' by {
            if i < front.len() {
                assert(shown[i] == front[i]);
            } else {
                assert(shown[i] == tab_image(line.last())[i - front.len()]);
            }
        }
    }
}

/// A line without tabs is its own visible form.
pub proof fn lemma_tabs_shown_without_tabs(line: Seq<char>)
    requires
        forall|i: int| 0 <= i < line.len() ==> line[i] != '\t',
    ensures
        tabs_shown(line) == line,
    decreases line.len(),
{
    if line.len() > 0 {
        lemma_tabs_shown_without_tabs(line.drop_last());
        assert(line.drop_last().push(line.last()) == line);
    }
}

} // verus!
