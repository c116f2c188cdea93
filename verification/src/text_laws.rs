//! What the operations on text mean, stated over the characters themselves.

use vstd::prelude::*;

use crate::numeral;
use crate::text;

verus! {

/// Which characters are white space: exactly those of the Unicode property.
pub proof fn white_space_is_unicode_white_space(c: char)
    ensures
        text::is_whitespace(c) <==> ({
            let n = c as u32;
            9 <= n <= 13 || n == 32 || n == 133 || n == 160 || n == 5760 || 8192 <= n <= 8202
                || n == 8232 || n == 8233 || n == 8239 || n == 8287 || n == 12288
        }),
{
}

/// Which characters are control characters: those below the space, and those
/// from 127 to 159.
pub proof fn control_characters_are_cc(c: char)
    ensures
        text::is_control(c) <==> (c as u32) < 32 || 127 <= c as u32 <= 159,
{
}

/// A text has a control character exactly where one of its characters is one.
pub proof fn control_characters_are_found(s: Seq<char>)
    ensures
        text::has_control(s) <==> exists|i: int|
            0 <= i < s.len() && ((#[trigger] s[i]) as u32 <= 31 || 127 <= s[i] as u32 <= 159),
{
    if text::has_control(s) {
        let i = choose|i: int| 0 <= i < s.len() && text::is_control(#[trigger] s[i]);
        control_characters_are_cc(s[i]);
    }
    if exists|i: int|
        0 <= i < s.len() && ((#[trigger] s[i]) as u32 <= 31 || 127 <= s[i] as u32 <= 159) {
        let i = choose|i: int|
            0 <= i < s.len() && ((#[trigger] s[i]) as u32 <= 31 || 127 <= s[i] as u32 <= 159);
        control_characters_are_cc(s[i]);
    }
}

/// Digits and letters of ASCII.
pub proof fn ascii_letters_and_digits(c: char)
    ensures
        text::is_ascii_digit(c) <==> 48 <= c as u32 <= 57,
        text::is_ascii_alphanumeric(c) <==> 48 <= c as u32 <= 57 || 65 <= c as u32 <= 90 || 97
            <= c as u32 <= 122,
{
}

/// Lowering changes the capital letters of ASCII to the small ones, and nothing
/// else.
pub proof fn lowering_changes_ascii_capitals(s: Seq<char>)
    ensures
        text::lowered(s).len() == s.len(),
        forall|i: int|
            0 <= i < s.len() ==> (#[trigger] text::lowered(s)[i]) as u32 == if 65 <= s[i] as u32
                <= 90 {
                s[i] as u32 + 32
            } else {
                s[i] as u32 as int
            },
{
    assert forall|i: int| 0 <= i < s.len() implies (#[trigger] text::lowered(s)[i]) as u32 == if 65
        <= s[i] as u32 <= 90 {
        s[i] as u32 + 32
    } else {
        s[i] as u32 as int
    } by {
        let c = s[i];
        if 'A' <= c <= 'Z' {
            let n = c as u8;
            assert(65 <= n <= 90);
            assert(text::ascii_lower(c) == ((n + 32) as u8) as char);
        }
    }
}

/// Replacing one character by another keeps the length and every other
/// character.
pub proof fn replacing_changes_one_character(s: Seq<char>, from: char, to: char)
    ensures
        text::replaced(s, from, to).len() == s.len(),
        forall|i: int|
            0 <= i < s.len() && s[i] == from ==> (#[trigger] text::replaced(s, from, to)[i]) == to,
        forall|i: int|
            0 <= i < s.len() && s[i] != from ==> (#[trigger] text::replaced(s, from, to)[i])
                == s[i],
{
}

proof fn start_is_dropped(s: Seq<char>) -> (a: int)
    ensures
        0 <= a <= s.len(),
        text::trimmed_start(s) == s.subrange(a, s.len() as int),
        forall|i: int| 0 <= i < a ==> text::is_whitespace(#[trigger] s[i]),
        a < s.len() ==> !text::is_whitespace(s[a]),
    decreases s.len(),
{
    if s.len() > 0 && text::is_whitespace(s[0]) {
        let rest = s.drop_first();
        let b = start_is_dropped(rest);
        assert forall|i: int| 0 <= i < b + 1 implies text::is_whitespace(#[trigger] s[i]) by {
            if i > 0 {
                assert(rest[i - 1] == s[i]);
            }
        }
        assert(rest.subrange(b, rest.len() as int) =~= s.subrange(b + 1, s.len() as int));
        b + 1
    } else {
        assert(s.subrange(0, s.len() as int) =~= s);
        0
    }
}

proof fn end_is_dropped(s: Seq<char>) -> (b: int)
    ensures
        0 <= b <= s.len(),
        text::trimmed_end(s) == s.subrange(0, b),
        forall|i: int| b <= i < s.len() ==> text::is_whitespace(#[trigger] s[i]),
        b > 0 ==> !text::is_whitespace(s[b - 1]),
    decreases s.len(),
{
    if s.len() > 0 && text::is_whitespace(s.last()) {
        let rest = s.drop_last();
        let b = end_is_dropped(rest);
        assert forall|i: int| b <= i < s.len() implies text::is_whitespace(#[trigger] s[i]) by {
            if i < rest.len() {
                assert(rest[i] == s[i]);
            }
        }
        assert(rest.subrange(0, b) =~= s.subrange(0, b));
        b
    } else {
        assert(s.subrange(0, s.len() as int) =~= s);
        s.len() as int
    }
}

/// Trimming leaves one run of a text, with white space alone before and behind
/// it and none at its ends.
pub proof fn trimming_drops_white_space_alone(s: Seq<char>)
    ensures
        exists|a: int, b: int|
            {
                &&& 0 <= a <= b <= s.len()
                &&& text::trimmed(s) == #[trigger] s.subrange(a, b)
                &&& forall|i: int| 0 <= i < a ==> text::is_whitespace(#[trigger] s[i])
                &&& forall|i: int| b <= i < s.len() ==> text::is_whitespace(#[trigger] s[i])
                &&& a < b ==> !text::is_whitespace(s[a]) && !text::is_whitespace(s[b - 1])
            },
        (s.len() == 0 || !text::is_whitespace(s[0]) && !text::is_whitespace(s.last()))
            ==> text::trimmed(s) == s,
{
    let a = start_is_dropped(s);
    let rest = text::trimmed_start(s);
    let n = end_is_dropped(rest);
    let b = a + n;
    assert(s.subrange(a, b) =~= rest.subrange(0, n));
    assert forall|i: int| b <= i < s.len() implies text::is_whitespace(#[trigger] s[i]) by {
        assert(rest[i - a] == s[i]);
    }
    if a < b {
        assert(rest[n - 1] == s[b - 1]);
        assert(rest[0] == s[a]);
        if a < s.len() {
            assert(!text::is_whitespace(s[a]));
        }
    }
    text::trimming_is_stable(s);
}

/// The text of pieces with a separator between them.
pub open spec fn rejoined(pieces: Seq<Seq<char>>, sep: char) -> Seq<char>
    decreases pieces.len(),
{
    if pieces.len() == 0 {
        Seq::empty()
    } else if pieces.len() == 1 {
        pieces[0]
    } else {
        rejoined(pieces.drop_last(), sep).push(sep) + pieces.last()
    }
}

/// Splitting loses nothing: with the separator between them the pieces give the
/// text back, and no piece holds the separator.
pub proof fn splitting_is_undone_by_joining(s: Seq<char>, sep: char)
    ensures
        text::split_on(s, sep).len() >= 1,
        rejoined(text::split_on(s, sep), sep) == s,
        forall|i: int|
            0 <= i < text::split_on(s, sep).len() ==> !(#[trigger] text::split_on(s, sep)[i]).contains(
                sep,
            ),
    decreases s.len(),
{
    let p = text::is_char(sep);
    let pieces = text::split_on(s, sep);
    assert(pieces == text::split_by(s, p));
    if s.len() == 0 {
        assert(rejoined(pieces, sep) =~= s);
        assert(!pieces[0].contains(sep));
    } else {
        let before = text::split_by(s.drop_last(), p);
        splitting_is_undone_by_joining(s.drop_last(), sep);
        assert(before == text::split_on(s.drop_last(), sep));
        assert(s =~= s.drop_last().push(s.last()));
        if s.last() == sep {
            assert(pieces.drop_last() =~= before);
            assert(rejoined(pieces, sep) =~= s);
            assert forall|i: int| 0 <= i < pieces.len() implies !(#[trigger] pieces[i]).contains(
                sep,
            ) by {
                if i < before.len() {
                    assert(pieces[i] == before[i]);
                }
            }
        } else {
            assert(pieces.drop_last() =~= before.drop_last());
            if before.len() == 1 {
                assert(rejoined(pieces, sep) =~= s);
            } else {
                assert(rejoined(before, sep) == rejoined(before.drop_last(), sep).push(sep)
                    + before.last());
                assert(rejoined(pieces, sep) =~= s);
            }
            assert forall|i: int| 0 <= i < pieces.len() implies !(#[trigger] pieces[i]).contains(
                sep,
            ) by {
                if i < before.len() - 1 {
                    assert(pieces[i] == before[i]);
                } else {
                    let last = before.last();
                    assert(!before[before.len() - 1].contains(sep));
                    if pieces[i].contains(sep) {
                        let k = pieces[i].index_of(sep);
                        if k < last.len() {
                            assert(last[k] == sep);
                        }
                    }
                }
            }
        }
    }
}

proof fn split_of_pieces(a: Seq<char>, sep: char, b: Seq<char>, p: spec_fn(char) -> bool)
    requires
        p(sep),
    ensures
        text::split_by(a.push(sep) + b, p) == text::split_by(a, p) + text::split_by(b, p),
    decreases b.len(),
{
    let all = a.push(sep) + b;
    if b.len() == 0 {
        assert(all =~= a.push(sep));
        assert(all.drop_last() =~= a);
        assert(text::split_by(all, p) =~= text::split_by(a, p) + text::split_by(b, p));
    } else {
        assert(all.drop_last() =~= a.push(sep) + b.drop_last());
        split_of_pieces(a, sep, b.drop_last(), p);
        let left = text::split_by(a, p);
        let right = text::split_by(b.drop_last(), p);
        split_has_a_piece(b.drop_last(), p);
        assert((left + right).drop_last() =~= left + right.drop_last());
        assert(text::split_by(all, p) =~= left + text::split_by(b, p));
    }
}

proof fn split_has_a_piece(s: Seq<char>, p: spec_fn(char) -> bool)
    ensures
        text::split_by(s, p).len() >= 1,
    decreases s.len(),
{
    if s.len() > 0 {
        split_has_a_piece(s.drop_last(), p);
    }
}

proof fn split_of_a_piece(s: Seq<char>, p: spec_fn(char) -> bool)
    requires
        forall|i: int| 0 <= i < s.len() ==> !p(#[trigger] s[i]),
    ensures
        text::split_by(s, p) == seq![s],
    decreases s.len(),
{
    if s.len() == 0 {
        assert(s =~= Seq::<char>::empty());
    } else {
        assert(!p(s[s.len() - 1]));
        assert forall|i: int| 0 <= i < s.drop_last().len() implies !p(
            #[trigger] s.drop_last()[i],
        ) by {
            assert(s.drop_last()[i] == s[i]);
        }
        split_of_a_piece(s.drop_last(), p);
        assert(s.drop_last().push(s.last()) =~= s);
        assert(text::split_by(s, p) =~= seq![s]);
    }
}

/// A separator parts a text in two: the pieces of what stands before it and of
/// what stands behind it. A text without a separator is one piece.
pub proof fn separators_part_a_text(a: Seq<char>, sep: char, b: Seq<char>)
    ensures
        text::split_on(a.push(sep) + b, sep) == text::split_on(a, sep) + text::split_on(b, sep),
        !a.contains(sep) ==> text::split_on(a, sep) == seq![a],
{
    split_of_pieces(a, sep, b, text::is_char(sep));
    if !a.contains(sep) {
        assert forall|i: int| 0 <= i < a.len() implies !text::is_char(sep)(#[trigger] a[i]) by {
            assert(a.contains(a[i]));
        }
        split_of_a_piece(a, text::is_char(sep));
    }
}

proof fn non_empty_of_both(left: Seq<Seq<char>>, right: Seq<Seq<char>>)
    ensures
        text::non_empty(left + right) == text::non_empty(left) + text::non_empty(right),
    decreases right.len(),
{
    if right.len() == 0 {
        assert(left + right =~= left);
        assert(text::non_empty(left) + text::non_empty(right) =~= text::non_empty(left));
    } else {
        assert((left + right).drop_last() =~= left + right.drop_last());
        non_empty_of_both(left, right.drop_last());
        assert(text::non_empty(left + right) =~= text::non_empty(left) + text::non_empty(right));
    }
}

/// White space parts a text into words: the words before it and those behind
/// it. A text without white space is one word, unless it is empty.
pub proof fn white_space_parts_words(a: Seq<char>, c: char, b: Seq<char>)
    requires
        text::is_whitespace(c),
    ensures
        text::words(a.push(c) + b) == text::words(a) + text::words(b),
        (forall|i: int| 0 <= i < a.len() ==> !text::is_whitespace(#[trigger] a[i])) && a.len() > 0
            ==> text::words(a) == seq![a],
        a.len() == 0 ==> text::words(a).len() == 0,
{
    let p = |c: char| text::is_whitespace(c);
    split_of_pieces(a, c, b, p);
    non_empty_of_both(text::split_by(a, p), text::split_by(b, p));
    assert(seq![a].drop_last() =~= Seq::<Seq<char>>::empty());
    if forall|i: int| 0 <= i < a.len() ==> !text::is_whitespace(#[trigger] a[i]) {
        assert forall|i: int| 0 <= i < a.len() implies !p(#[trigger] a[i]) by {}
        split_of_a_piece(a, p);
        reveal_with_fuel(text::non_empty, 2);
        if a.len() > 0 {
            assert(text::words(a) =~= seq![a]);
        }
    }
}

/// A line feed ends a line, with one carriage return before it left out; the
/// lines of the rest follow.
pub proof fn line_feeds_end_lines(line: Seq<char>, rest: Seq<char>)
    requires
        !line.contains('\n'),
    ensures
        text::lines(line.push('\n') + rest) == seq![
            if line.len() > 0 && line.last() == '\r' {
                line.drop_last()
            } else {
                line
            },
        ] + text::lines(rest),
        line.len() > 0 ==> text::lines(line) == seq![line],
        text::lines(Seq::empty()).len() == 0,
{
    separators_part_a_text(line, '\n', rest);
    separators_part_a_text(Seq::empty(), '\n', rest);
    let behind = text::split_on(rest, '\n');
    splitting_is_undone_by_joining(rest, '\n');
    let all = seq![line] + behind;
    assert(text::split_on(line.push('\n') + rest, '\n') == all);
    assert(all.drop_last() =~= seq![line] + behind.drop_last());
    assert(text::lines(line.push('\n') + rest) =~= seq![text::without_return(line)] + text::lines(
        rest,
    ));
    if line.len() > 0 {
        assert(text::lines(line) =~= seq![line]);
    }
    assert(!Seq::<char>::empty().contains('\n'));
    assert(text::lines(Seq::empty()) =~= Seq::<Seq<char>>::empty());
}

/// What follows the last separator is what stands behind it; a text without one
/// stays whole.
pub proof fn the_last_piece_follows_the_last_separator(a: Seq<char>, sep: char, b: Seq<char>)
    requires
        !b.contains(sep),
    ensures
        text::after_last(a.push(sep) + b, sep) == b,
        text::after_last(b, sep) == b,
    decreases b.len(),
{
    let all = a.push(sep) + b;
    if b.len() == 0 {
        assert(all =~= a.push(sep));
        assert(text::after_last(all, sep) =~= b);
        assert(text::after_last(b, sep) =~= b);
    } else {
        assert(b.contains(b.last()));
        assert(!b.drop_last().contains(sep)) by {
            if b.drop_last().contains(sep) {
                let k = b.drop_last().index_of(sep);
                assert(b[k] == sep);
            }
        }
        assert(all.drop_last() =~= a.push(sep) + b.drop_last());
        the_last_piece_follows_the_last_separator(a, sep, b.drop_last());
        assert(b.drop_last().push(b.last()) =~= b);
    }
}

/// A part stands in a text exactly where the text can be taken apart around it.
pub proof fn parts_stand_in_their_texts(s: Seq<char>, part: Seq<char>)
    ensures
        text::has_part(s, part) <==> exists|a: Seq<char>, b: Seq<char>| s == #[trigger] (a + part
            + b),
{
    if text::has_part(s, part) {
        let i = choose|i: int| #[trigger] text::part_at(s, part, i);
        let a = s.subrange(0, i);
        let b = s.subrange(i + part.len(), s.len() as int);
        assert(s =~= a + s.subrange(i, i + part.len()) + b);
        assert(s == a + part + b);
    }
    if exists|a: Seq<char>, b: Seq<char>| s == #[trigger] (a + part + b) {
        let (a, b) = choose|a: Seq<char>, b: Seq<char>| s == #[trigger] (a + part + b);
        assert(s.subrange(a.len() as int, (a.len() + part.len()) as int) =~= part);
        assert(text::part_at(s, part, a.len() as int));
    }
}

/// Whether two texts agree before place `k`, and there the first one ends or has
/// the smaller character.
pub open spec fn smaller_at(a: Seq<char>, b: Seq<char>, k: int) -> bool {
    &&& 0 <= k <= a.len()
    &&& k < b.len()
    &&& forall|i: int| 0 <= i < k ==> a[i] == b[i]
    &&& k == a.len() || a[k] < b[k]
}

/// One text comes before another where it is a proper beginning of it, or where
/// its character is the smaller one at the first place at which they differ.
pub proof fn texts_are_ordered_by_their_characters(a: Seq<char>, b: Seq<char>)
    ensures
        text::precedes(a, b) <==> exists|k: int| #[trigger] smaller_at(a, b, k),
    decreases a.len(),
{
    if a.len() > 0 && b.len() > 0 && a[0] == b[0] {
        let x = a.drop_first();
        let y = b.drop_first();
        texts_are_ordered_by_their_characters(x, y);
        if text::precedes(a, b) {
            let k = choose|k: int| #[trigger] smaller_at(x, y, k);
            assert forall|i: int| 0 <= i < k + 1 implies a[i] == b[i] by {
                if i > 0 {
                    assert(x[i - 1] == y[i - 1]);
                }
            }
            if k < x.len() {
                assert(x[k] == a[k + 1] && y[k] == b[k + 1]);
            }
            assert(smaller_at(a, b, k + 1));
        }
        if exists|k: int| #[trigger] smaller_at(a, b, k) {
            let k = choose|k: int| #[trigger] smaller_at(a, b, k);
            assert(k > 0);
            assert forall|i: int| 0 <= i < k - 1 implies x[i] == y[i] by {
                assert(a[i + 1] == b[i + 1]);
            }
            assert(smaller_at(x, y, k - 1));
        }
    } else {
        if text::precedes(a, b) {
            assert(smaller_at(a, b, 0));
        }
        if exists|k: int| #[trigger] smaller_at(a, b, k) {
            let k = choose|k: int| #[trigger] smaller_at(a, b, k);
            if k > 0 {
                assert(a[0] == b[0]);
            }
        }
    }
}

/// The number that decimal digits stand for.
pub open spec fn number(digits: Seq<char>) -> int
    decreases digits.len(),
{
    if digits.len() == 0 {
        0
    } else {
        10 * number(digits.drop_last()) + (digits.last() as u32 - 48)
    }
}

/// A number is written with decimal digits that stand for it, the first of which
/// is no zero unless it is the only one.
pub proof fn decimal_digits_stand_for_the_number(n: nat)
    ensures
        numeral::decimal(n).len() >= 1,
        number(numeral::decimal(n)) == n,
        forall|i: int|
            0 <= i < numeral::decimal(n).len() ==> 48 <= (#[trigger] numeral::decimal(n)[i]) as u32
                <= 57,
        numeral::decimal(n).len() > 1 ==> numeral::decimal(n)[0] != '0',
    decreases n,
{
    let shown = numeral::decimal(n);
    if n < 10 {
        assert(shown.drop_last() =~= Seq::<char>::empty());
        reveal_with_fuel(number, 2);
    } else {
        decimal_digits_stand_for_the_number(n / 10);
        let before = numeral::decimal(n / 10);
        assert(shown.drop_last() =~= before);
        assert(before.len() == 1 ==> before[0] != '0') by {
            if before.len() == 1 {
                assert(before.drop_last() =~= Seq::<char>::empty());
                reveal_with_fuel(number, 2);
            }
        }
    }
}

} // verus!
