//! Text as sequences of characters: classification, trimming, splitting and
//! searching, each stated over `Seq<char>`.

use vstd::prelude::*;
use vstd::string::*;

verus! {

/// `String::push` appends one character.
pub assume_specification[ String::push ](s: &mut String, c: char)
    ensures
        final(s)@ == old(s)@.push(c),
;

/// The characters with the Unicode `White_Space` property.
pub open spec fn is_whitespace(c: char) -> bool {
    ||| '\u{9}' <= c <= '\u{d}'
    ||| c == ' '
    ||| c == '\u{85}'
    ||| c == '\u{a0}'
    ||| c == '\u{1680}'
    ||| '\u{2000}' <= c <= '\u{200a}'
    ||| c == '\u{2028}'
    ||| c == '\u{2029}'
    ||| c == '\u{202f}'
    ||| c == '\u{205f}'
    ||| c == '\u{3000}'
}

/// The characters of the Unicode general category `Cc`.
pub open spec fn is_control(c: char) -> bool {
    c <= '\u{1f}' || '\u{7f}' <= c <= '\u{9f}'
}

pub fn char_is_whitespace(c: char) -> (r: bool)
    ensures
        r == is_whitespace(c),
{
    ('\u{9}' <= c && c <= '\u{d}') || c == ' ' || c == '\u{85}' || c == '\u{a0}' || c
        == '\u{1680}' || ('\u{2000}' <= c && c <= '\u{200a}') || c == '\u{2028}' || c == '\u{2029}'
        || c == '\u{202f}' || c == '\u{205f}' || c == '\u{3000}'
}

/// The lower-case counterpart of an ASCII letter, any other character itself.
pub open spec fn ascii_lower(c: char) -> char {
    if 'A' <= c <= 'Z' {
        ((c as u8 + 32) as u8) as char
    } else {
        c
    }
}

pub fn char_ascii_lower(c: char) -> (r: char)
    ensures
        r == ascii_lower(c),
{
    if 'A' <= c && c <= 'Z' {
        (c as u8 + 32) as char
    } else {
        c
    }
}

/// The characters of a string, in order.
pub fn chars_of(s: &str) -> (r: Vec<char>)
    ensures
        r@ == s@,
{
    let mut r: Vec<char> = Vec::new();
    for c in it: s.chars()
        invariant
            it.seq() == s@,
            r@ == s@.take(it.index() as int),
    {
        r.push(c);
    }
    r
}

/// A string made of the given characters.
pub fn string_of(chars: &Vec<char>) -> (r: String)
    ensures
        r@ == chars@,
{
    let mut r = String::new();
    for i in 0..chars.len()
        invariant
            r@ == chars@.take(i as int),
    {
        r.push(chars[i]);
    }
    r
}

pub fn char_is_control(c: char) -> (r: bool)
    ensures
        r == is_control(c),
{
    c <= '\u{1f}' || ('\u{7f}' <= c && c <= '\u{9f}')
}

/// Whether some character of `s` is a control character.
pub open spec fn has_control(s: Seq<char>) -> bool {
    exists|i: int| 0 <= i < s.len() && is_control(#[trigger] s[i])
}

pub fn contains_control(s: &str) -> (r: bool)
    ensures
        r == has_control(s@),
{
    let chars = chars_of(s);
    for i in 0..chars.len()
        invariant
            chars@ == s@,
            forall|j: int| 0 <= j < i ==> !is_control(#[trigger] s@[j]),
    {
        if char_is_control(chars[i]) {
            return true;
        }
    }
    false
}

pub open spec fn is_ascii_digit(c: char) -> bool {
    '0' <= c <= '9'
}

pub fn char_is_ascii_digit(c: char) -> (r: bool)
    ensures
        r == is_ascii_digit(c),
{
    '0' <= c && c <= '9'
}

pub open spec fn is_ascii_alphanumeric(c: char) -> bool {
    is_ascii_digit(c) || 'a' <= c <= 'z' || 'A' <= c <= 'Z'
}

pub fn char_is_ascii_alphanumeric(c: char) -> (r: bool)
    ensures
        r == is_ascii_alphanumeric(c),
{
    char_is_ascii_digit(c) || ('a' <= c && c <= 'z') || ('A' <= c && c <= 'Z')
}

/// `s` with every ASCII letter in lower case.
pub open spec fn lowered(s: Seq<char>) -> Seq<char> {
    s.map_values(|c: char| ascii_lower(c))
}

pub fn to_lower(s: &str) -> (r: String)
    ensures
        r@ == lowered(s@),
{
    let chars = chars_of(s);
    let mut r = String::new();
    for i in 0..chars.len()
        invariant
            chars@ == s@,
            r@ == lowered(s@).take(i as int),
    {
        r.push(char_ascii_lower(chars[i]));
        assert(r@ =~= lowered(s@).take(i + 1));
    }
    assert(lowered(s@).take(chars@.len() as int) =~= lowered(s@));
    r
}

/// `s` with every `from` replaced by `to`.
pub open spec fn replaced(s: Seq<char>, from: char, to: char) -> Seq<char> {
    s.map_values(|c: char| if c == from { to } else { c })
}

pub fn replace_char(s: &str, from: char, to: char) -> (r: String)
    ensures
        r@ == replaced(s@, from, to),
{
    let chars = chars_of(s);
    let mut r = String::new();
    for i in 0..chars.len()
        invariant
            chars@ == s@,
            r@ == replaced(s@, from, to).take(i as int),
    {
        if chars[i] == from {
            r.push(to);
        } else {
            r.push(chars[i]);
        }
        assert(r@ =~= replaced(s@, from, to).take(i + 1));
    }
    assert(replaced(s@, from, to).take(chars@.len() as int) =~= replaced(s@, from, to));
    r
}

/// `s` without its leading white space.
pub open spec fn trimmed_start(s: Seq<char>) -> Seq<char>
    decreases s.len(),
{
    if s.len() > 0 && is_whitespace(s[0]) {
        trimmed_start(s.drop_first())
    } else {
        s
    }
}

/// `s` without its trailing white space.
pub open spec fn trimmed_end(s: Seq<char>) -> Seq<char>
    decreases s.len(),
{
    if s.len() > 0 && is_whitespace(s.last()) {
        trimmed_end(s.drop_last())
    } else {
        s
    }
}

/// `s` without the white space around it.
pub open spec fn trimmed(s: Seq<char>) -> Seq<char> {
    trimmed_end(trimmed_start(s))
}

pub fn trim(s: &str) -> (r: String)
    ensures
        r@ == trimmed(s@),
{
    let chars = chars_of(s);
    let n: usize = chars.len();
    let mut start: usize = 0;
    assert(s@.skip(0) =~= s@);
    while start < n && char_is_whitespace(chars[start])
        invariant
            n == chars@.len(),
            chars@ == s@,
            start <= n,
            trimmed_start(s@) == trimmed_start(s@.skip(start as int)),
        decreases n - start,
    {
        assert(s@.skip(start as int).drop_first() =~= s@.skip(start + 1));
        start = start + 1;
    }
    let ghost rest = s@.skip(start as int);
    let mut end: usize = n;
    assert(rest =~= s@.subrange(start as int, n as int));
    while end > start && char_is_whitespace(chars[end - 1])
        invariant
            n == chars@.len(),
            chars@ == s@,
            start <= end <= n,
            trimmed_end(rest) == trimmed_end(s@.subrange(start as int, end as int)),
        decreases end,
    {
        assert(s@.subrange(start as int, end as int).drop_last() =~= s@.subrange(
            start as int,
            end - 1,
        ));
        end = end - 1;
    }
    let mut r = String::new();
    for i in start..end
        invariant
            n == chars@.len(),
            chars@ == s@,
            start <= end <= n,
            r@ == s@.subrange(start as int, i as int),
    {
        r.push(chars[i]);
        assert(r@ =~= s@.subrange(start as int, i + 1));
    }
    r
}

/// The pieces of `s` between the characters that satisfy `sep`: always one
/// more piece than there are separators.
pub open spec fn split_by(s: Seq<char>, sep: spec_fn(char) -> bool) -> Seq<Seq<char>>
    decreases s.len(),
{
    if s.len() == 0 {
        seq![Seq::<char>::empty()]
    } else {
        let before = split_by(s.drop_last(), sep);
        if sep(s.last()) {
            before.push(Seq::empty())
        } else {
            before.drop_last().push(before.last().push(s.last()))
        }
    }
}

/// The pieces of `s` between the occurrences of one character.
pub open spec fn split_on(s: Seq<char>, sep: char) -> Seq<Seq<char>> {
    split_by(s, is_char(sep))
}

/// The test for one character.
pub open spec fn is_char(sep: char) -> spec_fn(char) -> bool {
    |c: char| c == sep
}

/// The views of a vector of strings.
pub open spec fn views(v: Seq<String>) -> Seq<Seq<char>> {
    v.map_values(|s: String| s@)
}

pub fn split_char(s: &str, sep: char) -> (r: Vec<String>)
    ensures
        views(r@) == split_on(s@, sep),
        r@.len() >= 1,
{
    let chars = chars_of(s);
    let mut pieces: Vec<String> = Vec::new();
    let mut current = String::new();
    let ghost is_sep = is_char(sep);
    for i in 0..chars.len()
        invariant
            chars@ == s@,
            is_sep == is_char(sep),
            views(pieces@).push(current@) == split_by(s@.take(i as int), is_sep),
    {
        let ghost before = split_by(s@.take(i as int), is_sep);
        assert(s@.take(i + 1).drop_last() =~= s@.take(i as int));
        if chars[i] == sep {
            let mut done = String::new();
            std::mem::swap(&mut done, &mut current);
            pieces.push(done);
            assert(views(pieces@).push(current@) =~= before.push(Seq::empty()));
        } else {
            current.push(chars[i]);
            assert(before.drop_last() =~= views(pieces@));
        }
    }
    assert(s@.take(chars@.len() as int) =~= s@);
    let ghost last = current@;
    let ghost done = views(pieces@);
    pieces.push(current);
    assert(views(pieces@) =~= done.push(last));
    pieces
}

/// The pieces that are not empty, in order.
pub open spec fn non_empty(pieces: Seq<Seq<char>>) -> Seq<Seq<char>>
    decreases pieces.len(),
{
    if pieces.len() == 0 {
        seq![]
    } else if pieces.last().len() == 0 {
        non_empty(pieces.drop_last())
    } else {
        non_empty(pieces.drop_last()).push(pieces.last())
    }
}

/// The maximal runs of characters that are not white space.
pub open spec fn words(s: Seq<char>) -> Seq<Seq<char>> {
    non_empty(split_by(s, |c: char| is_whitespace(c)))
}

pub fn split_words(s: &str) -> (r: Vec<String>)
    ensures
        views(r@) == words(s@),
{
    let chars = chars_of(s);
    let mut pieces: Vec<String> = Vec::new();
    let mut current = String::new();
    let ghost is_sep = |c: char| is_whitespace(c);
    for i in 0..chars.len()
        invariant
            chars@ == s@,
            is_sep == (|c: char| is_whitespace(c)),
            split_by(s@.take(i as int), is_sep).len() > 0,
            split_by(s@.take(i as int), is_sep).last() == current@,
            views(pieces@) == non_empty(split_by(s@.take(i as int), is_sep).drop_last()),
    {
        let ghost before = split_by(s@.take(i as int), is_sep);
        assert(s@.take(i + 1).drop_last() =~= s@.take(i as int));
        if char_is_whitespace(chars[i]) {
            let ghost done = views(pieces@);
            assert(before.push(Seq::empty()).drop_last() =~= before);
            if !current.as_str().is_empty() {
                let ghost last = current@;
                let mut piece = String::new();
                std::mem::swap(&mut piece, &mut current);
                pieces.push(piece);
                assert(views(pieces@) =~= done.push(last));
            }
        } else {
            current.push(chars[i]);
            assert(before.drop_last().push(current@).drop_last() =~= before.drop_last());
        }
    }
    assert(s@.take(chars@.len() as int) =~= s@);
    let ghost done = views(pieces@);
    if !current.as_str().is_empty() {
        let ghost last = current@;
        pieces.push(current);
        assert(views(pieces@) =~= done.push(last));
    }
    pieces
}

/// What follows the last `sep` in `s`, or all of `s` where there is none.
pub open spec fn after_last(s: Seq<char>, sep: char) -> Seq<char>
    decreases s.len(),
{
    if s.len() == 0 || s.last() == sep {
        Seq::empty()
    } else {
        after_last(s.drop_last(), sep).push(s.last())
    }
}

pub fn last_piece(s: &str, sep: char) -> (r: String)
    ensures
        r@ == after_last(s@, sep),
{
    let chars = chars_of(s);
    let mut r = String::new();
    for i in 0..chars.len()
        invariant
            chars@ == s@,
            r@ == after_last(s@.take(i as int), sep),
    {
        assert(s@.take(i + 1).drop_last() =~= s@.take(i as int));
        if chars[i] == sep {
            r = String::new();
        } else {
            r.push(chars[i]);
        }
    }
    assert(s@.take(chars@.len() as int) =~= s@);
    r
}

/// Whether `part` stands in `s` as a run of consecutive characters.
pub open spec fn has_part(s: Seq<char>, part: Seq<char>) -> bool {
    exists|i: int| #[trigger] part_at(s, part, i)
}

/// Whether `part` stands in `s` from position `i` on.
pub open spec fn part_at(s: Seq<char>, part: Seq<char>, i: int) -> bool {
    0 <= i <= s.len() - part.len() && s.subrange(i, i + part.len()) == part
}

/// Whether `part` stands in `chars` from position `at` on.
fn chars_part_at(chars: &Vec<char>, part: &Vec<char>, at: usize) -> (r: bool)
    requires
        at + part@.len() <= chars@.len(),
    ensures
        r == part_at(chars@, part@, at as int),
{
    let n: usize = chars.len();
    for k in 0..part.len()
        invariant
            n == chars@.len(),
            at + part@.len() <= n,
            forall|j: int| 0 <= j < k ==> chars@[at + j] == #[trigger] part@[j],
    {
        if chars[at + k] != part[k] {
            assert(chars@.subrange(at as int, at + part@.len())[k as int] != part@[k as int]);
            return false;
        }
    }
    assert(chars@.subrange(at as int, at + part@.len()) =~= part@);
    true
}

pub fn contains_part(s: &str, part: &str) -> (r: bool)
    ensures
        r == has_part(s@, part@),
{
    let chars = chars_of(s);
    let wanted = chars_of(part);
    if wanted.len() > chars.len() {
        return false;
    }
    let last: usize = chars.len() - wanted.len();
    for i in 0..last
        invariant
            chars@ == s@,
            wanted@ == part@,
            last == chars@.len() - wanted@.len(),
            forall|j: int| 0 <= j < i ==> !#[trigger] part_at(s@, part@, j),
    {
        if chars_part_at(&chars, &wanted, i) {
            return true;
        }
    }
    chars_part_at(&chars, &wanted, last)
}

pub fn starts_with(s: &str, prefix: &str) -> (r: bool)
    ensures
        r == prefix@.is_prefix_of(s@),
{
    let chars = chars_of(s);
    let wanted = chars_of(prefix);
    if wanted.len() > chars.len() {
        return false;
    }
    let r = chars_part_at(&chars, &wanted, 0);
    assert(s@.subrange(0, prefix@.len() as int) =~= s@.take(prefix@.len() as int));
    r
}

/// The number of characters, counted as the standard library counts them.
pub fn char_count(s: &str) -> (r: usize)
    ensures
        r == s@.len(),
{
    s.unicode_len()
}

pub fn str_eq(a: &str, b: &str) -> (r: bool)
    ensures
        r == (a@ == b@),
{
    let left = chars_of(a);
    let right = chars_of(b);
    if left.len() != right.len() {
        return false;
    }
    for i in 0..left.len()
        invariant
            left@ == a@,
            right@ == b@,
            left@.len() == right@.len(),
            forall|j: int| 0 <= j < i ==> left@[j] == right@[j],
    {
        if left[i] != right[i] {
            return false;
        }
    }
    assert(left@ =~= right@);
    true
}

/// `a` comes before `b` when compared character by character, as `str` orders
/// its values.
pub open spec fn precedes(a: Seq<char>, b: Seq<char>) -> bool
    decreases a.len(),
{
    if b.len() == 0 {
        false
    } else if a.len() == 0 {
        true
    } else if a[0] != b[0] {
        a[0] < b[0]
    } else {
        precedes(a.drop_first(), b.drop_first())
    }
}

pub proof fn precedes_irreflexive(a: Seq<char>)
    ensures
        !precedes(a, a),
    decreases a.len(),
{
    if a.len() > 0 {
        precedes_irreflexive(a.drop_first());
    }
}

pub proof fn precedes_transitive(a: Seq<char>, b: Seq<char>, c: Seq<char>)
    requires
        precedes(a, b),
        precedes(b, c),
    ensures
        precedes(a, c),
    decreases a.len(),
{
    if a.len() > 0 && a[0] == b[0] && b[0] == c[0] {
        precedes_transitive(a.drop_first(), b.drop_first(), c.drop_first());
    }
}

pub proof fn precedes_total(a: Seq<char>, b: Seq<char>)
    ensures
        a == b || precedes(a, b) || precedes(b, a),
    decreases a.len(),
{
    if a.len() == 0 && b.len() == 0 {
        assert(a =~= b);
    } else if a.len() > 0 && b.len() > 0 && a[0] == b[0] {
        precedes_total(a.drop_first(), b.drop_first());
        if a.drop_first() == b.drop_first() {
            assert(a =~= seq![a[0]] + a.drop_first());
            assert(b =~= seq![b[0]] + b.drop_first());
        }
    }
}

pub fn str_precedes(a: &str, b: &str) -> (r: bool)
    ensures
        r == precedes(a@, b@),
{
    let left = chars_of(a);
    let right = chars_of(b);
    let mut i: usize = 0;
    assert(a@.skip(0) =~= a@);
    assert(b@.skip(0) =~= b@);
    while i < left.len() && i < right.len()
        invariant
            left@ == a@,
            right@ == b@,
            i <= left@.len(),
            i <= right@.len(),
            precedes(a@, b@) == precedes(a@.skip(i as int), b@.skip(i as int)),
        decreases left@.len() - i,
    {
        if left[i] != right[i] {
            return left[i] < right[i];
        }
        assert(a@.skip(i as int).drop_first() =~= a@.skip(i + 1));
        assert(b@.skip(i as int).drop_first() =~= b@.skip(i + 1));
        i = i + 1;
    }
    i < right.len()
}

/// A copy of `a` followed by `b`.
pub fn concat(a: &str, b: &str) -> (r: String)
    ensures
        r@ == a@ + b@,
{
    let mut r = a.to_owned();
    r.append(b);
    r
}

/// `s` without one carriage return at its end.
pub open spec fn without_return(s: Seq<char>) -> Seq<char> {
    if s.len() > 0 && s.last() == '\r' {
        s.drop_last()
    } else {
        s
    }
}

/// The lines of a text, each ended by a line feed or by a carriage return and
/// a line feed; the last line need not be ended.
pub open spec fn lines(s: Seq<char>) -> Seq<Seq<char>> {
    let pieces = split_on(s, '\n');
    let ended = pieces.drop_last().map_values(|l: Seq<char>| without_return(l));
    if pieces.last().len() == 0 {
        ended
    } else {
        ended.push(pieces.last())
    }
}

fn strip_return(s: &str) -> (r: String)
    ensures
        r@ == without_return(s@),
{
    let n: usize = s.unicode_len();
    if n > 0 && s.get_char(n - 1) == '\r' {
        let mut chars = chars_of(s);
        let _ = chars.pop();
        string_of(&chars)
    } else {
        s.to_owned()
    }
}

pub fn split_lines(s: &str) -> (r: Vec<String>)
    ensures
        views(r@) == lines(s@),
{
    let mut pieces = split_char(s, '\n');
    let ghost all = views(pieces@);
    let n: usize = pieces.len();
    let mut r: Vec<String> = Vec::new();
    let ghost ended = all.drop_last().map_values(|l: Seq<char>| without_return(l));
    for i in 0..n - 1
        invariant
            n == pieces@.len(),
            n >= 1,
            all == views(pieces@),
            ended == all.drop_last().map_values(|l: Seq<char>| without_return(l)),
            views(r@) == ended.take(i as int),
    {
        let ghost before = views(r@);
        let line = strip_return(pieces[i].as_str());
        let ghost shown = line@;
        assert(all[i as int] == pieces@[i as int]@);
        r.push(line);
        assert(views(r@) =~= before.push(shown));
        assert(views(r@) =~= ended.take(i + 1));
    }
    assert(ended.take(n - 1) =~= ended);
    let ghost before = views(r@);
    let last = pieces[n - 1].clone();
    assert(all.last() == last@);
    if !last.as_str().is_empty() {
        let ghost shown = last@;
        r.push(last);
        assert(views(r@) =~= before.push(shown));
    }
    r
}

/// What Rust's lossy UTF-8 decoding makes of bytes.
pub uninterp spec fn utf8_lossy(bytes: Seq<u8>) -> Seq<char>;

/// `String::from_utf8_lossy`: the text of the bytes, with a replacement
/// character for what is not UTF-8; it depends on the bytes alone.
#[verifier::external_body]
pub(crate) fn lossy_text(bytes: &[u8]) -> (r: String)
    ensures
        r@ == utf8_lossy(bytes@),
{
    String::from_utf8_lossy(bytes).into_owned()
}

/// Whether `s` holds the character `c`.
pub fn contains_char(s: &str, c: char) -> (r: bool)
    ensures
        r == s@.contains(c),
{
    let chars = chars_of(s);
    for i in 0..chars.len()
        invariant
            chars@ == s@,
            forall|j: int| 0 <= j < i ==> s@[j] != c,
    {
        if chars[i] == c {
            assert(s@[i as int] == c);
            return true;
        }
    }
    false
}

/// The first word of `s`, empty where there is none.
pub open spec fn first_word(s: Seq<char>) -> Seq<char> {
    if words(s).len() > 0 {
        words(s)[0]
    } else {
        Seq::empty()
    }
}

pub fn leading_word(s: &str) -> (r: String)
    ensures
        r@ == first_word(s@),
{
    let all = split_words(s);
    if all.len() > 0 {
        let word = all[0].clone();
        assert(views(all@)[0] == word@);
        word
    } else {
        String::new()
    }
}

/// Whether one of the texts reads `wanted`.
pub fn contains_text(texts: &Vec<String>, wanted: &str) -> (r: bool)
    ensures
        r == views(texts@).contains(wanted@),
{
    for i in 0..texts.len()
        invariant
            forall|j: int| 0 <= j < i ==> texts@[j]@ != wanted@,
    {
        if str_eq(texts[i].as_str(), wanted) {
            assert(views(texts@)[i as int] == wanted@);
            return true;
        }
    }
    assert(forall|j: int| 0 <= j < texts@.len() ==> #[trigger] views(texts@)[j] == texts@[j]@);
    false
}

/// Whether there is no white space around `s`.
pub open spec fn is_trimmed(s: Seq<char>) -> bool {
    s.len() > 0 ==> !is_whitespace(s[0]) && !is_whitespace(s.last())
}

proof fn trimmed_start_ends(s: Seq<char>)
    ensures
        trimmed_start(s).len() > 0 ==> !is_whitespace(trimmed_start(s)[0]),
    decreases s.len(),
{
    if s.len() > 0 && is_whitespace(s[0]) {
        trimmed_start_ends(s.drop_first());
    }
}

proof fn trimmed_end_ends(s: Seq<char>)
    ensures
        trimmed_end(s).is_prefix_of(s),
        trimmed_end(s).len() > 0 ==> !is_whitespace(trimmed_end(s).last()),
    decreases s.len(),
{
    if s.len() > 0 && is_whitespace(s.last()) {
        trimmed_end_ends(s.drop_last());
    }
}

/// Trimming leaves no white space around a text, and a text without any as it
/// is.
pub proof fn trimming_is_stable(s: Seq<char>)
    ensures
        is_trimmed(trimmed(s)),
        is_trimmed(s) ==> trimmed(s) == s,
        trimmed(trimmed(s)) == trimmed(s),
{
    trimmed_start_ends(s);
    trimmed_end_ends(trimmed_start(s));
}

} // verus!
