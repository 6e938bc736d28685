//! Text as sequences of characters: the small operations the rules are written
//! in, each with the function it computes.

use vstd::prelude::*;
use vstd::utf8::*;

verus! {

/// What `String::push` does: the character goes on the end.
pub assume_specification [String::push](string: &mut String, c: char)
    ensures
        final(string)@ == old(string)@.push(c),
;

/// The characters of each text in a sequence of them.
pub open spec fn texts(all: Seq<String>) -> Seq<Seq<char>> {
    all.map_values(|text: String| text@)
}

/// The characters of an optional text.
pub open spec fn text_or_none(text: Option<String>) -> Option<Seq<char>> {
    match text {
        Some(text) => Some(text@),
        None => None,
    }
}

/// What `String::from_utf8_lossy` reads bytes as.
pub uninterp spec fn utf8_lossy(bytes: Seq<u8>) -> Seq<char>;

/// Reads bytes with `String::from_utf8_lossy`: what is UTF-8 is decoded, and
/// what is not becomes replacement characters, as [`utf8_lossy`] names it.
#[verifier::external_body]
fn read_lossy(bytes: &[u8]) -> (text: String)
    ensures
        text@ == utf8_lossy(bytes@),
        valid_utf8(bytes@) ==> text@ == decode_utf8(bytes@),
{
    String::from_utf8_lossy(bytes).into_owned()
}

/// Whether bytes that are a text read as that text.
pub open spec fn keeps_text(bytes: Seq<u8>) -> bool {
    forall|text: Seq<char>| bytes == #[trigger] encode_utf8(text) ==> utf8_lossy(bytes) == text
}

/// Bytes as text, with replacement characters for what is not UTF-8.
pub fn lossy(bytes: &[u8]) -> (text: String)
    ensures
        text@ == utf8_lossy(bytes@),
        keeps_text(bytes@),
{
    let text = read_lossy(bytes);
    proof {
        assert forall|chars: Seq<char>| bytes@ == #[trigger] encode_utf8(chars) implies utf8_lossy(
            bytes@,
        ) == chars by {
            encode_utf8_valid_utf8(chars);
            encode_utf8_decode_utf8(chars);
        }
    }
    text
}

/// The characters of a text, to be read by position.
pub fn chars_of(text: &str) -> (chars: Vec<char>)
    ensures
        chars@ == text@,
{
    let mut chars: Vec<char> = Vec::new();
    for c in it: text.chars()
        invariant
            it.seq() == text@,
            chars@ == text@.take(it.index() as int),
    {
        chars.push(c);
    }
    chars
}

/// The text made of some of `chars`.
pub fn text_of(chars: &Vec<char>, from: usize, to: usize) -> (text: String)
    requires
        from <= to <= chars@.len(),
    ensures
        text@ == chars@.subrange(from as int, to as int),
{
    let mut text = String::new();
    let mut at: usize = from;
    while at < to
        invariant
            from <= at <= to <= chars@.len(),
            text@ == chars@.subrange(from as int, at as int),
        decreases to - at,
    {
        text.push(chars[at]);
        at = at + 1;
    }
    text
}

/// Whether two texts are the same, character for character.
pub fn same(left: &str, right: &str) -> (equal: bool)
    ensures
        equal == (left@ == right@),
{
    let left_bytes = left.as_bytes();
    let right_bytes = right.as_bytes();
    proof {
        vstd::utf8::encode_utf8_decode_utf8(left@);
        vstd::utf8::encode_utf8_decode_utf8(right@);
    }
    same_bytes(left_bytes, right_bytes)
}

/// Whether two runs of bytes are the same.
pub fn same_bytes(left: &[u8], right: &[u8]) -> (equal: bool)
    ensures
        equal == (left@ == right@),
{
    if left.len() != right.len() {
        return false;
    }
    let mut at: usize = 0;
    while at < left.len()
        invariant
            at <= left@.len() == right@.len(),
            left@.take(at as int) == right@.take(at as int),
        decreases left.len() - at,
    {
        if left[at] != right[at] {
            return false;
        }
        proof {
            assert(left@.take(at + 1) =~= left@.take(at as int).push(left@[at as int]));
            assert(right@.take(at + 1) =~= right@.take(at as int).push(right@[at as int]));
        }
        at = at + 1;
    }
    proof {
        assert(left@.take(at as int) =~= left@);
        assert(right@.take(at as int) =~= right@);
    }
    true
}

/// The lower case of an ASCII letter, and any other character as it is.
pub open spec fn lower(c: char) -> char {
    if 'A' <= c <= 'Z' {
        (c as u32 + 32) as char
    } else {
        c
    }
}

/// A text with its ASCII letters in lower case.
pub open spec fn lowered(text: Seq<char>) -> Seq<char> {
    text.map_values(|c: char| lower(c))
}

/// Whether two texts differ at most in the case of ASCII letters.
pub open spec fn alike(left: Seq<char>, right: Seq<char>) -> bool {
    lowered(left) == lowered(right)
}

/// The lower case of one character.
pub fn to_lower(c: char) -> (low: char)
    ensures
        low == lower(c),
{
    if 'A' <= c && c <= 'Z' {
        let code: u8 = c as u8;
        (code + 32) as char
    } else {
        c
    }
}

/// A text with its ASCII letters in lower case.
pub fn to_lowered(text: &str) -> (low: String)
    ensures
        low@ == lowered(text@),
{
    let mut low = String::new();
    for c in it: text.chars()
        invariant
            it.seq() == text@,
            low@ == lowered(text@.take(it.index() as int)),
    {
        proof {
            let at = it.index() as int;
            assert(lowered(text@.take(at + 1)) =~= lowered(text@.take(at)).push(lower(text@[at])));
        }
        low.push(to_lower(c));
    }
    proof {
        assert(text@.take(text@.len() as int) =~= text@);
    }
    low
}

/// Whether two texts differ at most in the case of ASCII letters.
pub fn is_alike(left: &str, right: &str) -> (result: bool)
    ensures
        result == alike(left@, right@),
{
    let left_low = to_lowered(left);
    let right_low = to_lowered(right);
    same(left_low.as_str(), right_low.as_str())
}

/// Whether Unicode counts a character as white space.
pub open spec fn white(c: char) -> bool {
    ||| '\u{9}' <= c <= '\u{d}'
    ||| c == ' '
    ||| c == '\u{85}'
    ||| c == '\u{a0}'
    ||| c == '\u{1680}'
    ||| '\u{2000}' <= c <= '\u{200a}'
    ||| c == '\u{2028}'
    ||| c == '\u{2029}'
    ||| c == '\u{202f}'
    ||| c == '\u{205f}'
    ||| c == '\u{3000}'
}

/// A text without the white space it starts with.
pub open spec fn trimmed_start(text: Seq<char>) -> Seq<char>
    decreases text.len(),
{
    if text.len() > 0 && white(text[0]) {
        trimmed_start(text.skip(1))
    } else {
        text
    }
}

/// A text without the white space it ends with.
pub open spec fn trimmed_end(text: Seq<char>) -> Seq<char>
    decreases text.len(),
{
    if text.len() > 0 && white(text.last()) {
        trimmed_end(text.drop_last())
    } else {
        text
    }
}

/// Whether a text ends in white space.
pub open spec fn ends_white(text: Seq<char>) -> bool {
    text.len() > 0 && white(text.last())
}

/// What is trimmed at its end is what the text starts with, up to the last
/// character that is not white space.
pub proof fn lemma_trimmed_end(text: Seq<char>)
    ensures
        trimmed_end(text).len() <= text.len(),
        trimmed_end(text) == text.take(trimmed_end(text).len() as int),
        !ends_white(trimmed_end(text)),
        forall|i: int|
            0 <= i < text.len() && !white(#[trigger] text[i]) ==> i < trimmed_end(text).len(),
    decreases text.len(),
{
    if text.len() > 0 && white(text.last()) {
        let fewer = text.drop_last();
        lemma_trimmed_end(fewer);
        assert(trimmed_end(text) =~= text.take(trimmed_end(text).len() as int));
        assert forall|i: int| 0 <= i < text.len() && !white(#[trigger] text[i]) implies i
            < trimmed_end(text).len() by {
            assert(fewer[i] == text[i]);
        }
    } else {
        assert(text.take(text.len() as int) =~= text);
    }
}

/// A text without the white space at either end.
pub open spec fn trimmed(text: Seq<char>) -> Seq<char> {
    trimmed_end(trimmed_start(text))
}

/// Whether Unicode counts a character as white space.
pub fn is_white(c: char) -> (result: bool)
    ensures
        result == white(c),
{
    ('\u{9}' <= c && c <= '\u{d}') || c == ' ' || c == '\u{85}' || c == '\u{a0}' || c == '\u{1680}'
        || ('\u{2000}' <= c && c <= '\u{200a}') || c == '\u{2028}' || c == '\u{2029}' || c
        == '\u{202f}' || c == '\u{205f}' || c == '\u{3000}'
}

/// How far into `chars` the leading white space reaches.
fn start_of(chars: &Vec<char>) -> (from: usize)
    ensures
        from <= chars@.len(),
        chars@.skip(from as int) == trimmed_start(chars@),
{
    let mut from: usize = 0;
    proof {
        assert(chars@.skip(0) =~= chars@);
    }
    while from < chars.len() && is_white(chars[from])
        invariant
            from <= chars@.len(),
            trimmed_start(chars@.skip(from as int)) == trimmed_start(chars@),
        decreases chars.len() - from,
    {
        proof {
            assert(chars@.skip(from as int).skip(1) =~= chars@.skip(from + 1));
        }
        from = from + 1;
    }
    from
}

/// Where the trailing white space of `chars` after `from` begins.
fn end_of(chars: &Vec<char>, from: usize) -> (to: usize)
    requires
        from <= chars@.len(),
    ensures
        from <= to <= chars@.len(),
        chars@.subrange(from as int, to as int) == trimmed_end(chars@.skip(from as int)),
{
    let mut to: usize = chars.len();
    proof {
        assert(chars@.subrange(from as int, to as int) =~= chars@.skip(from as int));
    }
    while to > from && is_white(chars[to - 1])
        invariant
            from <= to <= chars@.len(),
            trimmed_end(chars@.subrange(from as int, to as int)) == trimmed_end(
                chars@.skip(from as int),
            ),
        decreases to,
    {
        proof {
            assert(chars@.subrange(from as int, to as int).drop_last() =~= chars@.subrange(
                from as int,
                to - 1,
            ));
        }
        to = to - 1;
    }
    to
}

/// A text without the white space at either end.
pub fn trim(text: &str) -> (kept: String)
    ensures
        kept@ == trimmed(text@),
{
    let chars = chars_of(text);
    let from: usize = start_of(&chars);
    let to: usize = end_of(&chars, from);
    text_of(&chars, from, to)
}

/// A text without the white space it ends with.
pub fn trim_end(text: &str) -> (kept: String)
    ensures
        kept@ == trimmed_end(text@),
{
    let chars = chars_of(text);
    let to: usize = end_of(&chars, 0);
    proof {
        assert(chars@.skip(0) =~= chars@);
    }
    text_of(&chars, 0, to)
}

/// Where `c` first stands in a text, or the text's length if it does not.
pub open spec fn find(text: Seq<char>, c: char) -> nat
    decreases text.len(),
{
    if text.len() == 0 || text[0] == c {
        0
    } else {
        1 + find(text.skip(1), c)
    }
}

/// The position that [`find`] gives is the first one.
pub proof fn lemma_find(text: Seq<char>, c: char)
    ensures
        find(text, c) <= text.len(),
        find(text, c) < text.len() ==> text[find(text, c) as int] == c,
        forall|i: int| 0 <= i < find(text, c) ==> text[i] != c,
        find(text, c) < text.len() <==> text.contains(c),
    decreases text.len(),
{
    if text.len() > 0 && text[0] != c {
        lemma_find(text.skip(1), c);
        assert forall|i: int| 0 <= i < find(text, c) implies text[i] != c by {
            if i > 0 {
                assert(text.skip(1)[i - 1] == text[i]);
            }
        }
        if text.contains(c) {
            let at = choose|at: int| 0 <= at < text.len() && text[at] == c;
            assert(text.skip(1)[at - 1] == c);
        }
        if find(text, c) < text.len() {
            assert(text[find(text, c) as int] == c);
        }
    }
}

/// A position with `c` at it, and nowhere before, is the one [`find`] gives.
pub proof fn lemma_found(text: Seq<char>, c: char, at: int)
    requires
        0 <= at <= text.len(),
        at < text.len() ==> text[at] == c,
        forall|i: int| 0 <= i < at ==> text[i] != c,
    ensures
        find(text, c) == at,
{
    lemma_find(text, c);
}

/// Where `c` first stands in `chars` from `from` on, or their number.
pub fn position(chars: &Vec<char>, c: char, from: usize) -> (at: usize)
    requires
        from <= chars@.len(),
    ensures
        from <= at <= chars@.len(),
        at - from == find(chars@.skip(from as int), c),
{
    let mut at: usize = from;
    while at < chars.len() && chars[at] != c
        invariant
            from <= at <= chars@.len(),
            forall|i: int| from <= i < at ==> chars@[i] != c,
        decreases chars.len() - at,
    {
        at = at + 1;
    }
    proof {
        lemma_found(chars@.skip(from as int), c, at - from);
    }
    at
}

/// The pieces of a text between the places where `separator` stands.
pub open spec fn split(text: Seq<char>, separator: char) -> Seq<Seq<char>>
    decreases text.len(),
{
    let at = find(text, separator);
    if at >= text.len() {
        seq![text]
    } else {
        seq![text.take(at as int)] + split(text.skip(at as int + 1), separator)
    }
}

/// Texts one after another, each with a character behind it.
pub open spec fn ended(pieces: Seq<Seq<char>>, end: char) -> Seq<char>
    decreases pieces.len(),
{
    if pieces.len() == 0 {
        seq![]
    } else {
        ended(pieces.drop_last(), end) + pieces.last().push(end)
    }
}

/// A text and the character behind it come apart again, if the character stands
/// nowhere in the text.
proof fn lemma_split_off(piece: Seq<char>, end: char, rest: Seq<char>)
    requires
        !piece.contains(end),
    ensures
        split(piece.push(end) + rest, end) == seq![piece] + split(rest, end),
{
    let whole = piece.push(end) + rest;
    assert forall|i: int| 0 <= i < piece.len() implies whole[i] != end by {
        assert(piece[i] == whole[i]);
        assert(piece.contains(piece[i]));
    }
    lemma_found(whole, end, piece.len() as int);
    assert(whole.take(piece.len() as int) =~= piece);
    assert(whole.skip(piece.len() as int + 1) =~= rest);
}

/// Texts that were each ended by a character come apart again, if the character
/// stands in none of them.
pub proof fn lemma_split_ended(pieces: Seq<Seq<char>>, end: char, rest: Seq<char>)
    requires
        forall|i: int| 0 <= i < pieces.len() ==> !(#[trigger] pieces[i]).contains(end),
    ensures
        split(ended(pieces, end) + rest, end) == pieces + split(rest, end),
    decreases pieces.len(),
{
    if pieces.len() == 0 {
        assert(ended(pieces, end) + rest =~= rest);
        assert(pieces + split(rest, end) =~= split(rest, end));
    } else {
        let before = pieces.drop_last();
        let last = pieces.last();
        assert forall|i: int| 0 <= i < before.len() implies !(#[trigger] before[i]).contains(
            end,
        ) by {
            assert(before[i] == pieces[i]);
        }
        lemma_split_ended(before, end, last.push(end) + rest);
        lemma_split_off(last, end, rest);
        assert(ended(pieces, end) + rest =~= ended(before, end) + (last.push(end) + rest));
        assert(before + (seq![last] + split(rest, end)) =~= pieces + split(rest, end));
    }
}

/// The pieces of a text between the places where `separator` stands.
pub fn split_at_each(text: &str, separator: char) -> (pieces: Vec<String>)
    ensures
        texts(pieces@) == split(text@, separator),
{
    let chars = chars_of(text);
    let mut pieces: Vec<String> = Vec::new();
    let mut from: usize = 0;
    proof {
        assert(chars@.skip(0) =~= chars@);
        assert(texts(pieces@) =~= Seq::<Seq<char>>::empty());
        assert(split(chars@, separator) =~= texts(pieces@) + split(chars@, separator));
    }
    loop
        invariant_except_break
            split(chars@, separator) == texts(pieces@) + split(
                chars@.skip(from as int),
                separator,
            ),
        invariant
            from <= chars@.len(),
            chars@ == text@,
        ensures
            texts(pieces@) == split(chars@, separator),
        decreases chars@.len() - from,
    {
        let at: usize = position(&chars, separator, from);
        let piece = text_of(&chars, from, at);
        let ghost before = texts(pieces@);
        let ghost rest = chars@.skip(from as int);
        pieces.push(piece);
        proof {
            assert(texts(pieces@) =~= before.push(piece@));
            assert(piece@ =~= rest.take(at - from));
            if at < chars@.len() {
                assert(chars@.skip(at + 1) =~= rest.skip(at - from + 1));
                assert(before + split(rest, separator) =~= before.push(piece@) + split(
                    chars@.skip(at + 1),
                    separator,
                ));
            } else {
                assert(rest.take(at - from) =~= rest);
                assert(before + split(rest, separator) =~= before.push(piece@));
            }
        }
        if at >= chars.len() {
            break ;
        }
        from = at + 1;
    }
    pieces
}

/// Texts one after another with a separator between each two.
pub open spec fn joined(pieces: Seq<Seq<char>>, separator: Seq<char>) -> Seq<char>
    decreases pieces.len(),
{
    if pieces.len() == 0 {
        seq![]
    } else if pieces.len() == 1 {
        pieces[0]
    } else {
        joined(pieces.drop_last(), separator) + separator + pieces.last()
    }
}

/// Texts one after another with a separator between each two.
pub fn join(pieces: &Vec<String>, separator: &str) -> (text: String)
    ensures
        text@ == joined(texts(pieces@), separator@),
{
    let mut text = String::new();
    let mut at: usize = 0;
    while at < pieces.len()
        invariant
            at <= pieces@.len(),
            text@ == joined(texts(pieces@.take(at as int)), separator@),
        decreases pieces.len() - at,
    {
        proof {
            let now = texts(pieces@.take(at + 1));
            assert(now.drop_last() =~= texts(pieces@.take(at as int)));
            assert(now.last() == pieces@[at as int]@);
            if at == 0 {
                assert(now =~= seq![pieces@[0]@]);
            }
        }
        if at > 0 {
            text.append(separator);
        } else {
            proof {
                assert(text@ =~= Seq::<char>::empty());
                assert(Seq::<char>::empty() + pieces@[0]@ =~= pieces@[0]@);
            }
        }
        text.append(pieces[at].as_str());
        at = at + 1;
    }
    proof {
        assert(pieces@.take(at as int) =~= pieces@);
    }
    text
}

/// What follows a prefix, if the text starts with it.
pub open spec fn after_prefix(text: Seq<char>, prefix: Seq<char>) -> Option<Seq<char>> {
    if prefix.len() <= text.len() && text.take(prefix.len() as int) == prefix {
        Some(text.skip(prefix.len() as int))
    } else {
        None
    }
}

/// What follows a prefix, if the text starts with it.
pub fn strip_prefix(text: &str, prefix: &str) -> (rest: Option<String>)
    ensures
        text_or_none(rest) == after_prefix(text@, prefix@),
{
    let chars = chars_of(text);
    let count: usize = prefix.unicode_len();
    if chars.len() < count {
        return None;
    }
    let start = text_of(&chars, 0, count);
    proof {
        assert(start@ =~= text@.take(count as int));
    }
    if same(start.as_str(), prefix) {
        let rest = text_of(&chars, count, chars.len());
        proof {
            assert(rest@ =~= text@.skip(count as int));
        }
        Some(rest)
    } else {
        None
    }
}

/// What stands before the first `c` in a text, and what stands after it. A text
/// without one stands before it whole.
pub open spec fn halves(text: Seq<char>, c: char) -> (Seq<char>, Seq<char>) {
    let at = find(text, c) as int;
    if at < text.len() {
        (text.take(at), text.skip(at + 1))
    } else {
        (text, seq![])
    }
}

/// What stands before the first `c` in a text, and what stands after it.
pub fn split_once(text: &str, c: char) -> (result: (String, String))
    ensures
        (result.0@, result.1@) == halves(text@, c),
{
    let chars = chars_of(text);
    let at: usize = position(&chars, c, 0);
    proof {
        assert(chars@.skip(0) =~= chars@);
    }
    let first = text_of(&chars, 0, at);
    let second = if at < chars.len() {
        text_of(&chars, at + 1, chars.len())
    } else {
        String::new()
    };
    proof {
        if at < chars@.len() {
            assert(first@ =~= text@.take(at as int));
            assert(second@ =~= text@.skip(at + 1));
        } else {
            assert(first@ =~= text@);
            assert(second@ =~= seq![]);
        }
    }
    (first, second)
}

/// Whether one text comes before another in the order of their characters, a
/// text before every longer one that starts with it.
pub open spec fn before(left: Seq<char>, right: Seq<char>) -> bool
    decreases left.len(),
{
    if right.len() == 0 {
        false
    } else if left.len() == 0 {
        true
    } else if left[0] == right[0] {
        before(left.skip(1), right.skip(1))
    } else {
        left[0] < right[0]
    }
}

/// Of two texts one comes before the other, unless they are the same.
proof fn lemma_before_total(left: Seq<char>, right: Seq<char>)
    ensures
        left == right || before(left, right) || before(right, left),
    decreases left.len(),
{
    if left.len() > 0 && right.len() > 0 {
        if left[0] == right[0] {
            lemma_before_total(left.skip(1), right.skip(1));
            if left.skip(1) == right.skip(1) {
                assert(left =~= seq![left[0]] + left.skip(1));
                assert(right =~= seq![right[0]] + right.skip(1));
            }
        }
    } else if left.len() == 0 && right.len() == 0 {
        assert(left =~= right);
    }
}

/// What comes before a text that comes before another comes before that too.
proof fn lemma_before_transitive(first: Seq<char>, second: Seq<char>, third: Seq<char>)
    requires
        before(first, second),
        before(second, third),
    ensures
        before(first, third),
    decreases first.len(),
{
    if first.len() > 0 && first[0] == second[0] && second[0] == third[0] {
        lemma_before_transitive(first.skip(1), second.skip(1), third.skip(1));
    }
}

/// Whether texts stand in order, none twice.
pub open spec fn ascending(all: Seq<Seq<char>>) -> bool {
    forall|i: int, j: int| 0 <= i < j < all.len() ==> before(#[trigger] all[i], #[trigger] all[j])
}

/// Whether one text comes before another in the order of their characters.
pub fn is_before(left: &str, right: &str) -> (result: bool)
    ensures
        result == before(left@, right@),
{
    let left_chars = chars_of(left);
    let right_chars = chars_of(right);
    let mut at: usize = 0;
    proof {
        assert(left@.skip(0) =~= left@);
        assert(right@.skip(0) =~= right@);
    }
    while at < left_chars.len() && at < right_chars.len()
        invariant
            at <= left_chars@.len(),
            at <= right_chars@.len(),
            left_chars@ == left@,
            right_chars@ == right@,
            before(left@, right@) == before(left@.skip(at as int), right@.skip(at as int)),
        decreases left_chars.len() - at,
    {
        proof {
            assert(left@.skip(at as int).skip(1) =~= left@.skip(at + 1));
            assert(right@.skip(at as int).skip(1) =~= right@.skip(at + 1));
        }
        if left_chars[at] != right_chars[at] {
            return left_chars[at] < right_chars[at];
        }
        at = at + 1;
    }
    at < right_chars.len()
}

/// A text put where it belongs among texts in order leaves them in order, with
/// that text among them.
proof fn lemma_inserted(all: Seq<Seq<char>>, place: int, next: Seq<char>)
    requires
        ascending(all),
        !all.contains(next),
        0 <= place <= all.len(),
        forall|i: int| 0 <= i < place ==> before(#[trigger] all[i], next),
        place < all.len() ==> !before(all[place], next),
    ensures
        ascending(all.insert(place, next)),
        all.insert(place, next).to_set() == all.to_set().insert(next),
{
    let now = all.insert(place, next);
    assert forall|i: int| place <= i < all.len() implies before(next, #[trigger] all[i]) by {
        lemma_before_total(next, all[place]);
        assert(all.contains(all[place]));
        if i > place {
            lemma_before_transitive(next, all[place], all[i]);
        }
    }
    assert forall|name: Seq<char>| now.contains(name) <==> all.contains(name) || name == next by {
        if all.contains(name) {
            let i = choose|i: int| 0 <= i < all.len() && all[i] == name;
            assert(now[if i < place { i } else { i + 1 }] == name);
        }
        assert(now[place] == next);
    }
    assert(now.to_set() =~= all.to_set().insert(next));
}

/// Puts texts that differ in order.
pub fn sort(all: Vec<String>) -> (sorted: Vec<String>)
    requires
        texts(all@).no_duplicates(),
    ensures
        ascending(texts(sorted@)),
        texts(sorted@).to_set() == texts(all@).to_set(),
{
    let mut sorted: Vec<String> = Vec::new();
    let mut at: usize = 0;
    let ghost given = texts(all@);
    proof {
        assert(texts(sorted@).to_set() =~= given.take(0).to_set());
    }
    while at < all.len()
        invariant
            at <= all@.len(),
            given == texts(all@),
            given.no_duplicates(),
            ascending(texts(sorted@)),
            texts(sorted@).to_set() == given.take(at as int).to_set(),
        decreases all.len() - at,
    {
        let ghost held = texts(sorted@);
        let ghost next = given[at as int];
        let mut place: usize = 0;
        while place < sorted.len() && is_before(sorted[place].as_str(), all[at].as_str())
            invariant
                at < all@.len(),
                next == all@[at as int]@,
                place <= sorted@.len(),
                held == texts(sorted@),
                forall|i: int| 0 <= i < place ==> before(#[trigger] held[i], next),
            decreases sorted.len() - place,
        {
            place = place + 1;
        }
        proof {
            if held.contains(next) {
                assert(held.to_set().contains(next));
                assert(given.take(at as int).contains(next));
            }
            lemma_inserted(held, place as int, next);
            assert(given.take(at + 1) =~= given.take(at as int).push(next));
            given.take(at as int).lemma_push_to_set_commute(next);
        }
        sorted.insert(place, all[at].clone());
        proof {
            assert(texts(sorted@) =~= held.insert(place as int, next));
        }
        at = at + 1;
    }
    proof {
        assert(given.take(at as int) =~= given);
    }
    sorted
}

/// A decimal digit.
pub open spec fn digit(value: nat) -> char {
    (48 + value) as char
}

/// A number in decimal, without leading zeros.
pub open spec fn decimal(number: nat) -> Seq<char>
    decreases number,
{
    if number < 10 {
        seq![digit(number)]
    } else {
        decimal(number / 10).push(digit(number % 10))
    }
}

/// A number in decimal is digits, and as many as its size asks for.
pub proof fn lemma_decimal(number: nat)
    ensures
        decimal(number).len() > 0,
        forall|i: int|
            0 <= i < decimal(number).len() ==> '0' <= #[trigger] decimal(number)[i] <= '9',
        number < 10 ==> decimal(number).len() == 1,
        10 <= number < 100 ==> decimal(number).len() == 2,
        100 <= number < 1000 ==> decimal(number).len() == 3,
    decreases number,
{
    if number >= 10 {
        lemma_decimal(number / 10);
    }
}

/// The digit of a value under ten.
fn to_digit(value: u64) -> (c: char)
    requires
        value < 10,
    ensures
        c == digit(value as nat),
{
    (48u8 + value as u8) as char
}

/// A number in decimal, without leading zeros.
pub fn to_decimal(number: u64) -> (text: String)
    ensures
        text@ == decimal(number as nat),
    decreases number,
{
    if number < 10 {
        let mut text = String::new();
        text.push(to_digit(number));
        proof {
            assert(text@ =~= seq![digit(number as nat)]);
        }
        text
    } else {
        let mut text = to_decimal(number / 10);
        text.push(to_digit(number % 10));
        text
    }
}

/// A number in decimal, with zeros in front up to a width.
pub open spec fn zero_padded(number: nat, width: nat) -> Seq<char> {
    Seq::new(
        if decimal(number).len() < width {
            (width - decimal(number).len()) as nat
        } else {
            0
        },
        |i: int| '0',
    ) + decimal(number)
}

/// A number in decimal, with zeros in front up to a width.
pub fn to_zero_padded(number: u64, width: usize) -> (text: String)
    ensures
        text@ == zero_padded(number as nat, width as nat),
{
    let digits = to_decimal(number);
    let count: usize = digits.as_str().unicode_len();
    let mut text = String::new();
    let mut at: usize = count;
    while at < width
        invariant
            count == digits@.len(),
            count <= at,
            at <= width || at == count,
            text@ == Seq::new((at - count) as nat, |i: int| '0'),
        decreases width - at,
    {
        text.push('0');
        proof {
            assert(text@ =~= Seq::new((at + 1 - count) as nat, |i: int| '0'));
        }
        at = at + 1;
    }
    text.append(digits.as_str());
    text
}

/// A text followed by spaces up to a width.
pub open spec fn padded(text: Seq<char>, width: nat) -> Seq<char> {
    text + Seq::new(
        if text.len() < width {
            (width - text.len()) as nat
        } else {
            0
        },
        |i: int| ' ',
    )
}

/// A text followed by spaces up to a width.
pub fn pad(text: &str, width: usize) -> (wide: String)
    ensures
        wide@ == padded(text@, width as nat),
{
    let mut wide = text.to_owned();
    let count: usize = text.unicode_len();
    let mut at: usize = count;
    while at < width
        invariant
            count == text@.len(),
            count <= at,
            at <= width || at == count,
            wide@ == text@ + Seq::new((at - count) as nat, |i: int| ' '),
        decreases width - at,
    {
        wide.push(' ');
        proof {
            assert(wide@ =~= text@ + Seq::new((at + 1 - count) as nat, |i: int| ' '));
        }
        at = at + 1;
    }
    wide
}

/// The number that digits spell in decimal.
pub open spec fn digits_value(digits: Seq<char>) -> nat
    decreases digits.len(),
{
    if digits.len() == 0 {
        0
    } else {
        digits_value(digits.drop_last()) * 10 + (digits.last() as nat - 48) as nat
    }
}

/// The digits of a number's text: what follows an optional plus sign.
pub open spec fn unsigned_digits(text: Seq<char>) -> Seq<char> {
    if text.len() > 0 && text[0] == '+' {
        text.skip(1)
    } else {
        text
    }
}

/// The number a text spells: decimal digits, at least one, that make a value of
/// at most 64 bits, after an optional plus sign.
pub open spec fn number(text: Seq<char>) -> Option<u64> {
    let digits = unsigned_digits(text);
    if digits.len() > 0 && (forall|i: int|
        0 <= i < digits.len() ==> '0' <= #[trigger] digits[i] <= '9') && digits_value(digits)
        <= u64::MAX {
        Some(digits_value(digits) as u64)
    } else {
        None
    }
}

/// More digits make no smaller number.
proof fn lemma_digits_value_grows(digits: Seq<char>, at: int)
    requires
        0 <= at <= digits.len(),
    ensures
        digits_value(digits.take(at)) <= digits_value(digits),
    decreases digits.len(),
{
    if at < digits.len() {
        assert(digits.drop_last().take(at) =~= digits.take(at));
        lemma_digits_value_grows(digits.drop_last(), at);
    } else {
        assert(digits.take(at) =~= digits);
    }
}

/// The number a text spells, or nothing if it spells none.
pub fn to_number(text: &str) -> (result: Option<u64>)
    ensures
        result == number(text@),
{
    let chars = chars_of(text);
    let from: usize = if chars.len() > 0 && chars[0] == '+' {
        1
    } else {
        0
    };
    let ghost digits = chars@.skip(from as int);
    proof {
        assert(digits =~= unsigned_digits(text@));
    }
    if from == chars.len() {
        return None;
    }
    let mut value: u64 = 0;
    let mut at: usize = from;
    while at < chars.len()
        invariant
            from <= at <= chars@.len(),
            digits == chars@.skip(from as int),
            digits == unsigned_digits(text@),
            value == digits_value(digits.take(at - from)),
            forall|i: int| 0 <= i < at - from ==> '0' <= #[trigger] digits[i] <= '9',
        decreases chars.len() - at,
    {
        let c: char = chars[at];
        proof {
            assert(digits[at - from] == c);
            assert(digits.take(at + 1 - from).drop_last() =~= digits.take(at - from));
            lemma_digits_value_grows(digits, at + 1 - from);
        }
        if c < '0' || '9' < c {
            return None;
        }
        let next: u64 = (c as u32 - 48) as u64;
        if value > (u64::MAX - next) / 10 {
            return None;
        }
        value = value * 10 + next;
        at = at + 1;
    }
    proof {
        assert(digits.take(at - from) =~= digits);
    }
    Some(value)
}

/// Lowering keeps every character but the ASCII capitals, and moves those to the
/// letter 32 places on.
pub proof fn law_lowering_touches_only_ascii_capitals(text: Seq<char>, i: int)
    requires
        0 <= i < text.len(),
    ensures
        lowered(text).len() == text.len(),
        'A' <= text[i] <= 'Z' ==> lowered(text)[i] as int == text[i] as int + 32,
        !('A' <= text[i] <= 'Z') ==> lowered(text)[i] == text[i],
        lowered(lowered(text)) == lowered(text),
{
    assert(lowered(lowered(text)) =~= lowered(text));
}

/// Two texts are alike exactly if they are as long, and where they differ the
/// two characters are one ASCII letter in both of its cases.
pub proof fn law_alike_texts_differ_only_in_case(left: Seq<char>, right: Seq<char>)
    ensures
        alike(left, right) <==> left.len() == right.len() && forall|i: int|
            0 <= i < left.len() ==> #[trigger] left[i] == right[i] || ('A' <= left[i] <= 'Z'
                && right[i] as int == left[i] as int + 32) || ('A' <= right[i] <= 'Z'
                && left[i] as int == right[i] as int + 32),
{
    if alike(left, right) {
        assert(lowered(left).len() == left.len() && lowered(right).len() == right.len());
        assert forall|i: int| 0 <= i < left.len() implies #[trigger] left[i] == right[i] || ('A'
            <= left[i] <= 'Z' && right[i] as int == left[i] as int + 32) || ('A' <= right[i] <= 'Z'
            && left[i] as int == right[i] as int + 32) by {
            assert(lowered(left)[i] == lowered(right)[i]);
        }
    }
    if left.len() == right.len() && forall|i: int|
        0 <= i < left.len() ==> #[trigger] left[i] == right[i] || ('A' <= left[i] <= 'Z'
            && right[i] as int == left[i] as int + 32) || ('A' <= right[i] <= 'Z' && left[i] as int
            == right[i] as int + 32) {
        assert forall|i: int| 0 <= i < left.len() implies lowered(left)[i] == lowered(
            right,
        )[i] by {
            assert(left[i] == right[i] || true);
        }
        assert(lowered(left) =~= lowered(right));
    }
}

/// What is trimmed at its start is what the text ends with, from the first
/// character that is not white space on.
proof fn lemma_trimmed_start(text: Seq<char>)
    ensures
        trimmed_start(text).len() <= text.len(),
        trimmed_start(text) == text.skip(text.len() - trimmed_start(text).len()),
        forall|i: int|
            0 <= i < text.len() - trimmed_start(text).len() ==> white(#[trigger] text[i]),
        trimmed_start(text).len() > 0 ==> !white(trimmed_start(text)[0]),
    decreases text.len(),
{
    if text.len() > 0 && white(text[0]) {
        let fewer = text.skip(1);
        lemma_trimmed_start(fewer);
        assert(trimmed_start(text) =~= text.skip(text.len() - trimmed_start(text).len()));
        assert forall|i: int| 0 <= i < text.len() - trimmed_start(text).len() implies white(
            #[trigger] text[i],
        ) by {
            if i > 0 {
                assert(fewer[i - 1] == text[i]);
            }
        }
    } else {
        assert(text.skip(0) =~= text);
    }
}

/// What trimming takes off the end is white space.
proof fn lemma_trimmed_end_rest(text: Seq<char>)
    ensures
        trimmed_end(text).len() <= text.len(),
        forall|i: int|
            trimmed_end(text).len() <= i < text.len() ==> white(#[trigger] text[i]),
    decreases text.len(),
{
    if text.len() > 0 && white(text.last()) {
        let fewer = text.drop_last();
        lemma_trimmed_end_rest(fewer);
        assert forall|i: int| trimmed_end(text).len() <= i < text.len() implies white(
            #[trigger] text[i],
        ) by {
            if i < fewer.len() {
                assert(fewer[i] == text[i]);
            }
        }
    }
}

/// Trimming gives the one part of a text that has white space at neither end and
/// nothing but white space around it.
pub proof fn law_trimming_takes_the_white_space_around(
    front: Seq<char>,
    middle: Seq<char>,
    back: Seq<char>,
)
    requires
        forall|i: int| 0 <= i < front.len() ==> white(#[trigger] front[i]),
        forall|i: int| 0 <= i < back.len() ==> white(#[trigger] back[i]),
        middle.len() > 0 ==> !white(middle[0]) && !white(middle.last()),
    ensures
        trimmed(front + middle + back) == middle,
        trimmed_end(front + middle + back) == (if middle.len() > 0 {
            front + middle
        } else {
            Seq::<char>::empty()
        }),
{
    let whole = front + middle + back;
    let from = front.len() as int;
    let to = front.len() + middle.len();
    lemma_trimmed_start(whole);
    let started = trimmed_start(whole);
    let cut = whole.len() - started.len();
    lemma_trimmed_end(whole);
    lemma_trimmed_end_rest(whole);
    lemma_trimmed_end(started);
    lemma_trimmed_end_rest(started);
    if middle.len() > 0 {
        assert(whole[from] == middle[0]);
        assert(whole[to - 1] == middle.last());
        assert(cut <= from);
        if cut < from {
            assert(whole[cut] == front[cut]);
            assert(started[0] == whole[cut]);
        }
        assert(cut == from);
        let kept = trimmed_end(started);
        assert(started[middle.len() - 1] == middle.last());
        assert(kept.len() >= middle.len());
        if kept.len() > middle.len() {
            assert(kept.last() == started[kept.len() - 1]);
            assert(started[kept.len() - 1] == back[kept.len() - 1 - middle.len()]);
        }
        assert(kept =~= middle);
        let ended = trimmed_end(whole);
        assert(ended.len() >= to);
        if ended.len() > to {
            assert(ended.last() == whole[ended.len() - 1]);
            assert(whole[ended.len() - 1] == back[ended.len() - 1 - to]);
        }
        assert(ended =~= front + middle);
    } else {
        assert forall|i: int| 0 <= i < whole.len() implies white(#[trigger] whole[i]) by {
            if i < front.len() {
                assert(whole[i] == front[i]);
            } else {
                assert(whole[i] == back[i - front.len()]);
            }
        }
        if started.len() > 0 {
            assert(started[0] == whole[cut]);
        }
        assert(trimmed(whole) =~= middle);
        let ended = trimmed_end(whole);
        if ended.len() > 0 {
            assert(ended.last() == whole[ended.len() - 1]);
        }
        assert(ended =~= Seq::<char>::empty());
    }
}

/// A text has white space at neither end once it is trimmed, and what was taken
/// off is white space.
pub proof fn law_trimming_leaves_no_white_space_at_the_ends(text: Seq<char>)
    ensures
        trimmed(text).len() > 0 ==> !white(trimmed(text)[0]) && !white(trimmed(text).last()),
        exists|from: int, to: int|
            #![trigger text.subrange(from, to)]
            0 <= from <= to <= text.len() && text.subrange(from, to) == trimmed(text) && (forall|
                i: int,
            | 0 <= i < from ==> white(#[trigger] text[i])) && (forall|i: int|
                to <= i < text.len() ==> white(#[trigger] text[i])),
{
    let started = trimmed_start(text);
    lemma_trimmed_start(text);
    lemma_trimmed_end(started);
    lemma_trimmed_end_rest(started);
    let from = text.len() - started.len();
    let to = from + trimmed(text).len();
    assert(text.subrange(from, to) =~= trimmed(text));
    assert forall|i: int| to <= i < text.len() implies white(#[trigger] text[i]) by {
        assert(started[i - from] == text[i]);
    }
    if trimmed(text).len() > 0 {
        assert(trimmed(text)[0] == started[0]);
    }
}

/// The pieces of a text hold no separator, and joined by it they are the text
/// again.
pub proof fn law_splitting_is_undone_by_joining(text: Seq<char>, separator: char)
    ensures
        split(text, separator).len() > 0,
        forall|i: int|
            0 <= i < split(text, separator).len() ==> !(#[trigger] split(
                text,
                separator,
            )[i]).contains(separator),
        joined(split(text, separator), seq![separator]) == text,
    decreases text.len(),
{
    lemma_find(text, separator);
    let at = find(text, separator) as int;
    let all = split(text, separator);
    if at >= text.len() {
        assert(all =~= seq![text]);
    } else {
        let first = text.take(at);
        let rest = text.skip(at + 1);
        law_splitting_is_undone_by_joining(rest, separator);
        let more = split(rest, separator);
        assert(all =~= seq![first] + more);
        assert forall|i: int| 0 <= i < all.len() implies !(#[trigger] all[i]).contains(
            separator,
        ) by {
            if i > 0 {
                assert(all[i] == more[i - 1]);
            }
        }
        lemma_joined_front(first, more, seq![separator]);
        assert(first + seq![separator] + rest =~= text);
    }
}

/// One more text in front is joined in front.
proof fn lemma_joined_front(first: Seq<char>, rest: Seq<Seq<char>>, separator: Seq<char>)
    requires
        rest.len() > 0,
    ensures
        joined(seq![first] + rest, separator) == first + separator + joined(rest, separator),
    decreases rest.len(),
{
    let all = seq![first] + rest;
    assert(all.last() == rest.last());
    if rest.len() == 1 {
        assert(all.drop_last() =~= seq![first]);
        assert(joined(all.drop_last(), separator) == first);
        assert(joined(all, separator) =~= first + separator + rest[0]);
    } else {
        assert(all.drop_last() =~= seq![first] + rest.drop_last());
        lemma_joined_front(first, rest.drop_last(), separator);
        assert(joined(all, separator) =~= first + separator + joined(rest, separator));
    }
}

/// Joining puts the separator between each two texts and nowhere else: nothing
/// joined is nothing, one text is itself, and each further one comes behind a
/// separator.
pub proof fn law_joining_separates_each_two(
    pieces: Seq<Seq<char>>,
    last: Seq<char>,
    separator: Seq<char>,
)
    ensures
        joined(seq![], separator) == Seq::<char>::empty(),
        joined(seq![last], separator) == last,
        pieces.len() > 0 ==> joined(pieces.push(last), separator) == joined(pieces, separator)
            + separator + last,
{
    assert(pieces.push(last).drop_last() =~= pieces);
}

/// The decimal of a number spells it, and starts with a zero only if it is zero.
pub proof fn law_a_decimal_spells_its_number(value: nat)
    ensures
        digits_value(decimal(value)) == value,
        decimal(value).len() > 0,
        forall|i: int| 0 <= i < decimal(value).len() ==> '0' <= #[trigger] decimal(value)[i] <= '9',
        decimal(value)[0] == '0' ==> value == 0,
        value <= u64::MAX ==> number(decimal(value)) == Some(value as u64),
    decreases value,
{
    lemma_decimal(value);
    if value < 10 {
        assert(decimal(value).drop_last() =~= seq![]);
        assert(digits_value(decimal(value).drop_last()) == 0);
        assert(decimal(value).last() as nat == 48 + value);
    } else {
        law_a_decimal_spells_its_number(value / 10);
        assert(decimal(value).drop_last() =~= decimal(value / 10));
        assert(decimal(value)[0] == decimal(value / 10)[0]);
    }
    assert(unsigned_digits(decimal(value)) == decimal(value));
}

/// Digits spell a number by their places: each further one is worth itself, and
/// ten times what stands before it.
pub proof fn law_each_digit_has_its_place(digits: Seq<char>, last: char)
    requires
        '0' <= last <= '9',
    ensures
        digits_value(seq![]) == 0,
        digits_value(digits.push(last)) == 10 * digits_value(digits) + (last as int - 48),
{
    assert(digits.push(last).drop_last() =~= digits);
}

/// Zeros in front change nothing of what digits spell.
proof fn lemma_leading_zeros(count: nat, digits: Seq<char>)
    ensures
        digits_value(Seq::new(count, |i: int| '0') + digits) == digits_value(digits),
    decreases count + digits.len(),
{
    let zeros = Seq::new(count, |i: int| '0');
    let all = zeros + digits;
    if digits.len() > 0 {
        lemma_leading_zeros(count, digits.drop_last());
        assert(all.drop_last() =~= zeros + digits.drop_last());
        assert(all.last() == digits.last());
    } else if count > 0 {
        let fewer = (count - 1) as nat;
        lemma_leading_zeros(fewer, digits);
        assert(all.drop_last() =~= Seq::new(fewer, |i: int| '0') + digits);
        assert(all.last() == '0');
    } else {
        assert(all =~= digits);
    }
}

/// A number with zeros in front spells the same number, in as many digits as
/// were asked for unless it needs more.
pub proof fn law_padding_keeps_the_number(value: nat, width: nat)
    ensures
        digits_value(zero_padded(value, width)) == value,
        zero_padded(value, width).len() >= width,
        zero_padded(value, width).len() > width ==> zero_padded(value, width) == decimal(value),
        forall|i: int|
            0 <= i < zero_padded(value, width).len() ==> '0' <= #[trigger] zero_padded(
                value,
                width,
            )[i] <= '9',
{
    law_a_decimal_spells_its_number(value);
    let count = if decimal(value).len() < width {
        (width - decimal(value).len()) as nat
    } else {
        0
    };
    lemma_leading_zeros(count, decimal(value));
    if count == 0 {
        assert(zero_padded(value, width) =~= decimal(value));
    }
}

/// A padded text is the text and then spaces, exactly as wide as was asked for
/// unless the text is wider.
pub proof fn law_padding_adds_spaces_behind(text: Seq<char>, width: nat)
    ensures
        padded(text, width).len() == (if text.len() < width {
            width
        } else {
            text.len()
        }),
        padded(text, width).take(text.len() as int) == text,
        forall|i: int|
            text.len() <= i < padded(text, width).len() ==> #[trigger] padded(text, width)[i] == ' ',
{
    assert(padded(text, width).take(text.len() as int) =~= text);
}

/// What follows a prefix is what has to be put behind it to make the text, if
/// anything does.
pub proof fn law_a_prefix_and_the_rest_make_the_text(
    text: Seq<char>,
    prefix: Seq<char>,
    rest: Seq<char>,
)
    ensures
        after_prefix(text, prefix) == Some(rest) <==> text == prefix + rest,
{
    if after_prefix(text, prefix) == Some(rest) {
        assert(text =~= prefix + rest);
    }
    if text == prefix + rest {
        assert(text.take(prefix.len() as int) =~= prefix);
        assert(text.skip(prefix.len() as int) =~= rest);
    }
}

/// A text comes apart at the first of a character: what stands before it holds
/// none, and a text without one stands before it whole.
pub proof fn law_a_text_comes_apart_at_the_first(left: Seq<char>, c: char, right: Seq<char>)
    requires
        !left.contains(c),
    ensures
        halves(left.push(c) + right, c) == (left, right),
        halves(left, c) == (left, Seq::<char>::empty()),
{
    let whole = left.push(c) + right;
    assert forall|i: int| 0 <= i < left.len() implies left[i] != c by {
        assert(left.contains(left[i]));
    }
    assert forall|i: int| 0 <= i < left.len() implies whole[i] != c by {
        assert(whole[i] == left[i]);
    }
    lemma_found(whole, c, left.len() as int);
    assert(whole.take(left.len() as int) =~= left);
    assert(whole.skip(left.len() as int + 1) =~= right);
    lemma_found(left, c, left.len() as int);
}

/// One text comes before another exactly if it is a shorter beginning of it, or
/// holds the smaller character where they first differ.
pub proof fn law_the_first_difference_decides(common: Seq<char>, left: Seq<char>, right: Seq<char>)
    requires
        left.len() > 0 && right.len() > 0 ==> left[0] != right[0],
    ensures
        before(common + left, common + right) <==> right.len() > 0 && (left.len() == 0 || left[0]
            < right[0]),
    decreases common.len(),
{
    if common.len() == 0 {
        assert(common + left =~= left);
        assert(common + right =~= right);
    } else {
        let fewer = common.skip(1);
        law_the_first_difference_decides(fewer, left, right);
        assert((common + left).skip(1) =~= fewer + left);
        assert((common + right).skip(1) =~= fewer + right);
    }
}

/// A plus sign before digits changes nothing of the number they spell, and there
/// is no number in a text with anything else in it, with no digits, or with more
/// than 64 bits hold.
pub proof fn law_a_number_is_digits_behind_an_optional_plus(digits: Seq<char>, at: int)
    requires
        digits.len() > 0 ==> digits[0] != '+',
    ensures
        number(seq!['+'] + digits) == number(digits),
        digits.len() == 0 ==> number(digits) is None,
        0 <= at < digits.len() && !('0' <= digits[at] <= '9') ==> number(digits) is None,
        digits_value(digits) > u64::MAX ==> number(digits) is None,
        number(digits) matches Some(value) ==> value == digits_value(digits),
        (forall|i: int| 0 <= i < digits.len() ==> '0' <= #[trigger] digits[i] <= '9')
            && digits.len() > 0 && digits_value(digits) <= u64::MAX ==> number(digits) is Some,
{
    assert((seq!['+'] + digits).skip(1) =~= digits);
}

} // verus!
