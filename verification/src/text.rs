//! Positions in UTF-8 text, and small helpers on strings.

use vstd::prelude::*;
use vstd::utf8::*;

verus! {

/// How many bytes the first `n` characters of `chars` take up.
pub open spec fn prefix_bytes(chars: Seq<char>, n: int) -> nat {
    encode_utf8(chars.take(n)).len()
}

/// How many bytes a character takes up.
pub open spec fn char_width(c: char) -> nat {
    if (c as u32) <= 0x7f {
        1
    } else if (c as u32) <= 0x7ff {
        2
    } else if (c as u32) <= 0xffff {
        3
    } else {
        4
    }
}

/// `n` is how many characters of `chars` lie wholly within the first `byte_offset` bytes.
pub open spec fn is_character_offset(chars: Seq<char>, byte_offset: int, n: int) -> bool {
    &&& 0 <= n <= chars.len()
    &&& prefix_bytes(chars, n) <= byte_offset
    &&& n < chars.len() ==> byte_offset < prefix_bytes(chars, n + 1)
}

/// Where the character with number `n` starts, or the end of the text if it has no such character.
pub open spec fn byte_offset_of(chars: Seq<char>, n: int) -> nat {
    prefix_bytes(chars, if n <= chars.len() { n } else { chars.len() as int })
}

/// Texts one behind the other take up the bytes of each, one behind the other.
pub proof fn lemma_encode_concat(a: Seq<char>, b: Seq<char>)
    ensures
        encode_utf8(a + b) == encode_utf8(a) + encode_utf8(b),
    decreases a.len(),
{
    if a.len() == 0 {
        assert(a + b =~= b);
        assert(encode_utf8(a) =~= Seq::<u8>::empty());
        assert(encode_utf8(a) + encode_utf8(b) =~= encode_utf8(b));
    } else {
        assert((a + b).drop_first() =~= a.drop_first() + b);
        lemma_encode_concat(a.drop_first(), b);
        assert((a + b)[0] == a[0]);
        assert(encode_utf8(a + b) =~= encode_utf8(a) + encode_utf8(b));
    }
}

proof fn lemma_encode_one(c: char)
    ensures
        encode_utf8(seq![c]).len() == char_width(c),
{
    broadcast use char_is_scalar;

    let one = seq![c];
    assert(one.drop_first() =~= Seq::<char>::empty());
    assert(encode_utf8(Seq::<char>::empty()) =~= Seq::<u8>::empty());
    reveal_with_fuel(encode_utf8, 2);
}

/// One more character adds its own width.
pub proof fn lemma_prefix_step(chars: Seq<char>, n: int)
    requires
        0 <= n < chars.len(),
    ensures
        prefix_bytes(chars, n + 1) == prefix_bytes(chars, n) + char_width(chars[n]),
{
    assert(chars.take(n + 1) =~= chars.take(n) + seq![chars[n]]);
    lemma_encode_concat(chars.take(n), seq![chars[n]]);
    lemma_encode_one(chars[n]);
}

/// Longer prefixes take up more bytes.
pub proof fn lemma_prefix_monotonic(chars: Seq<char>, m: int, n: int)
    requires
        0 <= m <= n <= chars.len(),
    ensures
        prefix_bytes(chars, m) + (n - m) <= prefix_bytes(chars, n),
    decreases n - m,
{
    if m < n {
        lemma_prefix_step(chars, n - 1);
        lemma_prefix_monotonic(chars, m, n - 1);
    }
}

/// How many bytes a character takes up.
fn width(c: char) -> (bytes: usize)
    ensures
        bytes == char_width(c),
{
    let code: u32 = c as u32;
    if code <= 0x7f {
        1
    } else if code <= 0x7ff {
        2
    } else if code <= 0xffff {
        3
    } else {
        4
    }
}

/// How many characters of `text` lie wholly within its first `byte_offset` bytes. An offset past
/// the end counts every character, one inside a character does not count that character.
pub fn byte_offset_to_character_offset(text: &str, byte_offset: usize) -> (characters: usize)
    ensures
        is_character_offset(text@, byte_offset as int, characters as int),
{
    let total: usize = text.as_bytes().len();
    let ghost chars = text@;
    proof {
        assert(chars.take(chars.len() as int) =~= chars);
        assert(chars.take(0) =~= Seq::<char>::empty());
    }
    let mut count: usize = 0;
    let mut bytes: usize = 0;
    for c in it: text.chars()
        invariant
            it.seq() == chars,
            chars == text@,
            count == it.index(),
            bytes == prefix_bytes(chars, count as int),
            bytes <= byte_offset,
            total == prefix_bytes(chars, chars.len() as int),
    {
        proof {
            lemma_prefix_step(chars, count as int);
            lemma_prefix_monotonic(chars, count + 1, chars.len() as int);
            lemma_prefix_monotonic(chars, 0, count + 1);
        }
        let next: usize = bytes + width(c);
        if byte_offset < next {
            return count;
        }
        bytes = next;
        count += 1;
    }
    count
}

/// Where the character with number `character_offset` starts in `text`, in bytes; the length of
/// `text` where it has no such character.
pub fn character_offset_to_byte_offset(text: &str, character_offset: usize) -> (bytes: usize)
    ensures
        bytes == byte_offset_of(text@, character_offset as int),
{
    let total: usize = text.as_bytes().len();
    let ghost chars = text@;
    proof {
        assert(chars.take(chars.len() as int) =~= chars);
        assert(chars.take(0) =~= Seq::<char>::empty());
    }
    let mut count: usize = 0;
    let mut bytes: usize = 0;
    for c in it: text.chars()
        invariant
            it.seq() == chars,
            chars == text@,
            count == it.index(),
            count <= character_offset,
            bytes == prefix_bytes(chars, count as int),
            total == prefix_bytes(chars, chars.len() as int),
    {
        if count == character_offset {
            return bytes;
        }
        proof {
            lemma_prefix_step(chars, count as int);
            lemma_prefix_monotonic(chars, count + 1, chars.len() as int);
            lemma_prefix_monotonic(chars, 0, count + 1);
        }
        bytes = bytes + width(c);
        count += 1;
    }
    bytes
}

/// The characters that Unicode counts as white space.
pub open spec fn is_white_space(c: char) -> bool {
    let code = c as u32;
    ||| 0x9 <= code <= 0xd
    ||| code == 0x20
    ||| code == 0x85
    ||| code == 0xa0
    ||| code == 0x1680
    ||| 0x2000 <= code <= 0x200a
    ||| code == 0x2028
    ||| code == 0x2029
    ||| code == 0x202f
    ||| code == 0x205f
    ||| code == 0x3000
}

/// Nothing but white space.
pub open spec fn blank(chars: Seq<char>) -> bool {
    forall|i: int| 0 <= i < chars.len() ==> is_white_space(#[trigger] chars[i])
}

/// Whether `text` holds nothing but white space.
pub fn is_blank(text: &str) -> (result: bool)
    ensures
        result == blank(text@),
{
    let ghost chars = text@;
    for c in it: text.chars()
        invariant
            it.seq() == chars,
            chars == text@,
            forall|i: int| 0 <= i < it.index() ==> is_white_space(#[trigger] chars[i]),
    {
        let code: u32 = c as u32;
        let white: bool = (0x9 <= code && code <= 0xd) || code == 0x20 || code == 0x85 || code
            == 0xa0 || code == 0x1680 || (0x2000 <= code && code <= 0x200a) || code == 0x2028
            || code == 0x2029 || code == 0x202f || code == 0x205f || code == 0x3000;
        if !white {
            assert(!is_white_space(chars[it.index()]));
            return false;
        }
    }
    true
}

/// What `str::to_lowercase` makes of a text.
pub uninterp spec fn lowercase(text: Seq<char>) -> Seq<char>;

/// Calls `str::to_lowercase`. The result is taken to depend on the characters of the text alone,
/// which is what the Unicode mapping that the standard library documents amounts to; what it is
/// for a given text is not stated.
#[verifier::external_body]
pub(crate) fn to_lowercase(text: &str) -> (lower: String)
    ensures
        lower@ == lowercase(text@),
{
    text.to_lowercase()
}

/// The texts of `strings`.
pub open spec fn texts(strings: Seq<String>) -> Seq<Seq<char>> {
    strings.map_values(|s: String| s@)
}

/// The text of an optional string.
pub open spec fn opt_text(text: Option<String>) -> Option<Seq<char>> {
    match text {
        Some(text) => Some(text@),
        None => None,
    }
}

/// `pieces` one behind the other.
pub open spec fn joined(pieces: Seq<Seq<char>>) -> Seq<char>
    decreases pieces.len(),
{
    if pieces.len() == 0 {
        Seq::empty()
    } else {
        joined(pieces.drop_last()) + pieces.last()
    }
}

/// `pieces` one behind the other.
pub fn join(pieces: &Vec<String>) -> (text: String)
    ensures
        text@ == joined(texts(pieces@)),
{
    let mut text = String::new();
    let mut i: usize = 0;
    while i < pieces.len()
        invariant
            0 <= i <= pieces@.len(),
            text@ == joined(texts(pieces@).take(i as int)),
        decreases pieces@.len() - i,
    {
        text.append(pieces[i].as_str());
        proof {
            let next = texts(pieces@).take(i + 1);
            assert(next.drop_last() =~= texts(pieces@).take(i as int));
            assert(next.last() == pieces@[i as int]@);
        }
        i += 1;
    }
    assert(texts(pieces@).take(i as int) =~= texts(pieces@));
    text
}

/// `head` with `tail` behind it.
pub fn followed_by(head: &str, tail: &str) -> (text: String)
    ensures
        text@ == head@ + tail@,
{
    let mut text = String::new();
    text.append(head);
    text.append(tail);
    assert(text@ =~= head@ + tail@);
    text
}

/// A copy of `strings`.
pub fn copy_strings(strings: &Vec<String>) -> (copy: Vec<String>)
    ensures
        copy@ == strings@,
{
    let copy = strings.clone();
    assert(copy@ =~= strings@);
    copy
}

/// A copy of an optional string.
pub fn copy_option(text: &Option<String>) -> (copy: Option<String>)
    ensures
        copy == *text,
{
    match text {
        Some(text) => Some(text.clone()),
        None => None,
    }
}

/// Whether two lists hold the same texts in the same order.
pub fn same_strings(a: &Vec<String>, b: &Vec<String>) -> (same: bool)
    ensures
        same == (texts(a@) == texts(b@)),
{
    if a.len() != b.len() {
        assert(texts(a@).len() != texts(b@).len());
        return false;
    }
    let mut i: usize = 0;
    while i < a.len()
        invariant
            0 <= i <= a@.len(),
            a@.len() == b@.len(),
            forall|j: int| 0 <= j < i ==> texts(a@)[j] == texts(b@)[j],
        decreases a@.len() - i,
    {
        if a[i] != b[i] {
            assert(texts(a@)[i as int] != texts(b@)[i as int]);
            return false;
        }
        i += 1;
    }
    assert(texts(a@) =~= texts(b@));
    true
}

/// The first position at which `strings` holds `text`.
pub open spec fn first_position(strings: Seq<Seq<char>>, text: Seq<char>, position: int) -> bool {
    &&& 0 <= position < strings.len()
    &&& strings[position] == text
    &&& forall|i: int| 0 <= i < position ==> strings[i] != text
}

/// The first position at which `strings` holds `text`, if it does.
pub fn position_of(strings: &Vec<String>, text: &String) -> (position: Option<usize>)
    ensures
        match position {
            Some(i) => first_position(texts(strings@), text@, i as int),
            None => !texts(strings@).contains(text@),
        },
{
    let mut i: usize = 0;
    while i < strings.len()
        invariant
            0 <= i <= strings@.len(),
            forall|j: int| 0 <= j < i ==> texts(strings@)[j] != text@,
        decreases strings@.len() - i,
    {
        if strings[i] == *text {
            assert(texts(strings@)[i as int] == text@);
            return Some(i);
        }
        assert(texts(strings@)[i as int] != text@);
        i += 1;
    }
    None
}

} // verus!
