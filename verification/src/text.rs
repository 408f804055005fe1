//! Text handling over UTF-8: comparing and searching `str` values, and
//! cutting them at white space and at line endings without copying.
//!
//! Contracts speak of a text as its sequence of characters. Where the code
//! walks the bytes, the lemmas here connect the two for ASCII characters,
//! which are single bytes that occur nowhere inside a longer encoding.

use vstd::prelude::*;
use vstd::string::*;
use vstd::utf8::*;

verus! {

/// The character that the ASCII byte `b` encodes.
pub open spec fn ascii(b: u8) -> char
    recommends
        b <= 0x7f,
{
    b as char
}

/// Whether a character is white space: one of the characters that Unicode
/// gives the property `White_Space`.
pub open spec fn white_space(c: char) -> bool {
    let n = c as u32;
    ||| 0x09 <= n <= 0x0d
    ||| n == 0x20
    ||| n == 0x85
    ||| n == 0xa0
    ||| n == 0x1680
    ||| 0x2000 <= n <= 0x200a
    ||| n == 0x2028
    ||| n == 0x2029
    ||| n == 0x202f
    ||| n == 0x205f
    ||| n == 0x3000
}

/// No character of `text` is white space.
pub open spec fn solid(text: Seq<char>) -> bool {
    forall|i: int| 0 <= i < text.len() ==> !white_space(#[trigger] text[i])
}

/// The position of the first white-space character of `text`, or the length
/// of `text` where it has none.
pub open spec fn first_white_space(text: Seq<char>) -> int
    decreases text.len(),
{
    if text.len() == 0 || white_space(text[0]) {
        0
    } else {
        1 + first_white_space(text.drop_first())
    }
}

/// `needle` stands in `hay` at position `at`.
pub open spec fn occurs_at(needle: Seq<char>, hay: Seq<char>, at: int) -> bool {
    0 <= at && at + needle.len() <= hay.len() && hay.subrange(at, at + needle.len()) == needle
}

/// `needle` stands somewhere in `hay` as a run of consecutive characters.
/// The empty text occurs in every text.
pub open spec fn occurs_in(needle: Seq<char>, hay: Seq<char>) -> bool {
    exists|at: int| occurs_at(needle, hay, at)
}

/// A line without the carriage return that may end it.
pub open spec fn without_cr(line: Seq<char>) -> Seq<char> {
    if line.len() > 0 && line.last() == '\r' {
        line.drop_last()
    } else {
        line
    }
}

/// The lines of a text. A line ends at a line feed, or at the end of the
/// text where no line feed closes it; a carriage return directly before the
/// line feed belongs to the line ending. Nothing follows the last line feed,
/// so a text that ends in one has no empty line after it, and the empty text
/// has no line at all.
pub open spec fn lines_of(text: Seq<char>) -> Seq<Seq<char>>
    decreases text.len(),
{
    if text.len() == 0 {
        seq![]
    } else {
        match text.index_of_first('\n') {
            Some(i) => {
                if 0 <= i < text.len() {
                    seq![without_cr(text.subrange(0, i))] + lines_of(
                        text.subrange(i + 1, text.len() as int),
                    )
                } else {
                    seq![text]
                }
            },
            None => seq![text],
        }
    }
}

/// The texts that a vector of strings holds.
pub open spec fn texts(strings: Seq<String>) -> Seq<Seq<char>> {
    strings.map_values(|s: String| s@)
}

/// An ASCII byte inside well-formed UTF-8 is a character of its own: the
/// text splits around it into what comes before it, the character, and what
/// comes after it.
proof fn lemma_ascii_byte_splits(bytes: Seq<u8>, i: int)
    requires
        valid_utf8(bytes),
        0 <= i < bytes.len(),
        bytes[i] <= 0x7f,
    ensures
        is_char_boundary(bytes, i),
        is_char_boundary(bytes.subrange(i, bytes.len() as int), 1),
        valid_utf8(bytes.subrange(0, i)),
        valid_utf8(bytes.subrange(i, bytes.len() as int)),
        valid_utf8(bytes.subrange(i + 1, bytes.len() as int)),
        decode_utf8(bytes) == decode_utf8(bytes.subrange(0, i)) + seq![ascii(bytes[i])]
            + decode_utf8(bytes.subrange(i + 1, bytes.len() as int)),
{
    is_char_boundary_iff_not_is_continuation_byte(bytes, i);
    valid_utf8_split(bytes, i);
    decode_utf8_split(bytes, i);
    let right = bytes.subrange(i, bytes.len() as int);
    let b = bytes[i];
    assert(pop_first_scalar(right) =~= bytes.subrange(i + 1, bytes.len() as int));
    assert(codepoint_width_1(b) == b as u32) by (bit_vector)
        requires
            b <= 0x7f,
    ;
    reveal_with_fuel(is_char_boundary, 2);
}

/// Wherever an ASCII character stands in a text, its byte stands in the
/// text's UTF-8 encoding.
proof fn lemma_ascii_char_has_byte(chars: Seq<char>, j: int, b: u8)
    requires
        0 <= j < chars.len(),
        b <= 0x7f,
        chars[j] == ascii(b),
    ensures
        encode_utf8(chars).contains(b),
    decreases j,
{
    let c = chars[j] as u32;
    let first = encode_scalar(chars[0] as u32);
    let rest = encode_utf8(chars.drop_first());
    if j == 0 {
        assert(leading_byte_width_1(c) == b) by (bit_vector)
            requires
                c == b as u32,
                b <= 0x7f,
        ;
        assert((first + rest)[0] == b);
    } else {
        lemma_ascii_char_has_byte(chars.drop_first(), j - 1, b);
        let k = choose|k: int| 0 <= k < rest.len() && rest[k] == b;
        assert((first + rest)[first.len() + k] == b);
    }
}

/// A text that ends in an ASCII character has that character's byte as the
/// last byte of its UTF-8 encoding.
proof fn lemma_last_ascii_char_is_last_byte(chars: Seq<char>, b: u8)
    requires
        chars.len() > 0,
        b <= 0x7f,
        chars.last() == ascii(b),
    ensures
        encode_utf8(chars).len() > 0,
        encode_utf8(chars).last() == b,
    decreases chars.len(),
{
    if chars.len() == 1 {
        let c = chars[0] as u32;
        assert(leading_byte_width_1(c) == b) by (bit_vector)
            requires
                c == b as u32,
                b <= 0x7f,
        ;
    } else {
        lemma_last_ascii_char_is_last_byte(chars.drop_first(), b);
    }
}

/// A text cut at a character that does not occur before the cut has its
/// first occurrence of that character at the cut.
proof fn lemma_first_index_at_cut(head: Seq<char>, c: char, tail: Seq<char>)
    requires
        !head.contains(c),
    ensures
        (head + seq![c] + tail).index_of_first(c) == Some(head.len() as int),
{
    let text = head + seq![c] + tail;
    text.index_of_first_ensures(c);
    assert(text[head.len() as int] == c);
}

/// The first white space of a text stands at `at` where no character before
/// `at` is white space and the one at `at` is, or the text ends there.
pub proof fn lemma_first_white_space(text: Seq<char>, at: int)
    requires
        0 <= at <= text.len(),
        solid(text.subrange(0, at)),
        at < text.len() ==> white_space(text[at]),
    ensures
        first_white_space(text) == at,
    decreases at,
{
    if at > 0 {
        let rest = text.drop_first();
        assert(text.subrange(0, at)[0] == text[0]);
        assert forall|k: int| 0 <= k < at - 1 implies !white_space(
            #[trigger] rest.subrange(0, at - 1)[k],
        ) by {
            assert(rest.subrange(0, at - 1)[k] == text.subrange(0, at)[k + 1]);
        }
        lemma_first_white_space(rest, at - 1);
    }
}

/// Whether a character is white space.
pub fn is_white_space(c: char) -> (r: bool)
    ensures
        r == white_space(c),
{
    let n = c as u32;
    (0x09 <= n && n <= 0x0d) || n == 0x20 || n == 0x85 || n == 0xa0 || n == 0x1680 || (0x2000 <= n
        && n <= 0x200a) || n == 0x2028 || n == 0x2029 || n == 0x202f || n == 0x205f || n == 0x3000
}

/// The position of the first white-space character of `text`, counted in
/// characters, or `length` where it has none.
fn find_white_space(text: &str, length: usize) -> (r: usize)
    requires
        length == text@.len(),
    ensures
        r == first_white_space(text@),
        r <= length,
        solid(text@.subrange(0, r as int)),
        r < length ==> white_space(text@[r as int]),
{
    let mut at: usize = 0;
    let mut found = false;
    for c in it: text.chars()
        invariant
            it.seq() == text@,
            length == text@.len(),
            at <= it.index(),
            !found ==> at == it.index(),
            found ==> at < text@.len() && white_space(text@[at as int]),
            forall|k: int| 0 <= k < at ==> !white_space(#[trigger] text@[k]),
    {
        if !found {
            if is_white_space(c) {
                found = true;
            } else {
                at += 1;
            }
        }
    }
    proof {
        lemma_first_white_space(text@, at as int);
    }
    at
}

/// Cuts `text` at its first white-space character and returns what stands
/// before and after it. Returns `None` where `text` has no white space.
pub fn cut_at_white_space<'a>(text: &'a str) -> (r: Option<(&'a str, &'a str)>)
    ensures
        match r {
            Some((head, tail)) => {
                &&& first_white_space(text@) < text@.len()
                &&& head@ == text@.subrange(0, first_white_space(text@))
                &&& tail@ == text@.subrange(first_white_space(text@) + 1, text@.len() as int)
            },
            None => first_white_space(text@) == text@.len() && solid(text@),
        },
{
    let length = text.unicode_len();
    let at = find_white_space(text, length);
    if at < length {
        Some((text.substring_char(0, at), text.substring_char(at + 1, length)))
    } else {
        proof {
            assert(text@.subrange(0, at as int) =~= text@);
        }
        None
    }
}

/// Index of the first byte equal to `needle`, if there is one.
pub fn find_byte(bytes: &[u8], needle: u8) -> (r: Option<usize>)
    ensures
        match r {
            Some(i) => i < bytes@.len() && bytes@[i as int] == needle && !bytes@.subrange(
                0,
                i as int,
            ).contains(needle),
            None => !bytes@.contains(needle),
        },
{
    let mut i: usize = 0;
    while i < bytes.len()
        invariant
            i <= bytes@.len(),
            !bytes@.subrange(0, i as int).contains(needle),
        decreases bytes@.len() - i,
    {
        if bytes[i] == needle {
            return Some(i);
        }
        proof {
            let before = bytes@.subrange(0, i as int);
            let after = bytes@.subrange(0, i + 1);
            assert forall|k: int| 0 <= k < after.len() implies after[k] != needle by {
                if k < i {
                    assert(before[k] == after[k]);
                }
            }
        }
        i += 1;
    }
    proof {
        assert(bytes@.subrange(0, i as int) =~= bytes@);
    }
    None
}

/// Cuts `text` at the first occurrence of the ASCII character whose byte is
/// `delimiter`, and returns what stands before and after it. Returns `None`
/// where the character does not occur.
pub fn split_once_ascii<'a>(text: &'a str, delimiter: u8) -> (r: Option<(&'a str, &'a str)>)
    requires
        delimiter <= 0x7f,
    ensures
        match r {
            Some((head, tail)) => {
                &&& text@ == head@ + seq![ascii(delimiter)] + tail@
                &&& !head@.contains(ascii(delimiter))
                &&& text@.index_of_first(ascii(delimiter)) == Some(head@.len() as int)
            },
            None => {
                &&& !text@.contains(ascii(delimiter))
                &&& text@.index_of_first(ascii(delimiter)) is None
            },
        },
{
    broadcast use group_utf8_lib;

    let bytes = text.as_bytes();
    match find_byte(bytes, delimiter) {
        Some(i) => {
            proof {
                lemma_ascii_byte_splits(bytes@, i as int);
            }
            let (head, rest) = text.split_at(i);
            let (_, tail) = rest.split_at(1);
            proof {
                assert(tail.spec_bytes() =~= bytes@.subrange(i + 1, bytes@.len() as int));
                if head@.contains(ascii(delimiter)) {
                    let j = choose|j: int| 0 <= j < head@.len() && head@[j] == ascii(delimiter);
                    lemma_ascii_char_has_byte(head@, j, delimiter);
                }
                lemma_first_index_at_cut(head@, ascii(delimiter), tail@);
            }
            Some((head, tail))
        },
        None => {
            proof {
                if text@.contains(ascii(delimiter)) {
                    let j = choose|j: int| 0 <= j < text@.len() && text@[j] == ascii(delimiter);
                    lemma_ascii_char_has_byte(text@, j, delimiter);
                }
                text@.index_of_first_ensures(ascii(delimiter));
            }
            None
        },
    }
}

/// Drops the carriage return that may end `line`.
pub fn trim_cr<'a>(line: &'a str) -> (r: &'a str)
    ensures
        r@ == without_cr(line@),
{
    broadcast use group_utf8_lib;

    let bytes = line.as_bytes();
    let n = bytes.len();
    if n > 0 && bytes[n - 1] == 0x0d {
        proof {
            lemma_ascii_byte_splits(bytes@, n - 1);
        }
        let (head, _) = line.split_at(n - 1);
        proof {
            assert(line@ == head@ + seq!['\r']);
        }
        head
    } else {
        proof {
            if line@.len() > 0 && line@.last() == '\r' {
                lemma_last_ascii_char_is_last_byte(line@, 0x0d);
            }
        }
        line
    }
}

/// Whether two texts hold the same characters.
pub fn text_eq(a: &str, b: &str) -> (r: bool)
    ensures
        r == (a@ == b@),
{
    broadcast use group_utf8_lib;

    let x = a.as_bytes();
    let y = b.as_bytes();
    if x.len() != y.len() {
        return false;
    }
    let mut i: usize = 0;
    while i < x.len()
        invariant
            i <= x@.len(),
            x@.len() == y@.len(),
            x@ == a.spec_bytes(),
            y@ == b.spec_bytes(),
            forall|k: int| 0 <= k < i ==> x@[k] == y@[k],
        decreases x@.len() - i,
    {
        if x[i] != y[i] {
            return false;
        }
        i += 1;
    }
    proof {
        assert(x@ =~= y@);
        assert(b@ == decode_utf8(y@));
    }
    true
}

/// The characters of `text`, one by one.
pub fn chars_of(text: &str) -> (r: Vec<char>)
    ensures
        r@ == text@,
{
    let mut out: Vec<char> = Vec::new();
    for c in it: text.chars()
        invariant
            it.seq() == text@,
            out@ == it.seq().take(it.index()),
    {
        out.push(c);
    }
    out
}

/// Whether `needle` stands in `hay` at position `at`.
fn matches_at(needle: &Vec<char>, hay: &Vec<char>, at: usize) -> (r: bool)
    requires
        at + needle@.len() <= hay@.len(),
    ensures
        r == occurs_at(needle@, hay@, at as int),
{
    let width = needle.len();
    let length = hay.len();
    let mut k: usize = 0;
    while k < width
        invariant
            k <= width,
            width == needle@.len(),
            length == hay@.len(),
            at + width <= length,
            forall|j: int| 0 <= j < k ==> hay@[at + j] == needle@[j],
        decreases width - k,
    {
        if hay[at + k] != needle[k] {
            return false;
        }
        k += 1;
    }
    proof {
        assert(hay@.subrange(at as int, at + width) =~= needle@);
    }
    true
}

/// Whether `needle` occurs in `hay` as a run of consecutive characters.
pub fn contains_text(hay: &str, needle: &str) -> (r: bool)
    ensures
        r == occurs_in(needle@, hay@),
{
    let h = chars_of(hay);
    let n = chars_of(needle);
    if n.len() > h.len() {
        return false;
    }
    let last: usize = h.len() - n.len();
    let mut at: usize = 0;
    loop
        invariant
            at <= last,
            last == h@.len() - n@.len(),
            h@ == hay@,
            n@ == needle@,
            forall|k: int| 0 <= k < at ==> !occurs_at(n@, h@, k),
        decreases last - at,
    {
        if matches_at(&n, &h, at) {
            return true;
        }
        if at == last {
            return false;
        }
        at += 1;
    }
}

/// Cuts `text` into its lines.
pub fn split_lines(text: &str) -> (r: Vec<String>)
    ensures
        texts(r@) == lines_of(text@),
{
    let mut out: Vec<String> = Vec::new();
    let mut rest: &str = text;
    while !rest.is_empty()
        invariant
            lines_of(text@) == texts(out@) + lines_of(rest@),
        decreases rest@.len(),
    {
        match split_once_ascii(rest, 0x0a) {
            Some((head, tail)) => {
                out.push(trim_cr(head).to_owned());
                proof {
                    assert(rest@.subrange(0, head@.len() as int) =~= head@);
                    assert(rest@.subrange(head@.len() as int + 1, rest@.len() as int) =~= tail@);
                    assert(lines_of(rest@) == seq![without_cr(head@)] + lines_of(tail@));
                }
                rest = tail;
            },
            None => {
                out.push(rest.to_owned());
                proof {
                    reveal_strlit("");
                    assert(lines_of(rest@) == seq![rest@]);
                }
                rest = "";
            },
        }
    }
    out
}

} // verus!
