//! Texts as sequences of characters: copying, joining, trimming and ASCII
//! case.
use vstd::prelude::*;
use vstd::string::*;
use vstd::utf8::{
    decode_utf8, decode_utf8_encode_utf8, encode_utf8, encode_utf8_decode_utf8,
    encode_utf8_valid_utf8, is_ascii_chars, valid_utf8,
};

verus! {

/// `String::push` appends the given character to the end of the text.
pub assume_specification[ String::push ](text: &mut String, c: char)
    ensures
        final(text)@ == old(text)@.push(c),
;

/// The text that `str::to_lowercase` gives for a text.
pub uninterp spec fn lowercase(text: Seq<char>) -> Seq<char>;

/// Calls `str::to_lowercase`, which maps a text to lower case by the Unicode
/// tables. On a text of ASCII characters alone that is the ASCII lower case;
/// nothing more is claimed of other characters than that the result depends
/// on the text alone.
#[verifier::external_body]
fn to_lowercase(text: &str) -> (lower: String)
    ensures
        lower@ == lowercase(text@),
        is_ascii_chars(text@) ==> lower@ == ascii_lower(text@),
{
    text.to_lowercase()
}

/// The text that `String::from_utf8_lossy` reads from bytes.
pub uninterp spec fn utf8_lossy(bytes: Seq<u8>) -> Seq<char>;

/// Calls `String::from_utf8_lossy`, which decodes UTF-8 and puts a replacement
/// character in place of what is not UTF-8. Bytes that are valid UTF-8 are
/// decoded as they stand.
#[verifier::external_body]
fn decode_lossy(bytes: &[u8]) -> (text: String)
    ensures
        text@ == utf8_lossy(bytes@),
        valid_utf8(bytes@) ==> encode_utf8(text@) == bytes@,
{
    String::from_utf8_lossy(bytes).into_owned()
}

/// Calls `std::str::from_utf8`, which gives the text that the bytes encode if
/// they are valid UTF-8, and an error if they are not.
#[verifier::external_body]
pub(crate) fn decode_strict(bytes: &[u8]) -> (text: Option<&str>)
    ensures
        text is Some <==> valid_utf8(bytes@),
        text matches Some(t) ==> encode_utf8(t@) == bytes@,
{
    std::str::from_utf8(bytes).ok()
}

/// A text in lower case: a text of ASCII characters by their small letters,
/// any other by the Unicode tables.
pub open spec fn lower_text(text: Seq<char>) -> Seq<char> {
    if is_ascii_chars(text) {
        ascii_lower(text)
    } else {
        lowercase(text)
    }
}

/// The text in lower case.
pub fn to_lower(text: &str) -> (lower: String)
    ensures
        lower@ == lower_text(text@),
{
    to_lowercase(text)
}

/// The text that bytes stand for: what they encode if they are valid UTF-8,
/// else a text with replacement characters.
pub open spec fn lossy_text(bytes: Seq<u8>) -> Seq<char> {
    if valid_utf8(bytes) {
        decode_utf8(bytes)
    } else {
        utf8_lossy(bytes)
    }
}

/// The text that the bytes stand for.
pub fn read_lossy(bytes: &[u8]) -> (text: String)
    ensures
        text@ == lossy_text(bytes@),
{
    let text = decode_lossy(bytes);
    proof {
        encode_utf8_decode_utf8(text@);
    }
    text
}

/// The texts of a sequence of strings.
pub open spec fn texts(strings: Seq<String>) -> Seq<Seq<char>> {
    strings.map_values(|s: String| s@)
}

/// The text of an optional string.
pub open spec fn opt_text(value: Option<String>) -> Option<Seq<char>> {
    match value {
        Some(s) => Some(s@),
        None => None,
    }
}

/// The text of an optional string, empty where there is none.
pub open spec fn text_or_empty(value: Option<Seq<char>>) -> Seq<char> {
    match value {
        Some(s) => s,
        None => Seq::empty(),
    }
}

/// The characters of a text, in order.
pub fn to_chars(text: &str) -> (chars: Vec<char>)
    ensures
        chars@ == text@,
{
    let mut chars: Vec<char> = Vec::new();
    for c in it: text.chars()
        invariant
            chars@ == text@.take(it.index() as int),
            it.seq() == text@,
    {
        chars.push(c);
    }
    chars
}

/// The text made of the characters from `start` up to `end`.
pub fn from_chars(chars: &Vec<char>, start: usize, end: usize) -> (text: String)
    requires
        start <= end <= chars@.len(),
    ensures
        text@ == chars@.subrange(start as int, end as int),
{
    let mut text = String::new();
    let mut i = start;
    while i < end
        invariant
            start <= i <= end <= chars@.len(),
            text@ == chars@.subrange(start as int, i as int),
        decreases end - i,
    {
        text.push(chars[i]);
        i += 1;
    }
    text
}

/// Whether two texts are the same.
pub fn same_text(a: &str, b: &str) -> (same: bool)
    ensures
        same == (a@ == b@),
{
    let left = to_chars(a);
    let right = to_chars(b);
    if left.len() != right.len() {
        return false;
    }
    for i in 0..left.len()
        invariant
            left@.len() == right@.len(),
            left@ == a@,
            right@ == b@,
            forall|j: int| 0 <= j < i ==> left@[j] == right@[j],
    {
        if left[i] != right[i] {
            return false;
        }
    }
    assert(a@ =~= b@);
    true
}

/// Whether a text is among the given ones.
pub fn contains_text(strings: &Vec<String>, text: &str) -> (found: bool)
    ensures
        found == texts(strings@).contains(text@),
{
    for i in 0..strings.len()
        invariant
            forall|j: int| 0 <= j < i ==> texts(strings@)[j] != text@,
    {
        if same_text(strings[i].as_str(), text) {
            assert(texts(strings@)[i as int] == text@);
            return true;
        }
    }
    false
}

/// Two texts one after the other.
pub fn join2(a: &str, b: &str) -> (text: String)
    ensures
        text@ == a@ + b@,
{
    a.to_owned().concat(b)
}

/// Three texts one after the other.
pub fn join3(a: &str, b: &str, c: &str) -> (text: String)
    ensures
        text@ == a@ + b@ + c@,
{
    a.to_owned().concat(b).concat(c)
}

/// A copy of an optional string.
pub fn copy_opt(value: &Option<String>) -> (copy: Option<String>)
    ensures
        opt_text(copy) == opt_text(*value),
{
    match value {
        Some(s) => Some(s.as_str().to_owned()),
        None => None,
    }
}

/// A copy of an optional string, empty where there is none.
pub fn copy_or_empty(value: &Option<String>) -> (copy: String)
    ensures
        copy@ == text_or_empty(opt_text(*value)),
{
    match value {
        Some(s) => s.as_str().to_owned(),
        None => String::new(),
    }
}

/// The text, or nothing if it is empty.
pub open spec fn non_empty(text: Seq<char>) -> Option<Seq<char>> {
    if text.len() == 0 {
        None
    } else {
        Some(text)
    }
}

/// A copy of the text, or nothing if it is empty.
pub fn copy_non_empty(text: &str) -> (copy: Option<String>)
    ensures
        opt_text(copy) == non_empty(text@),
{
    if text.is_empty() {
        None
    } else {
        Some(text.to_owned())
    }
}

// White space.

/// Whether a character has the Unicode property White_Space.
pub open spec fn is_white_space(c: char) -> bool {
    let v = c as u32;
    ||| 0x9 <= v <= 0xd
    ||| v == 0x20
    ||| v == 0x85
    ||| v == 0xa0
    ||| v == 0x1680
    ||| 0x2000 <= v <= 0x200a
    ||| v == 0x2028
    ||| v == 0x2029
    ||| v == 0x202f
    ||| v == 0x205f
    ||| v == 0x3000
}

/// Whether a character has the Unicode property White_Space.
pub fn white_space(c: char) -> (space: bool)
    ensures
        space == is_white_space(c),
{
    let v = c as u32;
    (0x9 <= v && v <= 0xd) || v == 0x20 || v == 0x85 || v == 0xa0 || v == 0x1680 || (0x2000 <= v
        && v <= 0x200a) || v == 0x2028 || v == 0x2029 || v == 0x202f || v == 0x205f || v == 0x3000
}

/// A text without the white space at its start.
pub open spec fn trim_start(text: Seq<char>) -> Seq<char>
    decreases text.len(),
{
    if text.len() > 0 && is_white_space(text[0]) {
        trim_start(text.drop_first())
    } else {
        text
    }
}

/// A text without the white space at its end.
pub open spec fn trim_end(text: Seq<char>) -> Seq<char>
    decreases text.len(),
{
    if text.len() > 0 && is_white_space(text.last()) {
        trim_end(text.drop_last())
    } else {
        text
    }
}

/// A text without the white space at both ends.
pub open spec fn trimmed(text: Seq<char>) -> Seq<char> {
    trim_end(trim_start(text))
}

/// The text without the white space at both ends.
pub fn trim(text: &str) -> (inner: String)
    ensures
        inner@ == trimmed(text@),
{
    let chars = to_chars(text);
    let mut start: usize = 0;
    let n = chars.len();
    assert(chars@.subrange(0, n as int) =~= chars@);
    while start < n && white_space(chars[start])
        invariant
            start <= n == chars@.len(),
            trim_start(chars@.subrange(start as int, n as int)) == trim_start(chars@),
        decreases n - start,
    {
        assert(chars@.subrange(start as int, n as int).drop_first() =~= chars@.subrange(
            start + 1,
            n as int,
        ));
        start += 1;
    }
    let mut end: usize = n;
    while start < end && white_space(chars[end - 1])
        invariant
            start <= end <= n == chars@.len(),
            trim_end(chars@.subrange(start as int, end as int)) == trimmed(chars@),
        decreases end - start,
    {
        assert(chars@.subrange(start as int, end as int).drop_last() =~= chars@.subrange(
            start as int,
            end - 1,
        ));
        end -= 1;
    }
    from_chars(&chars, start, end)
}

/// Trimming takes nothing away but white space at the two ends, and leaves
/// none there.
pub proof fn trimming_keeps_the_inner_text(text: Seq<char>)
    ensures
        exists|i: int, j: int|
            0 <= i <= j <= text.len() && trimmed(text) == #[trigger] text.subrange(i, j) && (
            forall|k: int| 0 <= k < i ==> is_white_space(#[trigger] text[k])) && (forall|k: int|
                j <= k < text.len() ==> is_white_space(#[trigger] text[k])),
        trimmed(text).len() > 0 ==> !is_white_space(trimmed(text)[0]) && !is_white_space(
            trimmed(text).last(),
        ),
        trimmed(trimmed(text)) == trimmed(text),
{
    let i = trim_start_at(text);
    let inner = trim_start(text);
    let j = trim_end_at(inner);
    assert(trimmed(text) =~= text.subrange(i, i + j));
    assert forall|k: int| i + j <= k < text.len() implies is_white_space(#[trigger] text[k]) by {
        assert(inner[k - i] == text[k]);
    }
    if trimmed(text).len() > 0 {
        assert(trimmed(text)[0] == inner[0]);
    }
}

/// Trimming leaves nothing of a text just if all of it is white space.
pub proof fn blank_is_all_white(text: Seq<char>)
    ensures
        trimmed(text).len() == 0 <==> forall|i: int|
            0 <= i < text.len() ==> is_white_space(#[trigger] text[i]),
{
    trimming_keeps_the_inner_text(text);
    let (i, j) = choose|i: int, j: int|
        0 <= i <= j <= text.len() && trimmed(text) == #[trigger] text.subrange(i, j) && (forall|
            k: int,
        |
            0 <= k < i ==> is_white_space(#[trigger] text[k])) && (forall|k: int|
            j <= k < text.len() ==> is_white_space(#[trigger] text[k]));
    if trimmed(text).len() > 0 {
        assert(trimmed(text)[0] == text[i]);
    }
}

proof fn trim_start_at(text: Seq<char>) -> (i: int)
    ensures
        0 <= i <= text.len(),
        trim_start(text) == text.subrange(i, text.len() as int),
        forall|k: int| 0 <= k < i ==> is_white_space(#[trigger] text[k]),
        i < text.len() ==> !is_white_space(text[i]),
    decreases text.len(),
{
    if text.len() > 0 && is_white_space(text[0]) {
        let rest = text.drop_first();
        let i = trim_start_at(rest);
        assert(rest.subrange(i, rest.len() as int) =~= text.subrange(i + 1, text.len() as int));
        assert forall|k: int| 0 <= k < i + 1 implies is_white_space(#[trigger] text[k]) by {
            if k > 0 {
                assert(rest[k - 1] == text[k]);
            }
        }
        i + 1
    } else {
        assert(text.subrange(0, text.len() as int) =~= text);
        0
    }
}

proof fn trim_end_at(text: Seq<char>) -> (j: int)
    ensures
        0 <= j <= text.len(),
        trim_end(text) == text.subrange(0, j),
        forall|k: int| j <= k < text.len() ==> is_white_space(#[trigger] text[k]),
        j > 0 ==> !is_white_space(text[j - 1]),
    decreases text.len(),
{
    if text.len() > 0 && is_white_space(text.last()) {
        let rest = text.drop_last();
        let j = trim_end_at(rest);
        assert(rest.subrange(0, j) =~= text.subrange(0, j));
        assert forall|k: int| j <= k < text.len() implies is_white_space(#[trigger] text[k]) by {
            if k < rest.len() {
                assert(rest[k] == text[k]);
            }
        }
        j
    } else {
        assert(text.subrange(0, text.len() as int) =~= text);
        text.len() as int
    }
}

// ASCII case.

/// A character with the ASCII capitals mapped to small letters.
pub open spec fn ascii_lower_char(c: char) -> char {
    if 'A' <= c <= 'Z' {
        ((c as u32) + 32) as char
    } else {
        c
    }
}

/// A character with the ASCII small letters mapped to capitals.
pub open spec fn ascii_upper_char(c: char) -> char {
    if 'a' <= c <= 'z' {
        ((c as u32) - 32) as char
    } else {
        c
    }
}

/// A text with the ASCII capitals mapped to small letters.
pub open spec fn ascii_lower(text: Seq<char>) -> Seq<char> {
    text.map_values(|c: char| ascii_lower_char(c))
}

/// A text with the ASCII small letters mapped to capitals.
pub open spec fn ascii_upper(text: Seq<char>) -> Seq<char> {
    text.map_values(|c: char| ascii_upper_char(c))
}

/// The text with the ASCII capitals mapped to small letters.
pub fn to_ascii_lower(text: &str) -> (lower: String)
    ensures
        lower@ == ascii_lower(text@),
{
    let mut lower = String::new();
    for c in it: text.chars()
        invariant
            lower@ == ascii_lower(text@.take(it.index() as int)),
            it.seq() == text@,
    {
        let mapped = if 'A' <= c && c <= 'Z' {
            (c as u8 + 32) as char
        } else {
            c
        };
        lower.push(mapped);
        assert(lower@ =~= ascii_lower(text@.take(it.index() + 1)));
    }
    assert(text@.take(text@.len() as int) =~= text@);
    lower
}

/// The text with the ASCII small letters mapped to capitals.
pub fn to_ascii_upper(text: &str) -> (upper: String)
    ensures
        upper@ == ascii_upper(text@),
{
    let mut upper = String::new();
    for c in it: text.chars()
        invariant
            upper@ == ascii_upper(text@.take(it.index() as int)),
            it.seq() == text@,
    {
        let mapped = if 'a' <= c && c <= 'z' {
            (c as u8 - 32) as char
        } else {
            c
        };
        upper.push(mapped);
        assert(upper@ =~= ascii_upper(text@.take(it.index() + 1)));
    }
    assert(text@.take(text@.len() as int) =~= text@);
    upper
}

// What the texts above come to.

/// ASCII letters change their case and nothing else changes: every capital
/// becomes the small letter at the same place of the alphabet, every small
/// letter the capital, and all other characters stay where they are.
pub proof fn ascii_case_changes_letters_only(text: Seq<char>)
    ensures
        ascii_lower(text).len() == text.len(),
        ascii_upper(text).len() == text.len(),
        forall|i: int|
            #![trigger ascii_lower(text)[i]]
            0 <= i < text.len() ==> if 65 <= text[i] as int <= 90 {
                ascii_lower(text)[i] as int == text[i] as int + 32
            } else {
                ascii_lower(text)[i] == text[i]
            },
        forall|i: int|
            #![trigger ascii_upper(text)[i]]
            0 <= i < text.len() ==> if 97 <= text[i] as int <= 122 {
                ascii_upper(text)[i] as int == text[i] as int - 32
            } else {
                ascii_upper(text)[i] == text[i]
            },
        ascii_lower(ascii_lower(text)) == ascii_lower(text),
        ascii_lower(ascii_upper(text)) == ascii_lower(text),
{
    assert(ascii_lower(ascii_lower(text)) =~= ascii_lower(text));
    assert(ascii_lower(ascii_upper(text)) =~= ascii_lower(text));
}

/// In lower case a text of ASCII characters keeps its length and loses its
/// capitals only; what the Unicode tables give for another is taken as it is.
pub proof fn lower_case_is_faithful(text: Seq<char>)
    ensures
        (forall|i: int| 0 <= i < text.len() ==> 0 <= (#[trigger] text[i]) as int <= 127) ==> {
            &&& lower_text(text).len() == text.len()
            &&& forall|i: int|
                #![trigger lower_text(text)[i]]
                0 <= i < text.len() ==> lower_text(text)[i] as int == (if 65 <= text[i] as int
                    <= 90 {
                    text[i] as int + 32
                } else {
                    text[i] as int
                })
        },
        (exists|i: int| 0 <= i < text.len() && (#[trigger] text[i]) as int > 127) ==> lower_text(
            text,
        ) == lowercase(text),
{
    ascii_case_changes_letters_only(text);
    if forall|i: int| 0 <= i < text.len() ==> 0 <= (#[trigger] text[i]) as int <= 127 {
        assert(is_ascii_chars(text));
        assert(lower_text(text) == ascii_lower(text));
    }
}

/// Bytes that are valid UTF-8 are read without a loss: the text encodes to the
/// same bytes. Other bytes are read with replacements.
pub proof fn valid_bytes_are_read_whole(bytes: Seq<u8>)
    ensures
        valid_utf8(bytes) ==> encode_utf8(lossy_text(bytes)) == bytes,
        !valid_utf8(bytes) ==> lossy_text(bytes) == utf8_lossy(bytes),
{
    if valid_utf8(bytes) {
        decode_utf8_encode_utf8(bytes);
    }
}

/// A text that is encoded is read back as it was.
pub proof fn encoded_text_is_read_back(text: Seq<char>)
    ensures
        lossy_text(encode_utf8(text)) == text,
{
    encode_utf8_valid_utf8(text);
    encode_utf8_decode_utf8(text);
}

/// Nothing but the empty text counts as missing, and what is there stays as it
/// is.
pub proof fn only_empty_texts_are_missing(text: Seq<char>)
    ensures
        non_empty(text) is None <==> text.len() == 0,
        text.len() > 0 ==> non_empty(text) == Some(text),
        text_or_empty(Some(text)) == text,
        text_or_empty(None).len() == 0,
        text_or_empty(non_empty(text)) == text,
{
    if text.len() == 0 {
        assert(text =~= Seq::empty());
    }
}

/// The models of strings hold their characters and nothing else.
pub proof fn string_models_are_faithful(strings: Seq<String>, value: Option<String>)
    ensures
        texts(strings).len() == strings.len(),
        forall|i: int| 0 <= i < strings.len() ==> #[trigger] texts(strings)[i] == strings[i]@,
        opt_text(value) is Some <==> value is Some,
        value matches Some(s) ==> opt_text(value) == Some(s@),
{
}

} // verus!
