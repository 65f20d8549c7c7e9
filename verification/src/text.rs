//! Bounded text: what an identifier, a key, a currency and a reason may hold.

use vstd::prelude::*;
use vstd::string::*;
use vstd::utf8::*;

verus! {

/// The characters of a string.
pub type Text = Seq<char>;

pub const MAX_ID_BYTES: usize = 512;

pub const MAX_REASON_BYTES: usize = 2_000;

pub const MAX_IDEMPOTENCY_BYTES: usize = 200;

/// The control characters of Unicode (general category `Cc`).
pub open spec fn control_char(c: char) -> bool {
    c as u32 <= 0x1f || 0x7f <= c as u32 <= 0x9f
}

/// The characters with the Unicode property `White_Space`.
pub open spec fn white_space(c: char) -> bool {
    let n = c as u32;
    ||| 0x09 <= n <= 0x0d
    ||| n == 0x20
    ||| n == 0x85
    ||| n == 0xa0
    ||| n == 0x1680
    ||| 0x2000 <= n <= 0x200a
    ||| n == 0x2028
    ||| n == 0x2029
    ||| n == 0x202f
    ||| n == 0x205f
    ||| n == 0x3000
}

/// The number of bytes that the text takes in UTF-8.
pub open spec fn byte_len(s: Text) -> nat {
    encode_utf8(s).len()
}

/// Nothing is left of the text once the white space round it is trimmed.
pub open spec fn blank(s: Text) -> bool {
    forall|i: int| 0 <= i < s.len() ==> white_space(#[trigger] s[i])
}

pub open spec fn holds_control(s: Text) -> bool {
    exists|i: int| 0 <= i < s.len() && control_char(#[trigger] s[i])
}

pub open spec fn holds_white_space(s: Text) -> bool {
    exists|i: int| 0 <= i < s.len() && white_space(#[trigger] s[i])
}

/// At most `max_bytes` bytes, no control character, and not blank unless that is allowed.
pub open spec fn text_accepted(s: Text, max_bytes: int, allow_empty: bool) -> bool {
    &&& byte_len(s) <= max_bytes
    &&& allow_empty || !blank(s)
    &&& !holds_control(s)
}

pub open spec fn id_accepted(s: Text) -> bool {
    text_accepted(s, MAX_ID_BYTES as int, false)
}

pub open spec fn optional_id_accepted(s: Option<Text>) -> bool {
    s matches Some(id) ==> id_accepted(id)
}

pub open spec fn key_accepted(s: Text) -> bool {
    text_accepted(s, MAX_IDEMPOTENCY_BYTES as int, false)
}

/// Accepted text without any white space in it.
pub open spec fn identifier_accepted(s: Text, max_bytes: int) -> bool {
    text_accepted(s, max_bytes, false) && !holds_white_space(s)
}

/// Three ASCII capital letters.
pub open spec fn currency_accepted(s: Text) -> bool {
    s.len() == 3 && forall|i: int| 0 <= i < 3 ==> 'A' <= #[trigger] s[i] <= 'Z'
}

pub fn is_control(c: char) -> (r: bool)
    ensures
        r == control_char(c),
{
    let n: u32 = c as u32;
    n <= 0x1f || (0x7f <= n && n <= 0x9f)
}

pub fn is_white_space(c: char) -> (r: bool)
    ensures
        r == white_space(c),
{
    let n: u32 = c as u32;
    (0x09 <= n && n <= 0x0d) || n == 0x20 || n == 0x85 || n == 0xa0 || n == 0x1680 || (0x2000 <= n
        && n <= 0x200a) || n == 0x2028 || n == 0x2029 || n == 0x202f || n == 0x205f || n == 0x3000
}

/// The characters of `value`, one by one.
pub(crate) fn chars_of(value: &str) -> (r: Vec<char>)
    ensures
        r@ == value@,
{
    let mut out: Vec<char> = Vec::new();
    for c in it: value.chars()
        invariant
            out@ == value@.take(it.index() as int),
            it.seq() == value@,
    {
        out.push(c);
    }
    out
}

pub(crate) fn same_text(left: &str, right: &str) -> (r: bool)
    ensures
        r == (left@ == right@),
{
    left.to_owned() == right.to_owned()
}

pub fn valid_text(value: &str, max_bytes: usize, allow_empty: bool) -> (r: bool)
    ensures
        r == text_accepted(value@, max_bytes as int, allow_empty),
{
    if value.as_bytes().len() > max_bytes {
        return false;
    }
    let chars = chars_of(value);
    let mut seen_ink = false;
    let mut i: usize = 0;
    while i < chars.len()
        invariant
            i <= chars.len(),
            chars@ == value@,
            seen_ink == exists|j: int| 0 <= j < i && !white_space(#[trigger] value@[j]),
            forall|j: int| 0 <= j < i ==> !control_char(#[trigger] value@[j]),
        decreases chars.len() - i,
    {
        if is_control(chars[i]) {
            assert(control_char(value@[i as int]));
            return false;
        }
        if !is_white_space(chars[i]) {
            assert(!white_space(value@[i as int]));
            seen_ink = true;
        }
        i = i + 1;
    }
    allow_empty || seen_ink
}

pub fn valid_id(value: &str) -> (r: bool)
    ensures
        r == id_accepted(value@),
{
    valid_text(value, MAX_ID_BYTES, false)
}

pub fn valid_idempotency_key(value: &str) -> (r: bool)
    ensures
        r == key_accepted(value@),
{
    valid_text(value, MAX_IDEMPOTENCY_BYTES, false)
}

pub fn valid_identifier(value: &str, max_bytes: usize) -> (r: bool)
    ensures
        r == identifier_accepted(value@, max_bytes as int),
{
    if !valid_text(value, max_bytes, false) {
        return false;
    }
    let chars = chars_of(value);
    let mut i: usize = 0;
    while i < chars.len()
        invariant
            i <= chars.len(),
            chars@ == value@,
            forall|j: int| 0 <= j < i ==> !white_space(#[trigger] value@[j]),
        decreases chars.len() - i,
    {
        if is_white_space(chars[i]) {
            assert(white_space(value@[i as int]));
            return false;
        }
        i = i + 1;
    }
    true
}

pub fn valid_currency(value: &str) -> (r: bool)
    ensures
        r == currency_accepted(value@),
{
    let chars = chars_of(value);
    if chars.len() != 3 {
        return false;
    }
    let mut i: usize = 0;
    while i < 3
        invariant
            i <= 3,
            chars@ == value@,
            chars@.len() == 3,
            forall|j: int| 0 <= j < i ==> 'A' <= #[trigger] value@[j] <= 'Z',
        decreases 3 - i,
    {
        let c = chars[i];
        if c < 'A' || c > 'Z' {
            assert(!('A' <= value@[i as int] <= 'Z'));
            return false;
        }
        i = i + 1;
    }
    true
}

/// What can be handed over as a text.
pub trait IntoText: Sized {
    spec fn text(self) -> Text;

    fn into_text(self) -> (r: String)
        ensures
            r@ == self.text(),
    ;
}

impl IntoText for String {
    open spec fn text(self) -> Text {
        self@
    }

    fn into_text(self) -> (r: String) {
        self
    }
}

impl<'a> IntoText for &'a str {
    open spec fn text(self) -> Text {
        self@
    }

    fn into_text(self) -> (r: String) {
        self.to_owned()
    }
}

/// Which characters are control characters, and which are white space.
pub proof fn law_characters_are_told_apart(c: char)
    ensures
        ({
            let n = c as u32;
            &&& control_char(c) <==> n <= 31 || (127 <= n && n <= 159)
            &&& white_space(c) <==> {
                ||| n == 9 || n == 10 || n == 11 || n == 12 || n == 13 || n == 32
                ||| n == 133 || n == 160 || n == 5760
                ||| n == 8192 || n == 8193 || n == 8194 || n == 8195 || n == 8196 || n == 8197
                ||| n == 8198 || n == 8199 || n == 8200 || n == 8201 || n == 8202
                ||| n == 8232 || n == 8233 || n == 8239 || n == 8287 || n == 12288
            }
        }),
{
}

/// What is accepted of bounded text: a length in bytes, something to be seen, and no control
/// character; in an identifier no white space at all; in a currency three capital letters.
pub proof fn law_accepted_text_is_bounded_and_visible(s: Text, max_bytes: int)
    ensures
        text_accepted(s, max_bytes, false) <==> {
            &&& encode_utf8(s).len() <= max_bytes
            &&& exists|i: int| 0 <= i < s.len() && !white_space(#[trigger] s[i])
            &&& forall|i: int| 0 <= i < s.len() ==> !control_char(#[trigger] s[i])
        },
        text_accepted(s, max_bytes, true) <==> {
            &&& encode_utf8(s).len() <= max_bytes
            &&& forall|i: int| 0 <= i < s.len() ==> !control_char(#[trigger] s[i])
        },
        id_accepted(s) <==> text_accepted(s, 512, false),
        key_accepted(s) <==> text_accepted(s, 200, false),
        identifier_accepted(s, max_bytes) <==> text_accepted(s, max_bytes, false) && forall|i: int|
            0 <= i < s.len() ==> !white_space(#[trigger] s[i]),
        optional_id_accepted(None),
        optional_id_accepted(Some(s)) <==> id_accepted(s),
        currency_accepted(s) <==> s.len() == 3 && 'A' <= s[0] <= 'Z' && 'A' <= s[1] <= 'Z' && 'A'
            <= s[2] <= 'Z',
{
    if !blank(s) {
        let i = choose|i: int| 0 <= i < s.len() && !white_space(#[trigger] s[i]);
        assert(!white_space(s[i]));
    }
}

} // verus!
