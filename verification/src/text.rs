//! Text as it crosses the wire and as it is shown: the check that bytes are
//! UTF-8, and the console line of a text message.

use vstd::prelude::*;
use vstd::string::*;
use vstd::utf8::*;

verus! {

/// The error of `core::str::from_utf8` of the standard library. The library
/// looks at nothing inside it.
#[verifier::external_type_specification]
#[verifier::external_body]
pub struct ExUtf8Error(core::str::Utf8Error);

/// `core::str::from_utf8` of the standard library. It succeeds exactly when
/// the bytes are well-formed UTF-8, and the string it then returns is made of
/// those same bytes.
pub assume_specification[ core::str::from_utf8 ](v: &[u8]) -> (r: Result<
    &str,
    core::str::Utf8Error,
>)
    ensures
        r is Ok <==> valid_utf8(v@),
        r matches Ok(s) ==> s.spec_bytes() == v@,
;

/// Whether `bytes` are well-formed UTF-8.
pub fn is_utf8(bytes: &[u8]) -> (ok: bool)
    ensures
        ok == valid_utf8(bytes@),
{
    match core::str::from_utf8(bytes) {
        Ok(_) => true,
        Err(_) => false,
    }
}

/// The characters that count as white space: those that Unicode gives the
/// property White_Space.
pub open spec fn white_space(c: char) -> bool {
    let u = c as u32;
    ||| 0x09 <= u <= 0x0d
    ||| u == 0x20
    ||| u == 0x85
    ||| u == 0xa0
    ||| u == 0x1680
    ||| 0x2000 <= u <= 0x200a
    ||| u == 0x2028
    ||| u == 0x2029
    ||| u == 0x202f
    ||| u == 0x205f
    ||| u == 0x3000
}

/// `text` without the white space at its end.
pub open spec fn trimmed_end(text: Seq<char>) -> Seq<char>
    decreases text.len(),
{
    if text.len() > 0 && white_space(text.last()) {
        trimmed_end(text.drop_last())
    } else {
        text
    }
}

/// The line that shows a text message: the author, a colon and a space, and
/// the text without the white space at its end.
pub open spec fn shown_line(author: Seq<char>, text: Seq<char>) -> Seq<char> {
    author + seq![':', ' '] + trimmed_end(text)
}

pub fn is_white_space(c: char) -> (b: bool)
    ensures
        b == white_space(c),
{
    let u = c as u32;
    (0x09 <= u && u <= 0x0d) || u == 0x20 || u == 0x85 || u == 0xa0 || u == 0x1680 || (0x2000 <= u
        && u <= 0x200a) || u == 0x2028 || u == 0x2029 || u == 0x202f || u == 0x205f || u == 0x3000
}

/// Cuts the white space off the end of `text`.
pub fn trim_end(text: &str) -> (r: &str)
    ensures
        r@ == trimmed_end(text@),
{
    let n = text.unicode_len();
    let mut k = n;
    assert(text@.take(k as int) =~= text@);
    while k > 0 && is_white_space(text.get_char(k - 1))
        invariant
            k <= n,
            n == text@.len(),
            trimmed_end(text@) == trimmed_end(text@.take(k as int)),
        decreases k,
    {
        assert(text@.take(k as int).drop_last() =~= text@.take(k - 1));
        k -= 1;
    }
    text.substring_char(0, k)
}

/// Renders the console line of a text message.
pub fn display_line(author: &str, text: &str) -> (line: String)
    ensures
        line@ == shown_line(author@, text@),
{
    let mut line = String::from_str(author);
    proof {
        reveal_strlit(": ");
    }
    line.append(": ");
    line.append(trim_end(text));
    assert(line@ =~= shown_line(author@, text@));
    line
}

} // verus!
