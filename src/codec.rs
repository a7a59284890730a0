use vstd::prelude::*;

use crate::errors::NNTPError;
use vstd::string::StringSliceAdditionalSpecFns;
use crate::text::{chars_of, decimal_value, is_isize_text, parse_decimal, string_of, trim, trim_bounds};

verus! {

/// What `encoding_rs::UTF_8.decode` gives for some bytes: the text, and
/// whether malformed sequences were replaced.
pub uninterp spec fn utf8_decoding(b: Seq<u8>) -> (Seq<char>, bool);

/// What `encoding_rs::WINDOWS_1252.decode` gives for some bytes: the text,
/// and whether malformed sequences were replaced.
pub uninterp spec fn windows_1252_decoding(b: Seq<u8>) -> (Seq<char>, bool);

/// Bytes that open with a byte order mark, which makes the decoder switch
/// encodings.
pub open spec fn has_bom(b: Seq<u8>) -> bool {
    ||| b.len() >= 3 && b[0] == 0xEF && b[1] == 0xBB && b[2] == 0xBF
    ||| b.len() >= 2 && b[0] == 0xFF && b[1] == 0xFE
    ||| b.len() >= 2 && b[0] == 0xFE && b[1] == 0xFF
}

/// Characters whose code points are the given bytes, one for one.
pub open spec fn same_code_points(t: Seq<char>, b: Seq<u8>) -> bool {
    &&& t.len() == b.len()
    &&& forall|i: int| 0 <= i < b.len() ==> (#[trigger] t[i]) as u32 == b[i] as u32
}

/// Bytes that Windows-1252 and Latin-1 read alike: none in 0x80..=0x9F.
pub open spec fn latin1_bytes(b: Seq<u8>) -> bool {
    forall|i: int| 0 <= i < b.len() ==> (#[trigger] b[i]) < 0x80 || b[i] >= 0xA0
}

/// Relies on encoding_rs's `Encoding::decode` for `UTF_8`: the text and the
/// error flag; ASCII-only input is borrowed as it is, without errors.
/// The capacity it computes (about three times the length, rounded up to a
/// power of two) must not overflow.
#[verifier::external_body]
fn decode_utf8(b: &[u8]) -> (r: (String, bool))
    requires
        b@.len() <= usize::MAX / 8,
    ensures
        (r.0@, r.1) == utf8_decoding(b@),
        (forall|i: int| 0 <= i < b@.len() ==> #[trigger] b@[i] < 0x80) ==> !r.1 && same_code_points(
            r.0@,
            b@,
        ),
{
    let (text, _, had_errors) = encoding_rs::UTF_8.decode(b);
    (text.into_owned(), had_errors)
}

/// Relies on encoding_rs's `Encoding::decode` for `WINDOWS_1252`: the text and
/// the error flag. Without a byte order mark every byte maps to one
/// character, with no errors, and 0xA0..=0xFF map to U+00A0..=U+00FF.
/// The capacity it computes (three times the length, rounded up to a power
/// of two) must not overflow.
#[verifier::external_body]
fn decode_windows_1252(b: &[u8]) -> (r: (String, bool))
    requires
        b@.len() <= usize::MAX / 8,
    ensures
        (r.0@, r.1) == windows_1252_decoding(b@),
        !has_bom(b@) ==> !r.1 && r.0@.len() == b@.len(),
        !has_bom(b@) && latin1_bytes(b@) ==> same_code_points(r.0@, b@),
{
    let (text, _, had_errors) = encoding_rs::WINDOWS_1252.decode(b);
    (text.into_owned(), had_errors)
}

/// The text of a received line: UTF-8 where it decodes cleanly, else
/// Windows-1252 where that does, else nothing.
pub open spec fn decoded(b: Seq<u8>) -> Option<Seq<char>> {
    if !utf8_decoding(b).1 {
        Some(utf8_decoding(b).0)
    } else if !windows_1252_decoding(b).1 {
        Some(windows_1252_decoding(b).0)
    } else {
        None
    }
}

/// Decodes a received line: UTF-8 first, then Windows-1252; `DecodingError`
/// where both report malformed input.
pub fn decode_text(bytes: &[u8]) -> (r: Result<String, NNTPError>)
    requires
        bytes@.len() <= usize::MAX / 8,
    ensures
        r is Ok <==> decoded(bytes@) is Some,
        r is Ok ==> r->Ok_0@ == decoded(bytes@)->0,
        r is Err ==> r->Err_0 is DecodingError,
        (forall|i: int| 0 <= i < bytes@.len() ==> #[trigger] bytes@[i] < 0x80) ==> r is Ok
            && same_code_points(r->Ok_0@, bytes@),
        utf8_decoding(bytes@).1 && !has_bom(bytes@) && latin1_bytes(bytes@) ==> r is Ok
            && same_code_points(r->Ok_0@, bytes@),
{
    let (text, had_errors) = decode_utf8(bytes);
    if !had_errors {
        return Ok(text);
    }
    let (text, had_errors) = decode_windows_1252(bytes);
    if had_errors {
        return Err(NNTPError::DecodingError);
    }
    Ok(text)
}

/// A buffer whose last two bytes are CR, LF: a complete line.
pub open spec fn ends_with_crlf(b: Seq<u8>) -> bool {
    b.len() >= 2 && b[b.len() - 2] == 0x0D && b[b.len() - 1] == 0x0A
}

/// Tells whether a line buffer is complete.
pub fn line_complete(buf: &Vec<u8>) -> (r: bool)
    ensures
        r == ends_with_crlf(buf@),
{
    let n = buf.len();
    n >= 2 && buf[n - 2] == 0x0D && buf[n - 1] == 0x0A
}

/// A message ready to post: it ends with CR LF . CR LF.
pub open spec fn is_terminated_message(b: Seq<u8>) -> bool {
    b.len() >= 5 && b.subrange(b.len() - 5, b.len() as int) == seq![0x0Du8, 0x0Au8, 0x2Eu8, 0x0Du8, 0x0Au8]
}

/// Tells whether `message` ends with the bytes CR LF . CR LF.
pub fn is_valid_message(message: &str) -> (r: bool)
    ensures
        r == is_terminated_message(message.spec_bytes()),
{
    let b = message.as_bytes();
    let n = b.len();
    let r = n >= 5 && b[n - 5] == 0x0D && b[n - 4] == 0x0A && b[n - 3] == 0x2E && b[n - 2] == 0x0D
        && b[n - 1] == 0x0A;
    proof {
        if n >= 5 {
            let tail = b@.subrange(n - 5, n as int);
            if r {
                assert(tail =~= seq![0x0Du8, 0x0Au8, 0x2Eu8, 0x0Du8, 0x0Au8]);
            } else {
                assert(tail[0] == b@[n - 5]);
                assert(tail[1] == b@[n - 4]);
                assert(tail[2] == b@[n - 3]);
                assert(tail[3] == b@[n - 2]);
                assert(tail[4] == b@[n - 1]);
            }
        }
    }
    r
}

/// A status line, once its line end is trimmed: at least five characters,
/// the fourth a space, the first three a decimal code.
pub open spec fn is_status_line(line: Seq<char>) -> bool {
    let t = trim(line, false);
    t.len() >= 5 && t[3] == ' ' && is_isize_text(t.take(3))
}

/// The code of a status line.
pub open spec fn status_code(line: Seq<char>) -> int {
    decimal_value(trim(line, false).take(3))
}

/// The text after the code of a status line.
pub open spec fn status_text(line: Seq<char>) -> Seq<char> {
    trim(line, false).skip(4)
}

/// Splits a status line `NNN rest` into its code and the rest; a line of
/// another shape is an `InvalidResponse` that carries it, line end trimmed.
pub fn parse_status_line(line: &str) -> (r: Result<(isize, String), NNTPError>)
    ensures
        r is Ok <==> is_status_line(line@),
        r is Ok ==> r->Ok_0.0 == status_code(line@) && r->Ok_0.1@ == status_text(line@),
        r is Err ==> r->Err_0 is InvalidResponse && r->Err_0->InvalidResponse_response@ == trim(
            line@,
            false,
        ),
{
    let cs = chars_of(line);
    let (lo, hi) = trim_bounds(&cs, 0, cs.len(), false);
    assert(cs@.subrange(0, cs@.len() as int) =~= line@);
    let ghost t = trim(line@, false);
    if hi - lo < 5 || cs[lo + 3] != ' ' {
        return Err(NNTPError::InvalidResponse { response: string_of(&cs, lo, hi) });
    }
    assert(cs@.subrange(lo as int, lo + 3) =~= t.take(3));
    match parse_decimal(&cs, lo, lo + 3) {
        Some(code) => {
            assert(cs@.subrange(lo + 4, hi as int) =~= t.skip(4));
            Ok((code, string_of(&cs, lo + 4, hi)))
        },
        None => Err(NNTPError::InvalidResponse { response: string_of(&cs, lo, hi) }),
    }
}

/// The terminator of a multi-line payload.
pub open spec fn is_terminator(line: Seq<char>) -> bool {
    line == seq!['.', '\r', '\n']
}

/// A payload line as delivered: a leading `.` of a line that opens with
/// `..` is dropped; any other line is kept as it is.
pub open spec fn unstuffed(line: Seq<char>) -> Seq<char> {
    if line.len() >= 2 && line[0] == '.' && line[1] == '.' {
        line.drop_first()
    } else {
        line
    }
}

/// Handles one line of a multi-line payload: `None` for the terminator,
/// else the line as delivered.
pub fn payload_line(line: &str) -> (r: Option<String>)
    ensures
        r is None <==> is_terminator(line@),
        r is Some ==> r->0@ == unstuffed(line@),
{
    let cs = chars_of(line);
    let n = cs.len();
    if n == 3 && cs[0] == '.' && cs[1] == '\r' && cs[2] == '\n' {
        assert(line@ =~= seq!['.', '\r', '\n']);
        return None;
    }
    if n >= 2 && cs[0] == '.' && cs[1] == '.' {
        assert(cs@.subrange(1, n as int) =~= line@.drop_first());
        Some(string_of(&cs, 1, n))
    } else {
        assert(cs@.subrange(0, n as int) =~= line@);
        Some(string_of(&cs, 0, n))
    }
}

} // verus!
