//! Detection of a document's format revision from its text.
//!
//! A rustdoc JSON file conventionally ends in `,"format_version":N}`. The fast
//! path reads the revision from the last bytes of the file alone. Where the
//! tail has not that shape, the whole text is parsed and the top-level field
//! is read.

use vstd::prelude::*;
use vstd::slice::slice_subrange;
use vstd::string::StringExecFns;
use vstd::string::StringSliceAdditionalSpecFns;
use crate::decimal::{
    all_digits, decimal_digits, digits_value, is_digit, lemma_digit_count,
    lemma_digits_round_trip, lemma_short_numeral, parse_unsigned, ten_to, unsigned_decimal,
};
use crate::error::{outcome, LoadingError, LoadingErrorView};
use crate::json::{parse_view, read_top_level_unsigned, top_level_unsigned};
use crate::text::{ascii_text, lemma_ascii_text_encodes, lemma_encode_concat};

verus! {

/// The number of bytes at the end of a file that the fast path inspects: room
/// for a comma, the quoted key, a colon, four digits and the closing brace.
pub const TAIL_LEN: usize = 23;

/// The quoted key `"format_version"` as bytes.
pub open spec fn key_bytes() -> Seq<u8> {
    seq![
        34u8, 102u8, 111u8, 114u8, 109u8, 97u8, 116u8, 95u8, 118u8, 101u8, 114u8, 115u8, 105u8,
        111u8, 110u8, 34u8,
    ]
}

/// The greatest index at which `b` stands in `s`, if it stands there at all.
pub open spec fn last_index_of(s: Seq<u8>, b: u8) -> Option<int>
    decreases s.len(),
{
    if s.len() == 0 {
        None
    } else if s.last() == b {
        Some(s.len() - 1)
    } else {
        last_index_of(s.drop_last(), b)
    }
}

/// The step at which the fast path gave up.
#[derive(Debug, Clone, Copy, PartialEq, Eq, Structural)]
pub enum FastPathFailure {
    /// The text is shorter than the inspected tail.
    TooShort,
    /// The tail holds no comma.
    NoComma,
    /// No colon follows the last comma.
    NoColon,
    /// No closing brace follows the last comma.
    NoBrace,
    /// The text between the last comma and the last colon is not the key.
    WrongKey,
    /// The text between the last colon and the last closing brace is no
    /// unsigned 32-bit decimal numeral.
    InvalidNumber,
}

impl FastPathFailure {
    /// The sentence that names the failed step.
    pub open spec fn cause(self) -> Seq<char> {
        match self {
            FastPathFailure::TooShort => "Fast path failed: file is shorter than 23 bytes."@,
            FastPathFailure::NoComma => "Fast path failed: comma not found in last 23 bytes."@,
            FastPathFailure::NoColon => "Fast path failed: no colon follows the final comma."@,
            FastPathFailure::NoBrace =>
                "Fast path failed: file does not end with a close bracket."@,
            FastPathFailure::WrongKey => "Fast path failed: final key is not \"format_version\""@,
            FastPathFailure::InvalidNumber => "Fast path failed: version number is invalid."@,
        }
    }

    /// The sentence that names the failed step.
    pub fn describe(&self) -> (r: &'static str)
        ensures
            r@ == self.cause(),
    {
        match self {
            FastPathFailure::TooShort => "Fast path failed: file is shorter than 23 bytes.",
            FastPathFailure::NoComma => "Fast path failed: comma not found in last 23 bytes.",
            FastPathFailure::NoColon => "Fast path failed: no colon follows the final comma.",
            FastPathFailure::NoBrace => "Fast path failed: file does not end with a close bracket.",
            FastPathFailure::WrongKey => "Fast path failed: final key is not \"format_version\"",
            FastPathFailure::InvalidNumber => "Fast path failed: version number is invalid.",
        }
    }
}

/// What the fast path reads from the part of the tail that starts at its last
/// comma.
pub open spec fn read_after_comma(rest: Seq<u8>) -> Result<u32, FastPathFailure> {
    match last_index_of(rest, 58) {
        None => Err(FastPathFailure::NoColon),
        Some(sep) => match last_index_of(rest, 125) {
            None => Err(FastPathFailure::NoBrace),
            Some(end) => if rest.subrange(1, sep) != key_bytes() {
                Err(FastPathFailure::WrongKey)
            } else if end <= sep {
                Err(FastPathFailure::InvalidNumber)
            } else {
                match unsigned_decimal(rest.subrange(sep + 1, end)) {
                    Some(n) => Ok(n),
                    None => Err(FastPathFailure::InvalidNumber),
                }
            },
        },
    }
}

/// What the fast path reads from the bytes of a file.
pub open spec fn fast_path(data: Seq<u8>) -> Result<u32, FastPathFailure> {
    if data.len() < TAIL_LEN {
        Err(FastPathFailure::TooShort)
    } else {
        let tail = data.subrange(data.len() - TAIL_LEN, data.len() as int);
        match last_index_of(tail, 44) {
            None => Err(FastPathFailure::NoComma),
            Some(start) => read_after_comma(tail.subrange(start, tail.len() as int)),
        }
    }
}

/// Where `last_index_of` finds the byte, it stands there and nowhere later;
/// where it finds none, the byte stands nowhere.
pub proof fn lemma_last_index_of(s: Seq<u8>, b: u8)
    ensures
        match last_index_of(s, b) {
            Some(i) => 0 <= i < s.len() && s[i] == b && forall|j: int|
                i < j < s.len() ==> s[j] != b,
            None => forall|j: int| 0 <= j < s.len() ==> s[j] != b,
        },
    decreases s.len(),
{
    if s.len() > 0 && s.last() != b {
        lemma_last_index_of(s.drop_last(), b);
        match last_index_of(s.drop_last(), b) {
            Some(i) => {
                assert(s.drop_last()[i] == s[i]);
                assert forall|j: int| i < j < s.len() implies s[j] != b by {
                    if j < s.len() - 1 {
                        assert(s.drop_last()[j] == s[j]);
                    }
                }
            },
            None => {
                assert forall|j: int| 0 <= j < s.len() implies s[j] != b by {
                    if j < s.len() - 1 {
                        assert(s.drop_last()[j] == s[j]);
                    }
                }
            },
        }
    }
}

/// A byte that stands at `i` and nowhere later is what `last_index_of` finds.
pub proof fn lemma_last_index_is(s: Seq<u8>, b: u8, i: int)
    requires
        0 <= i < s.len(),
        s[i] == b,
        forall|j: int| i < j < s.len() ==> s[j] != b,
    ensures
        last_index_of(s, b) == Some(i),
{
    lemma_last_index_of(s, b);
}

/// The last place of `b` in `bytes`.
fn find_last(bytes: &[u8], b: u8) -> (r: Option<usize>)
    ensures
        match r {
            Some(i) => last_index_of(bytes@, b) == Some(i as int) && i < bytes.len(),
            None => last_index_of(bytes@, b).is_none(),
        },
{
    let mut i: usize = bytes.len();
    while i > 0
        invariant
            i <= bytes.len(),
            forall|j: int| i <= j < bytes.len() ==> bytes@[j] != b,
        decreases i,
    {
        i = i - 1;
        if bytes[i] == b {
            proof {
                lemma_last_index_is(bytes@, b, i as int);
            }
            return Some(i);
        }
    }
    proof {
        lemma_last_index_of(bytes@, b);
    }
    None
}

/// Whether `bytes` is the quoted key.
fn is_key(bytes: &[u8]) -> (r: bool)
    ensures
        r == (bytes@ == key_bytes()),
{
    let key: [u8; 16] = [34, 102, 111, 114, 109, 97, 116, 95, 118, 101, 114, 115, 105, 111, 110, 34];
    assert(key@ =~= key_bytes());
    if bytes.len() != 16 {
        return false;
    }
    let mut i: usize = 0;
    while i < 16
        invariant
            i <= 16,
            bytes.len() == 16,
            key@ == key_bytes(),
            forall|j: int| 0 <= j < i ==> bytes@[j] == key_bytes()[j],
        decreases 16 - i,
    {
        if bytes[i] != key[i] {
            return false;
        }
        i = i + 1;
    }
    assert(bytes@ =~= key_bytes());
    true
}

/// The fast path on the bytes of a file.
pub fn read_tail(data: &[u8]) -> (r: Result<u32, FastPathFailure>)
    ensures
        r == fast_path(data@),
{
    let n: usize = data.len();
    if n < TAIL_LEN {
        return Err(FastPathFailure::TooShort);
    }
    let tail = slice_subrange(data, n - TAIL_LEN, n);
    let start: usize = match find_last(tail, 44) {
        Some(i) => i,
        None => {
            return Err(FastPathFailure::NoComma);
        },
    };
    let rest = slice_subrange(tail, start, TAIL_LEN);
    let sep: usize = match find_last(rest, 58) {
        Some(i) => i,
        None => {
            return Err(FastPathFailure::NoColon);
        },
    };
    let end: usize = match find_last(rest, 125) {
        Some(i) => i,
        None => {
            return Err(FastPathFailure::NoBrace);
        },
    };
    proof {
        // The part starts with the comma, so the colon stands behind its first byte.
        lemma_last_index_of(tail@, 44);
        lemma_last_index_of(rest@, 58);
        assert(rest@[0] == 44);
    }
    if !is_key(slice_subrange(rest, 1, sep)) {
        return Err(FastPathFailure::WrongKey);
    }
    if end <= sep {
        return Err(FastPathFailure::InvalidNumber);
    }
    match parse_unsigned(slice_subrange(rest, sep + 1, end)) {
        Some(v) => Ok(v),
        None => Err(FastPathFailure::InvalidNumber),
    }
}

/// The error that reports a failed detection in the file at `path`.
pub open spec fn detection_error(path: Seq<char>, cause: Seq<char>) -> LoadingErrorView {
    LoadingErrorView::RustdocFormatDetection(path, cause)
}

/// What the fast path reports for the file at `path` with the bytes `data`.
pub open spec fn fast_path_outcome(path: Seq<char>, data: Seq<u8>) -> Result<
    u32,
    LoadingErrorView,
> {
    match fast_path(data) {
        Ok(n) => Ok(n),
        Err(failure) => Err(detection_error(path, failure.cause())),
    }
}

/// What a full parse yields as the revision: the unsigned integer under the
/// top-level key, where there is one and it fits in 32 bits.
pub open spec fn full_parse_outcome(
    path: Seq<char>,
    parsed: Result<Option<u64>, Seq<char>>,
) -> Result<u32, LoadingErrorView> {
    match parsed {
        Ok(Some(n)) => if n <= u32::MAX {
            Ok(n as u32)
        } else {
            Err(detection_error(path, "`format_version` does not fit in 32 bits"@))
        },
        Ok(None) => Err(
            detection_error(path, "no unsigned integer `format_version` at the top level"@),
        ),
        Err(cause) => Err(detection_error(path, cause)),
    }
}

/// The revision of the file at `path`: what the fast path reads, and where it
/// fails, what the full parse yields.
pub open spec fn detected(path: Seq<char>, text: Seq<char>) -> Result<u32, LoadingErrorView> {
    match fast_path(vstd::utf8::encode_utf8(text)) {
        Ok(n) => Ok(n),
        Err(_) => full_parse_outcome(path, top_level_unsigned(text, "format_version"@)),
    }
}

/// Reads the revision from the last bytes of the file: they should be
/// `,"format_version":N}`. Fails where they have not that shape, and then
/// names the step that failed.
pub fn detect_rustdoc_format_version_fast_path(path: &str, file_data: &str) -> (r: Result<
    u32,
    LoadingError,
>)
    ensures
        outcome(r) == fast_path_outcome(path@, file_data.spec_bytes()),
{
    match read_tail(file_data.as_bytes()) {
        Ok(n) => Ok(n),
        Err(failure) => Err(
            LoadingError::RustdocFormatDetection(
                String::from_str(path),
                String::from_str(failure.describe()),
            ),
        ),
    }
}

/// Concludes the detection from a full parse of the file at `path`.
pub fn version_from_full_parse(path: &str, parsed: Result<Option<u64>, String>) -> (r: Result<
    u32,
    LoadingError,
>)
    ensures
        outcome(r) == full_parse_outcome(path@, parse_view(parsed)),
{
    match parsed {
        Ok(Some(n)) => {
            if n <= 0xffff_ffff {
                Ok(n as u32)
            } else {
                Err(
                    LoadingError::RustdocFormatDetection(
                        String::from_str(path),
                        String::from_str("`format_version` does not fit in 32 bits"),
                    ),
                )
            }
        },
        Ok(None) => Err(
            LoadingError::RustdocFormatDetection(
                String::from_str(path),
                String::from_str("no unsigned integer `format_version` at the top level"),
            ),
        ),
        Err(cause) => Err(LoadingError::RustdocFormatDetection(String::from_str(path), cause)),
    }
}

/// The revision of the file at `path` with the text `file_data`: read from
/// its last bytes where they have the conventional shape, and from a parse of
/// the whole text where they have not.
pub fn detect_rustdoc_format_version(path: &str, file_data: &str) -> (r: Result<u32, LoadingError>)
    ensures
        outcome(r) == detected(path@, file_data@),
{
    match read_tail(file_data.as_bytes()) {
        Ok(n) => Ok(n),
        Err(_) => version_from_full_parse(
            path,
            read_top_level_unsigned(file_data, "format_version"),
        ),
    }
}

/// The bytes of a file that ends in `,"format_version":`, the digits and `}`.
pub open spec fn with_trailing_version(prefix: Seq<u8>, digits: Seq<u8>) -> Seq<u8> {
    prefix + trailing_version(digits)
}

/// The bytes `,"format_version":`, the digits and `}`.
pub open spec fn trailing_version(digits: Seq<u8>) -> Seq<u8> {
    seq![44u8] + key_bytes() + seq![58u8] + digits + seq![125u8]
}

/// On a file that ends in `,"format_version":N}`, with `N` of one to nine
/// digits, the fast path never reads another number than `N`: it reads `N`
/// where `N` has at most four digits and the file at least 23 bytes, and
/// fails otherwise, so that the full parse decides.
pub proof fn lemma_fast_path_on_trailing_version(prefix: Seq<u8>, digits: Seq<u8>)
    requires
        all_digits(digits),
        1 <= digits.len() <= 9,
    ensures
        ({
            let data = with_trailing_version(prefix, digits);
            fast_path(data) == if data.len() < TAIL_LEN {
                Err::<u32, FastPathFailure>(FastPathFailure::TooShort)
            } else if digits.len() > 4 {
                Err(FastPathFailure::NoComma)
            } else {
                Ok(digits_value(digits) as u32)
            }
        }),
{
    let suffix = trailing_version(digits);
    let data = with_trailing_version(prefix, digits);
    let len = suffix.len() as int;
    let d = digits.len() as int;
    assert(len == 19 + d);
    assert(suffix[0] == 44);
    assert(suffix.subrange(1, 17) =~= key_bytes());
    assert(suffix[17] == 58);
    assert(suffix.subrange(18, len - 1) =~= digits);
    assert(suffix[len - 1] == 125);
    assert forall|j: int| 1 <= j < len implies suffix[j] != 44 by {
        if 18 <= j < len - 1 {
            assert(is_digit(digits[j - 18]));
        }
    }
    assert forall|j: int| 18 <= j < len implies suffix[j] != 58 by {
        if 18 <= j < len - 1 {
            assert(is_digit(digits[j - 18]));
        }
    }
    if data.len() >= TAIL_LEN {
        let tail = data.subrange(data.len() - TAIL_LEN, data.len() as int);
        if d > 4 {
            assert forall|j: int| 0 <= j < tail.len() implies tail[j] != 44 by {
                assert(tail[j] == suffix[len - 23 + j]);
            }
            lemma_last_index_of(tail, 44);
        } else {
            let start = 23 - len;
            assert forall|j: int| start <= j < 23 implies tail[j] == suffix[j - start] by {}
            lemma_last_index_is(tail, 44, start);
            let rest = tail.subrange(start, tail.len() as int);
            assert(rest =~= suffix);
            lemma_last_index_is(rest, 58, 17);
            lemma_last_index_is(rest, 125, len - 1);
            lemma_short_numeral(digits);
        }
    }
}

/// The fast path reads every revision of up to four digits from a file of at
/// least 23 bytes that ends in `,"format_version":`, the revision as it is
/// written in decimal, and `}`.
pub proof fn lemma_fast_path_reads_written_version(prefix: Seq<u8>, version: u32)
    requires
        version <= 9999,
        with_trailing_version(prefix, decimal_digits(version as nat)).len() >= TAIL_LEN,
    ensures
        fast_path(with_trailing_version(prefix, decimal_digits(version as nat))) == Ok::<
            u32,
            FastPathFailure,
        >(version),
{
    let digits = decimal_digits(version as nat);
    lemma_digits_round_trip(version as nat);
    reveal_with_fuel(ten_to, 5);
    assert(ten_to(4) == 10000);
    lemma_digit_count(version as nat, 4);
    lemma_fast_path_on_trailing_version(prefix, digits);
}

/// The text `,"format_version":`, the digits and `}`.
pub open spec fn trailing_version_text(digits: Seq<u8>) -> Seq<char> {
    ascii_text(trailing_version(digits))
}

/// `trailing_version_text` is the text that its name says.
pub proof fn lemma_trailing_version_text(digits: Seq<u8>)
    ensures
        trailing_version_text(digits) == ",\"format_version\":"@ + ascii_text(digits) + "}"@,
{
    reveal_strlit(",\"format_version\":");
    reveal_strlit("}");
    assert(trailing_version_text(digits) =~= ",\"format_version\":"@ + ascii_text(digits) + "}"@);
}

/// For any text that ends in `,"format_version":N}`, with `N` of one to nine
/// digits, detection yields `N` from the fast path where `N` has at most four
/// digits and the text at least 23 bytes, and otherwise yields what the full
/// parse finds: the fast path never yields another number than `N`.
pub proof fn lemma_detection_on_trailing_version(
    path: Seq<char>,
    prefix: Seq<char>,
    digits: Seq<u8>,
)
    requires
        all_digits(digits),
        1 <= digits.len() <= 9,
    ensures
        ({
            let text = prefix + trailing_version_text(digits);
            let bytes = vstd::utf8::encode_utf8(text);
            detected(path, text) == if bytes.len() >= TAIL_LEN && digits.len() <= 4 {
                Ok::<u32, LoadingErrorView>(digits_value(digits) as u32)
            } else {
                full_parse_outcome(path, top_level_unsigned(text, "format_version"@))
            }
        }),
{
    let tail = trailing_version(digits);
    assert forall|i: int| 0 <= i < tail.len() implies #[trigger] tail[i] < 128 by {
        if 18 <= i < tail.len() - 1 {
            assert(is_digit(digits[i - 18]));
        }
    }
    lemma_ascii_text_encodes(tail);
    lemma_encode_concat(prefix, trailing_version_text(digits));
    lemma_fast_path_on_trailing_version(vstd::utf8::encode_utf8(prefix), digits);
}

/// Where the fast path reads a number, the file's last 23 bytes hold a comma,
/// then exactly the key `"format_version"`, a colon, a numeral of that number
/// and a closing brace: it reads no number under another key.
pub proof fn lemma_fast_path_sound(data: Seq<u8>)
    requires
        fast_path(data) is Ok,
    ensures
        exists|comma: int, colon: int, brace: int|
            {
                &&& data.len() - TAIL_LEN <= comma < colon < brace < data.len()
                &&& data[comma] == 44
                &&& #[trigger] data.subrange(comma + 1, colon) == key_bytes()
                &&& data[colon] == 58
                &&& data[brace] == 125
                &&& #[trigger] unsigned_decimal(data.subrange(colon + 1, brace)) == Some(
                    fast_path(data).unwrap(),
                )
            },
{
    let base = data.len() - TAIL_LEN;
    let tail = data.subrange(base, data.len() as int);
    lemma_last_index_of(tail, 44);
    let start = last_index_of(tail, 44).unwrap();
    let rest = tail.subrange(start, tail.len() as int);
    lemma_last_index_of(rest, 58);
    lemma_last_index_of(rest, 125);
    let sep = last_index_of(rest, 58).unwrap();
    let end = last_index_of(rest, 125).unwrap();
    let comma = base + start;
    let colon = base + start + sep;
    let brace = base + start + end;
    assert(data.subrange(comma + 1, colon) =~= rest.subrange(1, sep));
    assert(data.subrange(colon + 1, brace) =~= rest.subrange(sep + 1, end));
    assert(data[comma] == tail[start]);
    assert(data[colon] == rest[sep]);
    assert(data[brace] == rest[end]);
}

/// Where the fast path fails, the revision is what the full parse yields, and
/// a failure of both is a detection error that names the file.
pub proof fn lemma_detection_falls_back(path: Seq<char>, text: Seq<char>)
    requires
        fast_path(vstd::utf8::encode_utf8(text)) is Err,
    ensures
        detected(path, text) == full_parse_outcome(
            path,
            top_level_unsigned(text, "format_version"@),
        ),
        detected(path, text) matches Err(e) ==> e matches LoadingErrorView::RustdocFormatDetection(
            p,
            _,
        ) && p == path,
{
}

} // verus!
