//! The time at which results are rendered, and the layout of its text.

use vstd::prelude::*;

verus! {

/// An ASCII decimal digit.
pub open spec fn is_digit(c: char) -> bool {
    48 <= c as u32 <= 57
}

/// Every character is a decimal digit.
pub open spec fn all_digits(s: Seq<char>) -> bool {
    forall|i: int| 0 <= i < s.len() ==> is_digit(#[trigger] s[i])
}

/// The year of a timestamp: four digits, or a sign and at least four
/// digits for a year that four digits cannot hold.
pub open spec fn is_year_text(s: Seq<char>) -> bool {
    ||| s.len() == 4 && all_digits(s)
    ||| s.len() >= 5 && (s[0] == '+' || s[0] == '-') && all_digits(s.skip(1))
}

/// What follows the year: `-MM-DDTHH:MM:SS`, every number in two digits.
pub open spec fn is_date_time_text(s: Seq<char>) -> bool {
    &&& s.len() == 15
    &&& s[0] == '-'
    &&& is_digit(s[1])
    &&& is_digit(s[2])
    &&& s[3] == '-'
    &&& is_digit(s[4])
    &&& is_digit(s[5])
    &&& s[6] == 'T'
    &&& is_digit(s[7])
    &&& is_digit(s[8])
    &&& s[9] == ':'
    &&& is_digit(s[10])
    &&& is_digit(s[11])
    &&& s[12] == ':'
    &&& is_digit(s[13])
    &&& is_digit(s[14])
}

/// The fraction of a second: nothing, or a dot and three, six or nine
/// digits.
pub open spec fn is_fraction_text(s: Seq<char>) -> bool {
    ||| s.len() == 0
    ||| (s.len() == 4 || s.len() == 7 || s.len() == 10) && s[0] == '.' && all_digits(s.skip(1))
}

/// The offset of UTC, written with sign and colon.
pub open spec fn utc_offset_text() -> Seq<char> {
    seq!['+', '0', '0', ':', '0', '0']
}

/// The text is laid out as an RFC 3339 time in UTC whose year takes
/// `year_len` characters and whose fraction of a second takes
/// `fraction_len`.
pub open spec fn timestamp_layout(s: Seq<char>, year_len: int, fraction_len: int) -> bool {
    &&& 4 <= year_len
    &&& 0 <= fraction_len
    &&& s.len() == year_len + 15 + fraction_len + 6
    &&& is_year_text(s.take(year_len))
    &&& is_date_time_text(s.subrange(year_len, year_len + 15))
    &&& is_fraction_text(s.subrange(year_len + 15, year_len + 15 + fraction_len))
    &&& s.skip(year_len + 15 + fraction_len) == utc_offset_text()
}

/// The text is laid out as an RFC 3339 time in UTC: year, `-MM-DD`, `T`,
/// `HH:MM:SS`, an optional fraction of a second, and the offset `+00:00`.
pub open spec fn is_utc_timestamp(s: Seq<char>) -> bool {
    exists|year_len: int, fraction_len: int| timestamp_layout(s, year_len, fraction_len)
}

/// Every text is laid out as an RFC 3339 time in UTC.
pub open spec fn all_utc_timestamps(stamps: Seq<Seq<char>>) -> bool {
    forall|i: int| 0 <= i < stamps.len() ==> is_utc_timestamp(#[trigger] stamps[i])
}

/// The characters of a timestamp are digits, signs, `T`, `:` and `.`; none
/// is a comma, a quote or a line end.
pub proof fn lemma_timestamp_characters(s: Seq<char>, i: int)
    requires
        is_utc_timestamp(s),
        0 <= i < s.len(),
    ensures
        is_digit(s[i]) || s[i] == '+' || s[i] == '-' || s[i] == 'T' || s[i] == ':' || s[i] == '.',
        s[i] != ',' && s[i] != '"' && s[i] != '\r' && s[i] != '\n',
{
    let (y, f) = choose|y: int, f: int| timestamp_layout(s, y, f);
    let year = s.take(y);
    let body = s.subrange(y, y + 15);
    let fraction = s.subrange(y + 15, y + 15 + f);
    let offset = s.skip(y + 15 + f);
    if i < y {
        assert(year[i] == s[i]);
        if i > 0 && year.len() >= 5 && !(year.len() == 4 && all_digits(year)) {
            assert(year.skip(1)[i - 1] == year[i]);
        }
    } else if i < y + 15 {
        assert(body[i - y] == s[i]);
    } else if i < y + 15 + f {
        assert(fraction[i - y - 15] == s[i]);
        if i > y + 15 {
            assert(fraction.skip(1)[i - y - 16] == fraction[i - y - 15]);
        }
    } else {
        assert(offset[i - y - 15 - f] == s[i]);
    }
}

/// The current time in UTC as an RFC 3339 text.
///
/// Trusted: this is `chrono::Utc::now` followed by
/// `chrono::DateTime::to_rfc3339`. Which time it gives depends on the
/// system clock; what is claimed is the layout that `to_rfc3339` gives
/// every time in UTC: the year in four digits (or with a sign where four
/// do not suffice), month, day, hour, minute and second in two digits
/// each, the fraction of a second in no, three, six or nine digits, and the
/// offset as `+00:00`. `Utc::now` does not return where the system clock
/// is set to a time before 1970.
#[verifier::external_body]
pub(crate) fn timestamp_now() -> (stamp: String)
    ensures
        is_utc_timestamp(stamp@),
{
    chrono::Utc::now().to_rfc3339()
}

} // verus!
