//! Pieces of the vault-to-cloud synchronisation: file names of cards,
//! lookup keys, and whether a cloud card is newer than its local file.

use vstd::prelude::*;
use crate::text::{chars_of, decimal, lowercase, push_char, push_decimal, push_str, skip_space_end, skip_space_start, string_of, sub_chars, to_lowercase, trim_chars, trimmed};

verus! {

/// Whether a character is alphabetic or numeric in Unicode, as
/// `char::is_alphanumeric` decides.
pub uninterp spec fn alphanumeric(c: char) -> bool;

/// Wraps `char::is_alphanumeric`, documented as `is_alphabetic() ||
/// is_numeric()` over the Unicode tables; the predicate is named, not restated.
#[verifier::external_body]
fn is_alphanumeric(c: char) -> (b: bool)
    ensures
        b == alphanumeric(c),
{
    c.is_alphanumeric()
}

/// A character kept in a card file name; others become `_`.
pub open spec fn name_keeps(c: char) -> bool {
    alphanumeric(c) || c == '-' || c == '_' || c == ' ' || c == '.'
}

/// The file name of a card: its title with other characters replaced by
/// `_`, trimmed, and `.md` added; `untitled` (without extension) when
/// nothing is left.
pub open spec fn card_file_name(title: Seq<char>) -> Seq<char> {
    let t = trimmed(title.map_values(|c: char| if name_keeps(c) { c } else { '_' }));
    if t.len() == 0 { "untitled"@ } else { t + ".md"@ }
}

/// The file name of a card (see [`card_file_name`]).
pub fn title_to_filename(title: &str) -> (r: String)
    ensures
        r@ == card_file_name(title@),
{
    let cs = chars_of(title);
    let mut mapped: Vec<char> = Vec::new();
    let mut i: usize = 0;
    while i < cs.len()
        invariant
            i <= cs@.len(),
            cs@ == title@,
            mapped@ == title@.take(i as int).map_values(|c: char| if name_keeps(c) { c } else { '_' }),
        decreases cs@.len() - i,
    {
        let c = cs[i];
        let keep = is_alphanumeric(c) || c == '-' || c == '_' || c == ' ' || c == '.';
        mapped.push(if keep { c } else { '_' });
        i = i + 1;
        assert(mapped@ =~= title@.take(i as int).map_values(|c: char| if name_keeps(c) { c } else { '_' }));
    }
    assert(title@.take(cs@.len() as int) =~= title@);
    let t = trim_chars(&mapped);
    if t.len() == 0 {
        "untitled".to_owned()
    } else {
        let mut s = string_of(&t);
        push_str(&mut s, ".md");
        s
    }
}

/// A directory name with `/`, `\` and `:` replaced by `_`.
pub open spec fn safe_dir_name(name: Seq<char>) -> Seq<char> {
    name.map_values(|c: char| if c == '/' || c == '\\' || c == ':' { '_' } else { c })
}

/// Makes a category name safe as a directory name (see [`safe_dir_name`]).
pub fn sanitize_dir_name(name: &str) -> (r: String)
    ensures
        r@ == safe_dir_name(name@),
{
    let cs = chars_of(name);
    let mut out: Vec<char> = Vec::new();
    let mut i: usize = 0;
    while i < cs.len()
        invariant
            i <= cs@.len(),
            cs@ == name@,
            out@ == name@.take(i as int).map_values(|c: char| if c == '/' || c == '\\' || c == ':' { '_' } else { c }),
        decreases cs@.len() - i,
    {
        let c = cs[i];
        out.push(if c == '/' || c == '\\' || c == ':' { '_' } else { c });
        i = i + 1;
        assert(out@ =~= name@.take(i as int).map_values(|c: char| if c == '/' || c == '\\' || c == ':' { '_' } else { c }));
    }
    assert(name@.take(cs@.len() as int) =~= name@);
    string_of(&out)
}

/// The key a cloud card is found by: its trimmed, lower-cased title, `::`,
/// and its category number (or `null`).
pub open spec fn lookup_key(title: Seq<char>, category_id: Option<u64>) -> Seq<char> {
    lowercase(trimmed(title)) + "::"@ + match category_id {
        Some(id) => decimal(id as nat),
        None => "null"@,
    }
}

/// The lookup key of a cloud card (see [`lookup_key`]).
pub fn card_lookup_key(title: &str, category_id: Option<u64>) -> (r: String)
    ensures
        r@ == lookup_key(title@, category_id),
{
    let t = string_of(&trim_chars(&chars_of(title)));
    let mut s = to_lowercase(t.as_str());
    push_str(&mut s, "::");
    match category_id {
        Some(id) => push_decimal(&mut s, id),
        None => push_str(&mut s, "null"),
    }
    s
}

/// The value of a decimal field as `str::parse::<u64>` reads it: an
/// optional `+`, then one or more ASCII digits.
pub open spec fn field_value(t: Seq<char>) -> Option<nat> {
    if all_digits(digits_part(t)) {
        Some(digits_value(digits_part(t)))
    } else {
        None
    }
}

/// A field without its optional leading `+`.
pub open spec fn digits_part(t: Seq<char>) -> Seq<char> {
    if t.len() > 0 && t[0] == '+' { t.drop_first() } else { t }
}

/// One or more ASCII digits.
pub open spec fn all_digits(d: Seq<char>) -> bool {
    d.len() > 0 && forall|i: int| 0 <= i < d.len() ==> '0' <= #[trigger] d[i] <= '9'
}

/// The number written by ASCII digits.
pub open spec fn digits_value(d: Seq<char>) -> nat
    decreases d.len(),
{
    if d.len() == 0 {
        0
    } else {
        digits_value(d.drop_last()) * 10 + ((d.last() as u32) - 48) as nat
    }
}

/// Reads a short decimal field (see [`field_value`]).
fn parse_field(cs: &Vec<char>, lo: usize, hi: usize) -> (r: Option<u64>)
    requires
        lo <= hi <= cs@.len(),
        hi - lo <= 4,
    ensures
        r matches Some(v) ==> field_value(cs@.subrange(lo as int, hi as int)) == Some(v as nat),
        r matches Some(v) ==> v < pow10(hi - lo),
        r is None ==> field_value(cs@.subrange(lo as int, hi as int)) is None,
{
    let ghost t = cs@.subrange(lo as int, hi as int);
    let mut start = lo;
    if start < hi && cs[start] == '+' {
        start = start + 1;
    }
    let ghost d = cs@.subrange(start as int, hi as int);
    assert(d =~= digits_part(t));
    if start == hi {
        return None;
    }
    let mut v: u64 = 0;
    let mut i = start;
    while i < hi
        invariant
            start <= i <= hi <= cs@.len(),
            hi - start <= 4,
            hi - lo <= 4,
            lo <= start,
            d == cs@.subrange(start as int, hi as int),
            t == cs@.subrange(lo as int, hi as int),
            d == digits_part(t),
            forall|j: int| start <= j < i ==> '0' <= #[trigger] cs@[j] <= '9',
            v == digits_value(cs@.subrange(start as int, i as int)),
            v < 10000,
            v < pow10(i - start),
        decreases hi - i,
    {
        let c = cs[i];
        if !('0' <= c && c <= '9') {
            assert(d[i - start] == cs@[i as int]);
            assert(!all_digits(d));
            return None;
        }
        assert(cs@.subrange(start as int, i + 1).drop_last() =~= cs@.subrange(start as int, i as int));
        v = v * 10 + ((c as u32) - 48) as u64;
        i = i + 1;
    }
    assert forall|j: int| 0 <= j < d.len() implies '0' <= #[trigger] d[j] <= '9' by {
        assert(d[j] == cs@[start + j]);
    }
    Some(v)
}

/// 10 to the `n`, for small `n`.
pub open spec fn pow10(n: int) -> int {
    if n <= 0 { 1 } else if n == 1 { 10 } else if n == 2 { 100 } else if n == 3 { 1000 } else { 10000 }
}

/// Day number of a civil date, counted by eras of 400 years starting on 1 March.
/// The day-of-year term adds the day of the month without taking one off, so
/// 1970-01-01 is day 1 and 1969-12-31 is day 0.
pub open spec fn days_of_date(year: int, month: int, day: int) -> int {
    let y = if month <= 2 { year - 1 } else { year };
    let m = if month <= 2 { month + 9 } else { month - 3 };
    let era = y / 400;
    let yoe = y - era * 400;
    let doy = (153 * m + 2) / 5 + day;
    let doe = yoe * 365 + yoe / 4 - yoe / 100 + doy;
    era * 146097 + doe - 719468
}

/// The value `days_of_date * 86400 + h * 3600 + m * 60 + s` written by the first 19 characters of an ISO 8601
/// timestamp (`YYYY-MM-DDTHH:MM:SS`, separators not checked); `None` when
/// they are fewer, not all ASCII, a field does not parse, or the day number
/// is out of range (see [`days_from_civil`]).
pub open spec fn iso_seconds(iso: Seq<char>) -> Option<int> {
    if iso.len() < 19 || exists|i: int| 0 <= i < 19 && (#[trigger] iso[i] as u32) >= 128 {
        None
    } else {
        match (field_value(iso.subrange(0, 4)), field_value(iso.subrange(5, 7)), field_value(iso.subrange(8, 10)),
            field_value(iso.subrange(11, 13)), field_value(iso.subrange(14, 16)), field_value(iso.subrange(17, 19))) {
            (Some(y), Some(mo), Some(d), Some(h), Some(mi), Some(s)) => {
                if (mo <= 2 && y == 0) || days_of_date(y as int, mo as int, d as int) < 0 {
                    None
                } else {
                    Some(days_of_date(y as int, mo as int, d as int) * 86400 + h * 3600 + mi * 60 + s)
                }
            },
            _ => None,
        }
    }
}

/// Whether the day number of a civil date is computed in `u64` without
/// overflow at any step (see [`days_of_date`]); a date in January or
/// February of year 0 is not computed at all.
pub open spec fn civil_fits(year: u64, month: u64, day: u64) -> bool {
    (month <= 2 && year == 0) || {
        let y = if month <= 2 { year - 1 } else { year as int };
        let m = if month <= 2 { month + 9 } else { month - 3 };
        let era = y / 400;
        let yoe = y - era * 400;
        let doy = (153 * m + 2) / 5 + day;
        let doe = yoe * 365 + yoe / 4 - yoe / 100 + doy;
        &&& 153 * m + 2 <= u64::MAX
        &&& doy <= u64::MAX
        &&& doe <= u64::MAX
        &&& era * 146097 + doe <= u64::MAX
    }
}

/// Day number of a civil date (see [`days_of_date`]); `None` where that
/// number would be negative, or the year is 0 and the month January or February.
pub fn days_from_civil(year: u64, month: u64, day: u64) -> (r: Option<u64>)
    requires
        civil_fits(year, month, day),
    ensures
        r matches Some(v) ==> !(month <= 2 && year == 0) && v == days_of_date(year as int, month as int, day as int),
        r is None ==> (month <= 2 && year == 0) || days_of_date(year as int, month as int, day as int) < 0,
{
    if month <= 2 && year == 0 {
        return None;
    }
    let y = if month <= 2 { year - 1 } else { year };
    let m = if month <= 2 { month + 9 } else { month - 3 };
    let era = y / 400;
    assert(era * 400 <= y && y - era * 400 < 400) by (nonlinear_arith)
        requires
            era == y / 400,
    ;
    let yoe = y - era * 400;
    let doy = (153 * m + 2) / 5 + day;
    let doe = yoe * 365 + yoe / 4 - yoe / 100 + doy;
    let total = era * 146097 + doe;
    if total < 719468 {
        return None;
    }
    Some(total - 719468)
}

/// Comparable seconds value of an ISO 8601 timestamp (see [`iso_seconds`]).
pub fn parse_iso_to_unix(iso: &str) -> (r: Option<u64>)
    ensures
        r matches Some(v) ==> iso_seconds(iso@) == Some(v as int),
        r is None ==> iso_seconds(iso@) is None,
{
    let cs = chars_of(iso);
    if cs.len() < 19 {
        return None;
    }
    let mut i: usize = 0;
    while i < 19
        invariant
            i <= 19,
            19 <= cs@.len(),
            cs@ == iso@,
            forall|j: int| 0 <= j < i ==> (#[trigger] cs@[j] as u32) < 128,
        decreases 19 - i,
    {
        if (cs[i] as u32) >= 128 {
            assert(cs@[i as int] == iso@[i as int]);
            assert((iso@[i as int] as u32) >= 128);
            return None;
        }
        i = i + 1;
    }
    assert(cs@ == iso@);
    let y = match parse_field(&cs, 0, 4) { Some(v) => v, None => return None };
    let mo = match parse_field(&cs, 5, 7) { Some(v) => v, None => return None };
    let d = match parse_field(&cs, 8, 10) { Some(v) => v, None => return None };
    let h = match parse_field(&cs, 11, 13) { Some(v) => v, None => return None };
    let mi = match parse_field(&cs, 14, 16) { Some(v) => v, None => return None };
    let s = match parse_field(&cs, 17, 19) { Some(v) => v, None => return None };
    assert(civil_fits(y, mo, d)) by (nonlinear_arith)
        requires
            y < 10000,
            mo < 100,
            d < 100,
    ;
    let days = match days_from_civil(y, mo, d) { Some(v) => v, None => return None };
    assert(days < 4000000) by (nonlinear_arith)
        requires
            days == days_of_date(y as int, mo as int, d as int),
            y < 10000,
            mo < 100,
            d < 100,
    ;
    Some(days * 86400 + h * 3600 + mi * 60 + s)
}

/// Whether a cloud card must be written over its local file: always when
/// the file's modification time is unknown; otherwise when the cloud's
/// timestamp (see [`iso_seconds`], 0 when unreadable) is later than the local
/// one less a second.
pub open spec fn update_due(local_mtime: Option<u64>, cloud_updated_at: Seq<char>) -> bool {
    match local_mtime {
        None => true,
        Some(t) => (match iso_seconds(cloud_updated_at) { Some(c) => c, None => 0 }) > (if t >= 1 { t - 1 } else { 0 }),
    }
}

/// Whether a cloud card updated at `cloud_updated_at` is newer than a local
/// file last modified at `local_mtime` (seconds), with one second of
/// tolerance; a file whose time is unknown is always updated, and an
/// unreadable cloud time counts as the epoch.
pub fn should_update(local_mtime: Option<u64>, cloud_updated_at: &str) -> (b: bool)
    ensures
        b == update_due(local_mtime, cloud_updated_at@),
{
    match local_mtime {
        None => true,
        Some(t) => {
            let cloud = match parse_iso_to_unix(cloud_updated_at) {
                Some(c) => c,
                None => 0,
            };
            cloud > t.saturating_sub(1)
        },
    }
}

} // verus!
