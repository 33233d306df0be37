//! Object keys of uploaded images: `images/<year>/<month>/<id>.<ext>.webp`,
//! with the year and month of the upload day; and the object-store
//! connection read from the environment.

use vstd::prelude::*;
use crate::admin::protocol::after_last_dot;
use crate::ms_io::StorageConfig;
use crate::text::{chars_of, decimal, push_decimal, push_str, str_eq, string_of, sub_chars};

verus! {

/// Whether `year` is a leap year of the Gregorian calendar.
pub open spec fn leap(year: int) -> bool {
    (year % 4 == 0 && year % 100 != 0) || year % 400 == 0
}

/// Divisibility does not depend on the sign.
proof fn lemma_divisible_abs(y: int, k: int)
    requires
        k > 0,
    ensures
        (y % k == 0) == ((-y) % k == 0),
{
    if y % k == 0 {
        assert((-y) == (-(y / k)) * k) by (nonlinear_arith)
            requires
                y % k == 0,
                k > 0,
        ;
        vstd::arithmetic::div_mod::lemma_mod_multiples_basic(-(y / k), k);
        assert((-y) % k == 0) by (nonlinear_arith)
            requires
                (-y) == (-(y / k)) * k,
                ((-(y / k)) * k) % k == 0,
        ;
    }
    if (-y) % k == 0 {
        assert(y == (-((-y) / k)) * k) by (nonlinear_arith)
            requires
                (-y) % k == 0,
                k > 0,
        ;
        vstd::arithmetic::div_mod::lemma_mod_multiples_basic(-((-y) / k), k);
        assert(y % k == 0) by (nonlinear_arith)
            requires
                y == (-((-y) / k)) * k,
                ((-((-y) / k)) * k) % k == 0,
        ;
    }
}

/// Whether `year` is a leap year.
pub fn is_leap_year(year: i32) -> (b: bool)
    ensures
        b == leap(year as int),
{
    let a: u32 = if year < 0 { (0 - (year as i64)) as u32 } else { year as u32 };
    proof {
        lemma_divisible_abs(year as int, 4);
        lemma_divisible_abs(year as int, 100);
        lemma_divisible_abs(year as int, 400);
    }
    (a % 4 == 0 && a % 100 != 0) || a % 400 == 0
}


/// Days of `year`.
pub open spec fn year_length(year: int) -> nat {
    if leap(year) { 366 } else { 365 }
}

/// The year in which day `days` (counted from the first day of `year`)
/// falls, and the day within that year.
pub open spec fn year_split(days: nat, year: int) -> (int, nat)
    decreases days,
{
    if days < year_length(year) {
        (year, days)
    } else {
        year_split((days - year_length(year)) as nat, year + 1)
    }
}

/// Days of month `i` (0 for January) in a leap or common year.
pub open spec fn month_length(leap_year: bool, i: int) -> nat {
    if i == 1 {
        if leap_year { 29 } else { 28 }
    } else if i == 3 || i == 5 || i == 8 || i == 10 {
        30
    } else {
        31
    }
}

/// Index of the month (from `i` on) that day `rem` of the year falls in;
/// 12 when it falls past December.
pub open spec fn month_split(rem: nat, leap_year: bool, i: int) -> int
    decreases 12 - i,
{
    if i >= 12 {
        12
    } else if rem < month_length(leap_year, i) {
        i
    } else {
        month_split((rem - month_length(leap_year, i)) as nat, leap_year, i + 1)
    }
}

/// Year and month (1 to 12) of a day counted from 1970-01-01.
pub open spec fn year_month(days: nat) -> (int, int) {
    let (y, rem) = year_split(days, 1970);
    (y, month_split(rem, leap(y), 0) + 1)
}

/// Every year is at least as late as the year counting starts from, and no
/// later than one year per 365 days.
proof fn lemma_year_split_bounds(days: nat, year: int)
    ensures
        year <= year_split(days, year).0 <= year + days / 365,
        year_split(days, year).1 < year_length(year_split(days, year).0),
    decreases days,
{
    if days >= year_length(year) {
        lemma_year_split_bounds((days - year_length(year)) as nat, year + 1);
    }
}

/// Year and month of a day counted from 1970-01-01 (see [`year_month`]).
pub fn estimate_year_month(days_since_epoch: u64) -> (r: (i32, u32))
    requires
        year_month(days_since_epoch as nat).0 <= i32::MAX,
    ensures
        r.0 == year_month(days_since_epoch as nat).0,
        r.1 == year_month(days_since_epoch as nat).1,
        1 <= r.1 <= 12,
{
    let mut year: i32 = 1970;
    let mut remaining = days_since_epoch;
    loop
        invariant
            1970 <= year,
            year_split(days_since_epoch as nat, 1970) == year_split(remaining as nat, year as int),
            year_month(days_since_epoch as nat).0 <= i32::MAX,
        ensures
            year_split(days_since_epoch as nat, 1970) == (year as int, remaining as nat),
        decreases remaining,
    {
        let days_in_year: u64 = if is_leap_year(year) { 366 } else { 365 };
        if remaining < days_in_year {
            break;
        }
        remaining = remaining - days_in_year;
        proof {
            lemma_year_split_bounds(remaining as nat, year + 1);
        }
        year = year + 1;
    }
    let leap_year = is_leap_year(year);
    let mut month: u32 = 1;
    let mut i: usize = 0;
    let ghost rem0 = remaining as nat;
    while i < 12
        invariant_except_break
            i <= 12,
            month == i + 1,
            month_split(rem0, leap_year, 0) == month_split(remaining as nat, leap_year, i as int),
        invariant
            leap_year == leap(year as int),
        ensures
            month == month_split(rem0, leap_year, 0) + 1,
        decreases 12 - i,
    {
        let days: u64 = if i == 1 {
            if leap_year { 29 } else { 28 }
        } else if i == 3 || i == 5 || i == 8 || i == 10 {
            30
        } else {
            31
        };
        if remaining < days {
            break;
        }
        remaining = remaining - days;
        month = month + 1;
        i = i + 1;
    }
    proof {
        lemma_year_split_bounds(days_since_epoch as nat, 1970);
        lemma_month_in_year(rem0, leap_year);
    }
    (year, month)
}

/// Days from month `i` to the end of the year.
pub open spec fn days_from_month(leap_year: bool, i: int) -> nat
    decreases 12 - i,
{
    if i >= 12 {
        0
    } else {
        month_length(leap_year, i) + days_from_month(leap_year, i + 1)
    }
}

/// A day within the months from `i` on falls in one of them.
proof fn lemma_month_split_below(rem: nat, leap_year: bool, i: int)
    requires
        0 <= i <= 12,
        rem < days_from_month(leap_year, i),
    ensures
        i <= month_split(rem, leap_year, i) < 12,
    decreases 12 - i,
{
    if i < 12 && rem >= month_length(leap_year, i) {
        lemma_month_split_below((rem - month_length(leap_year, i)) as nat, leap_year, i + 1);
    }
}

/// A day of the year falls in one of its twelve months.
proof fn lemma_month_in_year(rem: nat, leap_year: bool)
    requires
        rem < (if leap_year { 366nat } else { 365nat }),
    ensures
        0 <= month_split(rem, leap_year, 0) < 12,
{
    assert(days_from_month(leap_year, 0) == (if leap_year { 366nat } else { 365nat })) by {
        reveal_with_fuel(days_from_month, 13);
    }
    lemma_month_split_below(rem, leap_year, 0);
}


/// The extension of the last component of a path, as
/// `std::path::Path::extension` gives it.
pub uninterp spec fn path_extension(path: Seq<char>) -> Option<Seq<char>>;

/// Wraps `std::path::Path::extension`: the part of the file name after its
/// last `.`, if the name has one that is not its first character. Claimed:
/// the result is a function of the path text; what it is, is named.
#[verifier::external_body]
pub(crate) fn extension_of(path: &str) -> (r: Option<String>)
    ensures
        r matches Some(e) ==> path_extension(path@) == Some(e@),
        r is None ==> path_extension(path@) is None,
{
    std::path::Path::new(path).extension().map(|e| e.to_string_lossy().into_owned())
}

/// Seconds since the Unix epoch now, from `std::time::SystemTime` (0 for a
/// clock set before the epoch). Nothing is claimed of the value.
#[verifier::external_body]
pub(crate) fn unix_seconds() -> u64 {
    std::time::SystemTime::now().duration_since(std::time::UNIX_EPOCH).map(|d| d.as_secs()).unwrap_or(0)
}

/// The key of an image: `images/<year>/<month>/<id>.<ext>.webp`, with `bin`
/// when there is no extension.
pub open spec fn key_text(ext: Option<Seq<char>>, year: nat, month: nat, id: Seq<char>) -> Seq<char> {
    "images/"@ + decimal(year) + "/"@ + decimal(month) + "/"@ + id + "."@
        + (match ext { Some(e) => e, None => "bin"@ }) + ".webp"@
}

/// Builds the key of an image (see [`key_text`]).
pub fn image_key(ext: Option<&str>, year: u32, month: u32, id: &str) -> (r: String)
    ensures
        r@ == key_text(match ext { Some(e) => Some(e@), None => None }, year as nat, month as nat, id@),
{
    let mut s = String::new();
    push_str(&mut s, "images/");
    push_decimal(&mut s, year as u64);
    push_str(&mut s, "/");
    push_decimal(&mut s, month as u64);
    push_str(&mut s, "/");
    push_str(&mut s, id);
    push_str(&mut s, ".");
    match ext {
        Some(e) => push_str(&mut s, e),
        None => push_str(&mut s, "bin"),
    }
    push_str(&mut s, ".webp");
    s
}

/// The last day count whose year is sure to fit an `i32`.
pub const LAST_DAY: u64 = 783_830_812_105;

/// A year and month of the calendar.
pub struct TimeInfo {
    pub year: i32,
    pub month: u32,
}

/// The year and month of today by the clock (see [`year_month`]); a clock
/// past the year 2^31 - 1 counts as that year.
pub fn chrono_available_or_fallback() -> (t: TimeInfo)
    ensures
        exists|days: nat| #![trigger year_month(days)]
            days <= LAST_DAY && year_month(days).0 == t.year && year_month(days).1 == t.month && t.year >= 0,
        1 <= t.month <= 12,
{
    let secs = unix_seconds();
    let mut days = secs / 86400;
    if days > LAST_DAY {
        days = LAST_DAY;
    }
    proof {
        lemma_year_split_bounds(days as nat, 1970);
    }
    let (year, month) = estimate_year_month(days);
    assert(year_month(days as nat).0 >= 0);
    TimeInfo { year, month }
}

/// The key of an image uploaded today, with `id` as its unique part and the
/// extension of `original_path` (`bin` without one). The day is read from the
/// clock; a clock past the year 2^31 - 1 counts as that year.
pub fn generate_key(original_path: &str, id: &str) -> (r: String)
    ensures
        exists|days: nat| #![trigger year_month(days)]
            days <= LAST_DAY && year_month(days).0 >= 0 && r@ == key_text(
                path_extension(original_path@),
                year_month(days).0 as nat,
                year_month(days).1 as nat,
                id@,
            ),
{
    let now = chrono_available_or_fallback();
    let ghost days = choose|days: nat| #![trigger year_month(days)]
        days <= LAST_DAY && year_month(days).0 == now.year && year_month(days).1 == now.month && now.year >= 0;
    let ext = extension_of(original_path);
    let key = match &ext {
        Some(e) => image_key(Some(e.as_str()), now.year as u32, now.month, id),
        None => image_key(None, now.year as u32, now.month, id),
    };
    assert(year_month(days).0 >= 0);
    key
}

/// The message for a missing required setting of the object store.
pub open spec fn missing_storage_setting(
    endpoint: Option<String>,
    bucket: Option<String>,
    access_key: Option<String>,
    secret_key: Option<String>,
) -> Option<Seq<char>> {
    if endpoint is None {
        Some("S3_ENDPOINT not set (check .env file or system env)"@)
    } else if bucket is None {
        Some("S3_BUCKET environment variable not set"@)
    } else if access_key is None {
        Some("S3_ACCESS_KEY environment variable not set"@)
    } else if secret_key is None {
        Some("S3_SECRET_KEY environment variable not set"@)
    } else {
        None
    }
}

/// Whether a `S3_USE_PATH_STYLE` value turns path-style addressing on.
pub open spec fn path_style_on(v: Option<String>) -> bool {
    match v {
        Some(t) => t@ == "true"@ || t@ == "1"@,
        None => false,
    }
}

/// The object-store connection from the values of `S3_ENDPOINT`,
/// `S3_REGION`, `S3_BUCKET`, `S3_ACCESS_KEY`, `S3_SECRET_KEY`,
/// `S3_PUBLIC_URL_BASE` and `S3_USE_PATH_STYLE` (`None` for one unset):
/// the first missing required one is reported (see
/// [`missing_storage_setting`]); the region defaults to `us-east-1`;
/// path-style addressing is on for `true` or `1`.
pub fn storage_config_from_env(
    endpoint: Option<String>,
    region: Option<String>,
    bucket: Option<String>,
    access_key: Option<String>,
    secret_key: Option<String>,
    public_url_base: Option<String>,
    use_path_style: Option<String>,
) -> (r: Result<StorageConfig, String>)
    ensures
        missing_storage_setting(endpoint, bucket, access_key, secret_key) matches Some(m)
            ==> (r matches Err(e) && e@ == m),
        missing_storage_setting(endpoint, bucket, access_key, secret_key) is None ==> (r matches Ok(c) && {
            &&& c.endpoint == endpoint->0
            &&& c.region@ == (match region { Some(v) => v@, None => "us-east-1"@ })
            &&& c.bucket == bucket->0
            &&& c.access_key == access_key->0
            &&& c.secret_key == secret_key->0
            &&& c.public_url_base == public_url_base
            &&& c.use_path_style == path_style_on(use_path_style)
        }),
{
    let endpoint = match endpoint {
        Some(v) => v,
        None => return Err("S3_ENDPOINT not set (check .env file or system env)".to_string()),
    };
    let region = match region {
        Some(v) => v,
        None => "us-east-1".to_string(),
    };
    let bucket = match bucket {
        Some(v) => v,
        None => return Err("S3_BUCKET environment variable not set".to_string()),
    };
    let access_key = match access_key {
        Some(v) => v,
        None => return Err("S3_ACCESS_KEY environment variable not set".to_string()),
    };
    let secret_key = match secret_key {
        Some(v) => v,
        None => return Err("S3_SECRET_KEY environment variable not set".to_string()),
    };
    let path_style = match &use_path_style {
        Some(v) => str_eq(v.as_str(), "true") || str_eq(v.as_str(), "1"),
        None => false,
    };
    Ok(StorageConfig { endpoint, region, bucket, access_key, secret_key, public_url_base, use_path_style: path_style })
}

/// The largest image accepted for upload from the editor: 50 MiB.
pub const MAX_UPLOAD_BYTES: usize = 52428800;

/// The largest image file or clipboard image accepted: 20 MiB.
pub const MAX_IMAGE_BYTES: u64 = 20971520;

/// Refuses an editor upload larger than [`MAX_UPLOAD_BYTES`], giving its size.
pub fn check_upload_size(len: usize) -> (r: Result<(), String>)
    ensures
        len <= MAX_UPLOAD_BYTES <==> r is Ok,
        r matches Err(m) ==> m@ == "图片过大: "@ + decimal(len as nat) + " bytes (上限 50MB)"@,
{
    if len > MAX_UPLOAD_BYTES {
        let mut m = String::new();
        push_str(&mut m, "图片过大: ");
        push_decimal(&mut m, len as u64);
        push_str(&mut m, " bytes (上限 50MB)");
        Err(m)
    } else {
        Ok(())
    }
}

/// The message for an image of `size` bytes over [`MAX_IMAGE_BYTES`]:
/// `what`, then the size and the limit in whole MiB.
pub open spec fn too_big_text(what: Seq<char>, size: nat) -> Seq<char> {
    what + "过大: "@ + decimal(size / 1048576) + " MB（上限 20 MB）"@
}

fn check_image_bytes(size: u64, what: &str) -> (r: Result<(), String>)
    ensures
        size <= MAX_IMAGE_BYTES <==> r is Ok,
        r matches Err(m) ==> m@ == too_big_text(what@, size as nat),
{
    if size > MAX_IMAGE_BYTES {
        let mut m = String::new();
        push_str(&mut m, what);
        push_str(&mut m, "过大: ");
        push_decimal(&mut m, size / 1048576);
        push_str(&mut m, " MB（上限 20 MB）");
        Err(m)
    } else {
        Ok(())
    }
}

/// Refuses an image file larger than [`MAX_IMAGE_BYTES`].
pub fn check_image_file_size(size: u64) -> (r: Result<(), String>)
    ensures
        size <= MAX_IMAGE_BYTES <==> r is Ok,
        r matches Err(m) ==> m@ == too_big_text("图片文件"@, size as nat),
{
    check_image_bytes(size, "图片文件")
}

/// Refuses a clipboard image larger than [`MAX_IMAGE_BYTES`].
pub fn check_clipboard_image_size(size: u64) -> (r: Result<(), String>)
    ensures
        size <= MAX_IMAGE_BYTES <==> r is Ok,
        r matches Err(m) ==> m@ == too_big_text("剪贴板图片"@, size as nat),
{
    check_image_bytes(size, "剪贴板图片")
}

/// The extension an upload is stored under: the text after the last `.` of
/// its file name (the whole name when it has none).
pub fn upload_extension(filename: &str) -> (r: String)
    ensures
        r@ == filename@.skip(after_last_dot(filename@)),
{
    let cs = chars_of(filename);
    let mut i: usize = cs.len();
    assert(cs@.take(i as int) =~= cs@);
    while i > 0 && cs[i - 1] != '.'
        invariant
            i <= cs@.len(),
            cs@ == filename@,
            after_last_dot(filename@) == after_last_dot(cs@.take(i as int)),
        decreases i,
    {
        assert(cs@.take(i as int).drop_last() =~= cs@.take(i - 1));
        i = i - 1;
    }
    let r = string_of(sub_chars(cs.as_slice(), i, cs.len()).as_slice());
    assert(r@ =~= filename@.skip(i as int));
    r
}

} // verus!
