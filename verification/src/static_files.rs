//! Static files: which paths are served, with which content type and which
//! validators, and how the time of the last change is written.

use vstd::prelude::*;
use crate::handler::text_reply;
use crate::maps::utf8;
use crate::numbers::{
    decimal, decimal_of, hexadecimal, hexadecimal_of, two_digits, two_digits_of,
};
use crate::response_builder::HttpReply;
use crate::response_meta::pairs;
use crate::text::{
    chars_of, contains_sub, extend_chars, has_prefix, has_sub, last_index, lemma_last_index,
    rfind_char, slice_of, string_of,
};

verus! {

/// The name of the file that a path leads to: what follows its last slash.
pub open spec fn file_name(path: Seq<char>) -> Seq<char> {
    path.skip(last_index(path, '/') + 1)
}

/// The extension of the file that a path leads to: what follows the last
/// point of the file name, unless the name begins with its only point or has
/// none.
pub open spec fn extension(path: Seq<char>) -> Option<Seq<char>> {
    let name = file_name(path);
    let point = last_index(name, '.');
    if point > 0 {
        Some(name.skip(point + 1))
    } else {
        None
    }
}

/// The content type of a file with an extension.
pub open spec fn content_type_of(ext: Option<Seq<char>>) -> Seq<char> {
    match ext {
        None => "application/octet-stream"@,
        Some(e) => if e == "css"@ {
            "text/css; charset=utf-8"@
        } else if e == "js"@ || e == "mjs"@ {
            "application/javascript; charset=utf-8"@
        } else if e == "json"@ {
            "application/json; charset=utf-8"@
        } else if e == "html"@ || e == "htm"@ {
            "text/html; charset=utf-8"@
        } else if e == "xml"@ {
            "application/xml; charset=utf-8"@
        } else if e == "txt"@ {
            "text/plain; charset=utf-8"@
        } else if e == "png"@ {
            "image/png"@
        } else if e == "jpg"@ || e == "jpeg"@ {
            "image/jpeg"@
        } else if e == "gif"@ {
            "image/gif"@
        } else if e == "svg"@ {
            "image/svg+xml"@
        } else if e == "ico"@ {
            "image/x-icon"@
        } else if e == "webp"@ {
            "image/webp"@
        } else if e == "avif"@ {
            "image/avif"@
        } else if e == "woff"@ {
            "font/woff"@
        } else if e == "woff2"@ {
            "font/woff2"@
        } else if e == "ttf"@ {
            "font/ttf"@
        } else if e == "otf"@ {
            "font/otf"@
        } else if e == "eot"@ {
            "application/vnd.ms-fontobject"@
        } else if e == "map"@ {
            "application/json"@
        } else if e == "pdf"@ {
            "application/pdf"@
        } else if e == "zip"@ {
            "application/zip"@
        } else if e == "gz"@ {
            "application/gzip"@
        } else if e == "mp4"@ {
            "video/mp4"@
        } else if e == "webm"@ {
            "video/webm"@
        } else if e == "mp3"@ {
            "audio/mpeg"@
        } else if e == "ogg"@ {
            "audio/ogg"@
        } else if e == "wav"@ {
            "audio/wav"@
        } else {
            "application/octet-stream"@
        },
    }
}

/// Finds the extension of the file that a path leads to.
pub fn extension_of(path: &str) -> (r: Option<String>)
    ensures
        crate::response_meta::opt_text(r) == extension(path@),
{
    let chars = chars_of(path);
    proof {
        lemma_last_index(path@, '/');
    }
    let start: usize = match rfind_char(chars.as_slice(), '/') {
        Some(i) => i + 1,
        None => 0,
    };
    let name = slice_of(chars.as_slice(), start, chars.len());
    assert(name@ =~= file_name(path@));
    proof {
        lemma_last_index(name@, '.');
    }
    match rfind_char(name.as_slice(), '.') {
        Some(point) => {
            if point > 0 {
                let ext = slice_of(name.as_slice(), point + 1, name.len());
                assert(ext@ =~= name@.skip(point + 1));
                Some(string_of(ext.as_slice()))
            } else {
                None
            }
        },
        None => None,
    }
}

/// Guesses the content type of a file from the extension of its path.
pub fn guess_content_type(path: &str) -> (r: &'static str)
    ensures
        r@ == content_type_of(extension(path@)),
{
    let ext = match extension_of(path) {
        Some(e) => e,
        None => {
            return "application/octet-stream";
        },
    };
    let e = ext.as_str();
    if e.eq("css") {
        "text/css; charset=utf-8"
    } else if e.eq("js") || e.eq("mjs") {
        "application/javascript; charset=utf-8"
    } else if e.eq("json") {
        "application/json; charset=utf-8"
    } else if e.eq("html") || e.eq("htm") {
        "text/html; charset=utf-8"
    } else if e.eq("xml") {
        "application/xml; charset=utf-8"
    } else if e.eq("txt") {
        "text/plain; charset=utf-8"
    } else if e.eq("png") {
        "image/png"
    } else if e.eq("jpg") || e.eq("jpeg") {
        "image/jpeg"
    } else if e.eq("gif") {
        "image/gif"
    } else if e.eq("svg") {
        "image/svg+xml"
    } else if e.eq("ico") {
        "image/x-icon"
    } else if e.eq("webp") {
        "image/webp"
    } else if e.eq("avif") {
        "image/avif"
    } else if e.eq("woff") {
        "font/woff"
    } else if e.eq("woff2") {
        "font/woff2"
    } else if e.eq("ttf") {
        "font/ttf"
    } else if e.eq("otf") {
        "font/otf"
    } else if e.eq("eot") {
        "application/vnd.ms-fontobject"
    } else if e.eq("map") {
        "application/json"
    } else if e.eq("pdf") {
        "application/pdf"
    } else if e.eq("zip") {
        "application/zip"
    } else if e.eq("gz") {
        "application/gzip"
    } else if e.eq("mp4") {
        "video/mp4"
    } else if e.eq("webm") {
        "video/webm"
    } else if e.eq("mp3") {
        "audio/mpeg"
    } else if e.eq("ogg") {
        "audio/ogg"
    } else if e.eq("wav") {
        "audio/wav"
    } else {
        "application/octet-stream"
    }
}

/// The entity tag of a file that was last changed `modified` seconds after
/// the epoch and is `size` bytes long: both numbers in hexadecimal, with a
/// hyphen between, in quotes.
pub open spec fn etag_text(modified: u64, size: u64) -> Seq<char> {
    seq!['"'] + hexadecimal(modified as nat) + seq!['-'] + hexadecimal(size as nat) + seq!['"']
}

/// Writes the entity tag of a file.
pub fn generate_etag(modified: u64, size: u64) -> (r: String)
    ensures
        r@ == etag_text(modified, size),
{
    let mut text: Vec<char> = Vec::new();
    text.push('"');
    let first = hexadecimal_of(modified);
    extend_chars(&mut text, first.as_slice());
    text.push('-');
    let second = hexadecimal_of(size);
    extend_chars(&mut text, second.as_slice());
    text.push('"');
    assert(text@ =~= etag_text(modified, size));
    string_of(text.as_slice())
}

/// Whether a year is a leap year.
pub open spec fn leap(year: nat) -> bool {
    (year % 4 == 0 && year % 100 != 0) || year % 400 == 0
}

/// The number of days of a year.
pub open spec fn year_days(year: nat) -> nat {
    if leap(year) {
        366
    } else {
        365
    }
}

/// The number of days of a month (0 for January) of a year.
pub open spec fn month_days(year: nat, month: nat) -> nat {
    if month == 1 {
        if leap(year) {
            29
        } else {
            28
        }
    } else if month == 3 || month == 5 || month == 8 || month == 10 {
        30
    } else {
        31
    }
}

/// The number of days from the first of January 1970 to the first of January
/// of a year.
pub open spec fn days_before_year(year: nat) -> nat
    decreases year,
{
    if year <= 1970 {
        0
    } else {
        days_before_year((year - 1) as nat) + year_days((year - 1) as nat)
    }
}

/// The number of days from the first of January of a year to the first of a
/// month (0 for January) of that year.
pub open spec fn days_before_month(year: nat, month: nat) -> nat
    decreases month,
{
    if month == 0 {
        0
    } else {
        days_before_month(year, (month - 1) as nat) + month_days(year, (month - 1) as nat)
    }
}

/// A day of the calendar.
#[derive(Debug, Clone, Copy, PartialEq, Eq, Structural)]
pub struct CivilDate {
    pub year: u64,
    /// 0 for January.
    pub month: u8,
    /// The day of the month, from 1.
    pub day: u8,
}

/// Whether a date is the day that lies `days` days after the first of
/// January 1970.
pub open spec fn is_date_of(date: CivilDate, days: nat) -> bool {
    &&& date.year >= 1970
    &&& date.month < 12
    &&& 1 <= date.day <= month_days(date.year as nat, date.month as nat)
    &&& days == days_before_year(date.year as nat) + days_before_month(
        date.year as nat,
        date.month as nat,
    ) + (date.day - 1)
}

/// Decides whether a year is a leap year.
pub fn is_leap_year(year: u64) -> (r: bool)
    ensures
        r == leap(year as nat),
{
    (year % 4 == 0 && year % 100 != 0) || year % 400 == 0
}

/// The number of days of a year.
fn days_in_year(year: u64) -> (n: u64)
    ensures
        n == year_days(year as nat),
{
    if is_leap_year(year) {
        366
    } else {
        365
    }
}

/// The number of days of a month of a year.
fn days_in_month(year: u64, month: u8) -> (n: u64)
    ensures
        n == month_days(year as nat, month as nat),
        28 <= n <= 31,
{
    if month == 1 {
        if is_leap_year(year) {
            29
        } else {
            28
        }
    } else if month == 3 || month == 5 || month == 8 || month == 10 {
        30
    } else {
        31
    }
}

/// A year has at most 366 days more than the years before it.
proof fn lemma_days_before_year_step(year: nat)
    requires
        year >= 1970,
    ensures
        days_before_year(year + 1) == days_before_year(year) + year_days(year),
{
}

/// Twelve months make a year.
proof fn lemma_year_is_twelve_months(year: nat)
    ensures
        days_before_month(year, 12) == year_days(year),
{
    reveal_with_fuel(days_before_month, 13);
}

/// Finds the day of the calendar that lies a number of days after the first
/// of January 1970.
pub fn civil_from_days(days: u64) -> (date: CivilDate)
    ensures
        is_date_of(date, days as nat),
{
    let mut remaining: u64 = days;
    let mut year: u64 = 1970;
    let mut in_year: u64 = days_in_year(year);
    while remaining >= in_year
        invariant
            1970 <= year,
            (year - 1970) * 365 <= days - remaining,
            remaining <= days,
            in_year == year_days(year as nat),
            days == days_before_year(year as nat) + remaining,
        decreases remaining,
    {
        proof {
            lemma_days_before_year_step(year as nat);
        }
        remaining = remaining - in_year;
        year = year + 1;
        in_year = days_in_year(year);
    }
    let mut month: u8 = 0;
    proof {
        lemma_year_is_twelve_months(year as nat);
    }
    let mut in_month: u64 = days_in_month(year, month);
    while month < 11 && remaining >= in_month
        invariant
            month <= 11,
            1970 <= year,
            in_month == month_days(year as nat, month as nat),
            days == days_before_year(year as nat) + days_before_month(year as nat, month as nat)
                + remaining,
            days_before_month(year as nat, month as nat) + remaining < year_days(year as nat),
            days_before_month(year as nat, 12) == year_days(year as nat),
        decreases 11 - month,
    {
        remaining = remaining - in_month;
        month = month + 1;
        in_month = days_in_month(year, month);
    }
    proof {
        if month == 11 {
            assert(days_before_month(year as nat, 12) == days_before_month(year as nat, 11)
                + month_days(year as nat, 11));
        }
    }
    CivilDate { year, month, day: (remaining + 1) as u8 }
}

/// The name of a day of the week (0 for Sunday).
pub open spec fn weekday_name(day: nat) -> Seq<char> {
    if day == 0 {
        "Sun"@
    } else if day == 1 {
        "Mon"@
    } else if day == 2 {
        "Tue"@
    } else if day == 3 {
        "Wed"@
    } else if day == 4 {
        "Thu"@
    } else if day == 5 {
        "Fri"@
    } else {
        "Sat"@
    }
}

/// The name of a month (0 for January).
pub open spec fn month_name(month: nat) -> Seq<char> {
    if month == 0 {
        "Jan"@
    } else if month == 1 {
        "Feb"@
    } else if month == 2 {
        "Mar"@
    } else if month == 3 {
        "Apr"@
    } else if month == 4 {
        "May"@
    } else if month == 5 {
        "Jun"@
    } else if month == 6 {
        "Jul"@
    } else if month == 7 {
        "Aug"@
    } else if month == 8 {
        "Sep"@
    } else if month == 9 {
        "Oct"@
    } else if month == 10 {
        "Nov"@
    } else {
        "Dec"@
    }
}

/// An instant as an HTTP date, given its day of the calendar: the day of
/// the week, the day, the month, the year, the time of day, and `GMT`. The
/// first of January 1970 was a Thursday.
pub open spec fn http_date(secs: u64, date: CivilDate) -> Seq<char> {
    let days = (secs / 86400) as nat;
    let time = (secs % 86400) as nat;
    weekday_name((days + 4) % 7) + ", "@ + two_digits(date.day as nat) + " "@ + month_name(
        date.month as nat,
    ) + " "@ + decimal(date.year as nat) + " "@ + two_digits(time / 3600) + ":"@ + two_digits(
        (time % 3600) / 60,
    ) + ":"@ + two_digits(time % 60) + " GMT"@
}

/// Writes the name of a day of the week.
fn write_weekday(day: u64) -> (r: &'static str)
    ensures
        r@ == weekday_name(day as nat),
{
    if day == 0 {
        "Sun"
    } else if day == 1 {
        "Mon"
    } else if day == 2 {
        "Tue"
    } else if day == 3 {
        "Wed"
    } else if day == 4 {
        "Thu"
    } else if day == 5 {
        "Fri"
    } else {
        "Sat"
    }
}

/// Writes the name of a month.
fn write_month(month: u8) -> (r: &'static str)
    ensures
        r@ == month_name(month as nat),
{
    if month == 0 {
        "Jan"
    } else if month == 1 {
        "Feb"
    } else if month == 2 {
        "Mar"
    } else if month == 3 {
        "Apr"
    } else if month == 4 {
        "May"
    } else if month == 5 {
        "Jun"
    } else if month == 6 {
        "Jul"
    } else if month == 7 {
        "Aug"
    } else if month == 8 {
        "Sep"
    } else if month == 9 {
        "Oct"
    } else if month == 10 {
        "Nov"
    } else {
        "Dec"
    }
}

/// Writes the instant that lies `secs` seconds after the epoch as an HTTP
/// date.
pub fn format_http_date(secs: u64) -> (r: String)
    ensures
        exists|date: CivilDate|
            #![trigger http_date(secs, date)]
            is_date_of(date, (secs / 86400) as nat) && r@ == http_date(secs, date),
{
    let days: u64 = secs / 86400;
    let time: u64 = secs % 86400;
    let date = civil_from_days(days);
    let mut text = chars_of(write_weekday((days + 4) % 7));
    let comma = chars_of(", ");
    let space = chars_of(" ");
    let colon = chars_of(":");
    let gmt = chars_of(" GMT");
    extend_chars(&mut text, comma.as_slice());
    let day = two_digits_of(date.day as u64);
    extend_chars(&mut text, day.as_slice());
    extend_chars(&mut text, space.as_slice());
    let month = chars_of(write_month(date.month));
    extend_chars(&mut text, month.as_slice());
    extend_chars(&mut text, space.as_slice());
    let year = decimal_of(date.year);
    extend_chars(&mut text, year.as_slice());
    extend_chars(&mut text, space.as_slice());
    let hours = two_digits_of(time / 3600);
    extend_chars(&mut text, hours.as_slice());
    extend_chars(&mut text, colon.as_slice());
    let minutes = two_digits_of((time % 3600) / 60);
    extend_chars(&mut text, minutes.as_slice());
    extend_chars(&mut text, colon.as_slice());
    let seconds = two_digits_of(time % 60);
    extend_chars(&mut text, seconds.as_slice());
    extend_chars(&mut text, gmt.as_slice());
    assert(text@ =~= http_date(secs, date));
    string_of(text.as_slice())
}

/// Whether a relative path may be served: it must not hold `..` and must
/// not begin with a slash.
pub open spec fn safe_path(path: Seq<char>) -> bool {
    !has_sub(path, ".."@) && !has_prefix(path, "/"@)
}

/// Decides whether a relative path may be served.
pub fn is_safe_path(relative_path: &str) -> (r: bool)
    ensures
        r == safe_path(relative_path@),
{
    let chars = chars_of(relative_path);
    let dots = chars_of("..");
    let slash = chars_of("/");
    !contains_sub(chars.as_slice(), dots.as_slice()) && !crate::text::starts_with(
        chars.as_slice(),
        slash.as_slice(),
    )
}

/// The candidates for a file in the configured directories, in the order of
/// the directories: each directory joined with the relative path. There are
/// none for a path that may not be served.
pub fn find_in_directories(relative_path: &str, directories: &Vec<String>) -> (r: Vec<String>)
    ensures
        !safe_path(relative_path@) ==> r@.len() == 0,
        safe_path(relative_path@) ==> r@.len() == directories@.len() && forall|i: int|
            0 <= i < r@.len() ==> (#[trigger] r@[i])@ == joined(
                directories@[i]@,
                relative_path@,
            ),
{
    let mut out: Vec<String> = Vec::new();
    if !is_safe_path(relative_path) {
        return out;
    }
    let rel = chars_of(relative_path);
    let mut i: usize = 0;
    while i < directories.len()
        invariant
            i <= directories.len(),
            rel@ == relative_path@,
            out@.len() == i,
            forall|j: int|
                0 <= j < i ==> (#[trigger] out@[j])@ == joined(directories@[j]@, relative_path@),
        decreases directories.len() - i,
    {
        let mut full = chars_of(directories[i].as_str());
        if full.len() > 0 && full[full.len() - 1] != '/' {
            full.push('/');
        }
        extend_chars(&mut full, rel.as_slice());
        assert(full@ =~= joined(directories@[i as int]@, relative_path@));
        out.push(string_of(full.as_slice()));
        i += 1;
    }
    out
}

/// A directory joined with a relative path: a slash stands between them
/// unless the directory is empty or ends in one.
pub open spec fn joined(dir: Seq<char>, relative: Seq<char>) -> Seq<char> {
    if dir.len() > 0 && dir.last() != '/' {
        dir + seq!['/'] + relative
    } else {
        dir + relative
    }
}

/// Whether the client has the current version of a file: the tag that it
/// names is the tag of the file, or `*`.
pub fn is_not_modified(if_none_match: Option<&str>, etag: &str) -> (r: bool)
    ensures
        r == (match if_none_match {
            Some(tag) => tag@ == etag@ || tag@ == "*"@,
            None => false,
        }),
{
    match if_none_match {
        Some(tag) => tag.eq(etag) || tag.eq("*"),
        None => false,
    }
}

/// The headers with which a static file is served.
pub open spec fn static_headers(content_type: Seq<char>, etag: Seq<char>, modified: Option<Seq<char>>) -> Seq<
    (Seq<char>, Seq<char>),
> {
    let base = seq![
        ("content-type"@, content_type),
        ("etag"@, etag),
        ("cache-control"@, "public, max-age=31536000, immutable"@),
    ];
    match modified {
        Some(m) => base.push(("last-modified"@, m)),
        None => base,
    }
}

/// What is known of a static file that was found.
pub struct StaticFile<'a> {
    pub path: &'a str,
    /// The seconds from the epoch to its last change, if that is known.
    pub modified: Option<u64>,
    pub size: u64,
}

/// Whether the client has the current version of a file.
pub open spec fn has_current(file: &StaticFile<'_>, if_none_match: Option<Seq<char>>) -> bool {
    match if_none_match {
        Some(tag) => tag == etag_of(file) || tag == "*"@,
        None => false,
    }
}

/// Whether a text is the time of the last change of a file as an HTTP date,
/// if that time is known.
pub open spec fn is_last_modified(text: Option<Seq<char>>, file: &StaticFile<'_>) -> bool {
    match (text, file.modified) {
        (Some(t), Some(m)) => exists|date: CivilDate|
            #![trigger http_date(m, date)]
            is_date_of(date, (m / 86400) as nat) && t == http_date(m, date),
        (None, None) => true,
        _ => false,
    }
}

/// Whether an answer is how a static file is served, before it is read:
/// with 304 and its tag if the client has the current version; else with
/// 200, its content type, its validators and a long cache lifetime.
pub open spec fn served(r: HttpReply, file: &StaticFile<'_>, if_none_match: Option<Seq<char>>) -> bool {
    &&& r.body@.len() == 0
    &&& has_current(file, if_none_match) ==> r.status == 304 && pairs(r.headers@) == seq![
        ("etag"@, etag_of(file)),
    ]
    &&& !has_current(file, if_none_match) ==> r.status == 200 && exists|modified: Option<Seq<char>>|
        #![trigger is_last_modified(modified, file)]
        is_last_modified(modified, file) && pairs(r.headers@) == static_headers(
            content_type_of(extension(file.path@)),
            etag_of(file),
            modified,
        )
}

/// Says how a static file is served, before it is read. The body is added
/// by the caller.
pub fn serve_file(file: &StaticFile<'_>, if_none_match: Option<&str>) -> (r: HttpReply)
    ensures
        served(r, file, crate::cors::opt_str(if_none_match)),
{
    let modified: u64 = match file.modified {
        Some(m) => m,
        None => 0,
    };
    let etag = generate_etag(modified, file.size);
    let mut headers: Vec<(String, String)> = Vec::new();
    if is_not_modified(if_none_match, etag.as_str()) {
        headers.push(("etag".to_owned(), etag));
        assert(pairs(headers@) =~= seq![("etag"@, etag_of(file))]);
        return HttpReply { status: 304, headers, body: Vec::new() };
    }
    headers.push(("content-type".to_owned(), guess_content_type(file.path).to_owned()));
    headers.push(("etag".to_owned(), etag));
    headers.push(("cache-control".to_owned(), "public, max-age=31536000, immutable".to_owned()));
    let ghost base = pairs(headers@);
    match file.modified {
        Some(m) => {
            let text = format_http_date(m);
            let ghost shown = Some(text@);
            headers.push(("last-modified".to_owned(), text));
            assert(is_last_modified(shown, file));
            assert(pairs(headers@) =~= static_headers(
                content_type_of(extension(file.path@)),
                etag_of(file),
                shown,
            ));
        },
        None => {
            assert(is_last_modified(None, file));
            assert(pairs(headers@) =~= static_headers(
                content_type_of(extension(file.path@)),
                etag_of(file),
                None,
            ));
        },
    }
    HttpReply { status: 200, headers, body: Vec::new() }
}

/// The entity tag of a static file. A file whose last change is not known
/// counts as changed at the epoch.
pub open spec fn etag_of(file: &StaticFile<'_>) -> Seq<char> {
    etag_text(
        match file.modified {
            Some(m) => m,
            None => 0u64,
        },
        file.size,
    )
}

/// Whether an answer is a plain text with a status.
pub open spec fn plain_answer(r: HttpReply, status: u16, text: Seq<char>) -> bool {
    r.status == status && pairs(r.headers@) == seq![("content-type"@, "text/plain; charset=utf-8"@)]
        && r.body@ == utf8(text)
}

/// Answers a request for a static file, given the file that was found for
/// the path, if any: a path that is not safe is answered with 400 whatever
/// was found; a path for which nothing was found with 404; and a file that
/// was found is served.
pub fn handle_static_file(
    relative_path: &str,
    found: Option<&StaticFile<'_>>,
    if_none_match: Option<&str>,
) -> (r: HttpReply)
    ensures
        !safe_path(relative_path@) ==> plain_answer(r, 400, "Invalid path"@),
        safe_path(relative_path@) ==> (match found {
            Some(file) => served(r, file, crate::cors::opt_str(if_none_match)),
            None => plain_answer(r, 404, "Static file not found: "@ + relative_path@),
        }),
{
    if !is_safe_path(relative_path) {
        return text_reply(400, "Invalid path");
    }
    match found {
        Some(file) => serve_file(file, if_none_match),
        None => {
            let mut text = "Static file not found: ".to_owned();
            vstd::string::StringExecFns::append(&mut text, relative_path);
            text_reply(404, text.as_str())
        },
    }
}

} // verus!
