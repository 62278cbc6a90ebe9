//! Names of the log files.
use vstd::prelude::*;

verus! {

/// The last Unix time, in seconds, that falls in the year 9999
/// (9999-12-31 23:59:59 UTC).
pub const LAST_FOUR_DIGIT_YEAR_SECS: i64 = 253402300799;

/// The text that chrono's `DateTime::<Utc>::from_timestamp(secs, 0)`
/// formatted as `%Y-%m-%d_%H-%M-%S` gives, or `None` where chrono has no
/// date for `secs`.
pub uninterp spec fn chrono_utc_stamp(secs: i64) -> Option<Seq<char>>;

/// Whether `c` is a decimal digit.
pub open spec fn is_digit(c: char) -> bool {
    '0' <= c && c <= '9'
}

/// The two-digit decimal text of `n`, for `0 <= n < 100`.
pub open spec fn two_digits(n: int) -> Seq<char> {
    seq![
        seq!['0', '1', '2', '3', '4', '5', '6', '7', '8', '9'][n / 10],
        seq!['0', '1', '2', '3', '4', '5', '6', '7', '8', '9'][n % 10],
    ]
}

/// Whether `stamp` has the layout `YYYY-MM-DD_HH-MM-SS` with the hour, minute
/// and second of the UTC time `secs` seconds after the Unix epoch.
pub open spec fn is_stamp_of(secs: int, stamp: Seq<char>) -> bool {
    let day_secs = secs % 86400;
    &&& stamp.len() == 19
    &&& is_digit(stamp[0]) && is_digit(stamp[1]) && is_digit(stamp[2]) && is_digit(stamp[3])
    &&& stamp[4] == '-'
    &&& is_digit(stamp[5]) && is_digit(stamp[6])
    &&& stamp[7] == '-'
    &&& is_digit(stamp[8]) && is_digit(stamp[9])
    &&& stamp[10] == '_'
    &&& stamp.subrange(11, 13) == two_digits(day_secs / 3600)
    &&& stamp[13] == '-'
    &&& stamp.subrange(14, 16) == two_digits((day_secs / 60) % 60)
    &&& stamp[16] == '-'
    &&& stamp.subrange(17, 19) == two_digits(day_secs % 60)
}

/// The path of the log file of module `mod_path` opened at time `stamp`.
pub open spec fn spec_log_file_path(mod_path: Seq<char>, stamp: Seq<char>) -> Seq<char> {
    seq!['l', 'o', 'g', 's', '/'] + mod_path + seq!['_'] + stamp + seq!['.', 'l', 'o', 'g']
}

/// The path of the log file of module `mod_path` opened `secs` seconds after
/// the Unix epoch, where chrono has a date for that time.
pub open spec fn spec_log_file_at(mod_path: Seq<char>, secs: i64) -> Option<Seq<char>> {
    match chrono_utc_stamp(secs) {
        Some(stamp) => Some(spec_log_file_path(mod_path, stamp)),
        None => None,
    }
}

/// The view of an optional string.
pub open spec fn opt_string_view(s: Option<String>) -> Option<Seq<char>> {
    match s {
        Some(v) => Some(v@),
        None => None,
    }
}

/// The UTC time `secs` seconds after the Unix epoch, made by chrono's
/// `DateTime::from_timestamp(secs, 0)` and formatted by its `format` as
/// `%Y-%m-%d_%H-%M-%S`. The text is named, not spelled out: what is claimed
/// of it is that, for times from the epoch through the year 9999, chrono has
/// a date, and the text has a four-digit year, two-digit month and day
/// (as chrono's `%Y`, `%m` and `%d` give for such years) and the hour,
/// minute and second of `secs` (the remainder of `secs` by a day, split as
/// `from_timestamp` does). Which calendar date the year, month and day spell
/// is not stated.
#[verifier::external_body]
fn format_utc_stamp(secs: i64) -> (stamp: Option<String>)
    ensures
        opt_string_view(stamp) == chrono_utc_stamp(secs),
        0 <= secs <= LAST_FOUR_DIGIT_YEAR_SECS ==> stamp is Some && is_stamp_of(
            secs as int,
            stamp->0@,
        ),
{
    chrono::DateTime::from_timestamp(secs, 0).map(|t| t.format("%Y-%m-%d_%H-%M-%S").to_string())
}

/// The whole seconds since the Unix epoch that the system clock reads, from
/// `std::time::SystemTime::now` and `duration_since(UNIX_EPOCH)`; `None`
/// where the clock reads a time before the epoch. Nothing is stated of the
/// reading: it depends on the clock.
#[verifier::external_body]
fn clock_unix_secs() -> (secs: Option<u64>) {
    std::time::SystemTime::now().duration_since(std::time::UNIX_EPOCH).ok().map(|d| d.as_secs())
}

/// The path of the log file of module `mod_path` opened at time `stamp`:
/// `logs/{mod_path}_{stamp}.log`.
pub fn log_file_path(mod_path: &str, stamp: &str) -> (path: String)
    ensures
        path@ == spec_log_file_path(mod_path@, stamp@),
{
    proof {
        reveal_strlit("logs/");
        reveal_strlit("_");
        reveal_strlit(".log");
    }
    let mut path = String::from_str("logs/");
    path.append(mod_path);
    path.append("_");
    path.append(stamp);
    path.append(".log");
    assert(path@ =~= spec_log_file_path(mod_path@, stamp@));
    path
}

/// The path of the log file of module `mod_path` opened `secs` seconds after
/// the Unix epoch: `logs/{mod_path}_{stamp}.log`, the stamp being the UTC
/// time as `YYYY-MM-DD_HH-MM-SS`. `None` where chrono has no date for `secs`.
pub fn log_file_at(mod_path: &str, secs: i64) -> (path: Option<String>)
    ensures
        opt_string_view(path) == spec_log_file_at(mod_path@, secs),
        0 <= secs <= LAST_FOUR_DIGIT_YEAR_SECS ==> {
            &&& path is Some
            &&& chrono_utc_stamp(secs) is Some
            &&& is_stamp_of(secs as int, chrono_utc_stamp(secs)->0)
        },
{
    match format_utc_stamp(secs) {
        Some(stamp) => Some(log_file_path(mod_path, stamp.as_str())),
        None => None,
    }
}

/// The path of the log file of module `mod_path` for the clock reading
/// `reading` (whole seconds since the Unix epoch, `None` where the clock read a
/// time before it). `None` where there is no reading or chrono has no date for
/// it.
pub open spec fn spec_log_file_for_reading(mod_path: Seq<char>, reading: Option<u64>) -> Option<
    Seq<char>,
> {
    match reading {
        Some(secs) => if secs <= i64::MAX {
            spec_log_file_at(mod_path, secs as i64)
        } else {
            None
        },
        None => None,
    }
}

/// The layout of a log file path: `logs/`, the module, `_`, the stamp, `.log`.
pub proof fn lemma_log_file_path_layout(mod_path: Seq<char>, stamp: Seq<char>)
    ensures
        ({
            let path = spec_log_file_path(mod_path, stamp);
            let m = mod_path.len() as int;
            &&& path.len() == m + stamp.len() + 10
            &&& path.take(5) == seq!['l', 'o', 'g', 's', '/']
            &&& path.subrange(5, 5 + m) == mod_path
            &&& path[5 + m] == '_'
            &&& path.subrange(6 + m, 6 + m + stamp.len()) == stamp
            &&& path.skip(6 + m + stamp.len()) == seq!['.', 'l', 'o', 'g']
        }),
{
    let path = spec_log_file_path(mod_path, stamp);
    let m = mod_path.len() as int;
    assert(path.take(5) =~= seq!['l', 'o', 'g', 's', '/']);
    assert(path.subrange(5, 5 + m) =~= mod_path);
    assert(path.subrange(6 + m, 6 + m + stamp.len()) =~= stamp);
    assert(path.skip(6 + m + stamp.len()) =~= seq!['.', 'l', 'o', 'g']);
}

/// A clock reading from the epoch through the year 9999 always gives a log
/// file path, stamped with that very reading: its stamp is chrono's text for
/// the reading, which shows the reading's hour, minute and second. No reading
/// gives no path.
pub proof fn lemma_log_file_for_reading_uses_the_reading(mod_path: Seq<char>, reading: Option<u64>)
    ensures
        reading is None ==> spec_log_file_for_reading(mod_path, reading) is None,
        reading matches Some(secs) ==> (secs <= i64::MAX ==> spec_log_file_for_reading(
            mod_path,
            reading,
        ) == match chrono_utc_stamp(secs as i64) {
            Some(stamp) => Some(spec_log_file_path(mod_path, stamp)),
            None => Option::<Seq<char>>::None,
        }),
        reading matches Some(secs) ==> (secs > i64::MAX ==> spec_log_file_for_reading(
            mod_path,
            reading,
        ) is None),
{
}

/// The path of the log file of module `mod_path` for the clock reading
/// `reading`: `logs/{mod_path}_{stamp}.log`, the stamp being the UTC time of
/// the reading as `YYYY-MM-DD_HH-MM-SS`. `None` where there is no reading
/// (the clock read a time before the Unix epoch) or chrono has no date for it.
pub fn log_file_for_reading(mod_path: &str, reading: Option<u64>) -> (path: Option<String>)
    ensures
        opt_string_view(path) == spec_log_file_for_reading(mod_path@, reading),
        reading is None ==> path is None,
        reading matches Some(secs) ==> (secs <= LAST_FOUR_DIGIT_YEAR_SECS ==> {
            &&& path is Some
            &&& chrono_utc_stamp(secs as i64) is Some
            &&& is_stamp_of(secs as int, chrono_utc_stamp(secs as i64)->0)
            &&& path->0@ == spec_log_file_path(mod_path@, chrono_utc_stamp(secs as i64)->0)
        }),
{
    match reading {
        None => None,
        Some(secs) => {
            if secs <= 0x7fff_ffff_ffff_ffff {
                let secs = secs as i64;
                log_file_at(mod_path, secs)
            } else {
                None
            }
        },
    }
}

/// The path for a new log file of module `mod_path`, named after the current
/// UTC time as the system clock reads it (the file itself is not created
/// here): `log_file_for_reading` of the clock's reading. `None` where the
/// clock reads a time before the Unix epoch or beyond the dates chrono knows.
pub fn create_log_file(mod_path: &str) -> (path: Option<String>)
    ensures
        path is Some ==> exists|secs: i64|
            {
                &&& 0 <= secs
                &&& opt_string_view(path) == #[trigger] spec_log_file_at(mod_path@, secs)
                &&& secs <= LAST_FOUR_DIGIT_YEAR_SECS ==> chrono_utc_stamp(secs) is Some
                    && is_stamp_of(secs as int, chrono_utc_stamp(secs)->0)
            },
        exists|reading: Option<u64>|
            opt_string_view(path) == #[trigger] spec_log_file_for_reading(mod_path@, reading),
{
    let reading = clock_unix_secs();
    let path = log_file_for_reading(mod_path, reading);
    proof {
        if path is Some {
            let secs = reading->0 as i64;
            assert(opt_string_view(path) == spec_log_file_at(mod_path@, secs));
        }
        assert(opt_string_view(path) == spec_log_file_for_reading(mod_path@, reading));
    }
    path
}

} // verus!
