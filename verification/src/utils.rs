//! Where the selector keeps its files, and what its log holds.

use vstd::prelude::*;
use vstd::utf8::encode_utf8;
use crate::text::{
    append_chars, contains, contains_chars, join, join_chars, lines, lowercase, opt_text,
    split_lines, to_chars, to_lowercase, to_string, views,
};

verus! {

broadcast use vstd::string::group_string_axioms;

/// The operating system path `dir`, as bytes, with the relative path
/// `part` appended, as `PathBuf::push` does on Unix: a `/` goes between them
/// unless `dir` is empty or already ends with one.
pub open spec fn os_path_join(dir: Seq<u8>, part: Seq<u8>) -> Seq<u8> {
    if dir.len() == 0 || dir.last() == 47u8 {
        dir + part
    } else {
        dir.push(47u8) + part
    }
}

/// The path `dir`, as bytes, with the relative path `part` appended.
pub fn join_os_path(dir: &[u8], part: &[u8]) -> (r: Vec<u8>)
    ensures
        r@ == os_path_join(dir@, part@),
{
    let mut r: Vec<u8> = Vec::new();
    let mut i: usize = 0;
    while i < dir.len()
        invariant
            i <= dir.len(),
            r@ == dir@.take(i as int),
        decreases dir.len() - i,
    {
        r.push(dir[i]);
        proof {
            assert(r@ =~= dir@.take(i + 1));
        }
        i = i + 1;
    }
    proof {
        assert(dir@.take(dir.len() as int) =~= dir@);
    }
    if !(dir.len() == 0 || dir[dir.len() - 1] == 47u8) {
        r.push(47u8);
    }
    let ghost head = r@;
    let mut k: usize = 0;
    while k < part.len()
        invariant
            k <= part.len(),
            r@ == head + part@.take(k as int),
        decreases part.len() - k,
    {
        r.push(part[k]);
        proof {
            assert(r@ =~= head + part@.take(k + 1));
        }
        k = k + 1;
    }
    proof {
        assert(part@.take(part.len() as int) =~= part@);
    }
    r
}

/// The directory of the selector's files, as the bytes of an operating
/// system path: `audio-selector` in the user's configuration directory;
/// when the system names none, in `.config` of the home directory (of the
/// current directory when there is no home either).
pub open spec fn config_dir_of(config: Option<Seq<u8>>, home: Option<Seq<u8>>) -> Seq<u8> {
    let base = match config {
        Some(c) => c,
        None => os_path_join(
            match home {
                Some(h) => h,
                None => seq![],
            },
            encode_utf8(".config"@),
        ),
    };
    os_path_join(base, encode_utf8("audio-selector"@))
}

/// The directory of the selector's files, given the user's configuration
/// and home directories as the system reports them.
pub fn config_dir_from(config: &Option<Vec<u8>>, home: &Option<Vec<u8>>) -> (r: Vec<u8>)
    ensures
        r@ == config_dir_of(
            match config {
                Some(c) => Some(c@),
                None => None,
            },
            match home {
                Some(h) => Some(h@),
                None => None,
            },
        ),
{
    let base = match config {
        Some(c) => join_os_path(&[], c.as_slice()),
        None => {
            let h: Vec<u8> = match home {
                Some(h) => join_os_path(&[], h.as_slice()),
                None => Vec::new(),
            };
            join_os_path(h.as_slice(), ".config".as_bytes())
        },
    };
    join_os_path(base.as_slice(), "audio-selector".as_bytes())
}

/// `dirs::config_dir`: the user's configuration directory, if the system
/// names one, as the bytes of the path (`OsString::into_encoded_bytes`;
/// on Unix the path's own bytes). It depends on the environment, so nothing
/// is stated of it.
#[verifier::external_body]
fn user_config_dir() -> Option<Vec<u8>> {
    dirs::config_dir().map(|p| p.into_os_string().into_encoded_bytes())
}

/// `dirs::home_dir`: the user's home directory, if the system names one, as
/// the bytes of the path (`OsString::into_encoded_bytes`; on Unix the path's
/// own bytes). It depends on the environment, so nothing is stated of it.
#[verifier::external_body]
fn user_home_dir() -> Option<Vec<u8>> {
    dirs::home_dir().map(|p| p.into_os_string().into_encoded_bytes())
}

/// The directory of the selector's files for the current user, as the bytes
/// of a path. The caller creates it when it does not exist.
pub fn get_config_dir() -> (r: Vec<u8>)
    ensures
        exists|c: Option<Seq<u8>>, h: Option<Seq<u8>>| r@ == config_dir_of(c, h),
{
    let config = user_config_dir();
    let home = user_home_dir();
    config_dir_from(&config, &home)
}

/// The settings file in the directory `dir`.
pub fn get_config_path(dir: &[u8]) -> (r: Vec<u8>)
    ensures
        r@ == os_path_join(dir@, encode_utf8("config.json"@)),
{
    join_os_path(dir, "config.json".as_bytes())
}

/// The log file in the directory `dir`.
pub fn get_log_path(dir: &[u8]) -> (r: Vec<u8>)
    ensures
        r@ == os_path_join(dir@, encode_utf8("debug.log"@)),
{
    join_os_path(dir, "debug.log".as_bytes())
}

/// The time format of log entries.
pub open spec fn log_time_format() -> Seq<char> {
    "%Y-%m-%d %H:%M:%S"@
}

/// The time format of status messages.
pub open spec fn clock_format() -> Seq<char> {
    "%H:%M:%S"@
}

/// Whether `c` is a decimal digit.
pub open spec fn is_digit(c: char) -> bool {
    48 <= (c as u32) <= 57
}

/// Whether every character of `s` is a decimal digit.
pub open spec fn all_digits(s: Seq<char>) -> bool {
    forall|i: int| 0 <= i < s.len() ==> is_digit(#[trigger] s[i])
}

/// The shape of a `%Y` year: at least four digits, preceded by a sign for
/// years outside 0 to 9999.
pub open spec fn year_shape(y: Seq<char>) -> bool {
    ||| y.len() >= 4 && all_digits(y)
    ||| y.len() >= 5 && (y[0] == '+' || y[0] == '-') && all_digits(y.skip(1))
}

/// Whether `s` has two digits at `i` and `i + 1`.
pub open spec fn two_digits_at(s: Seq<char>, i: int) -> bool {
    is_digit(s[i]) && is_digit(s[i + 1])
}

/// The shape of `-%m-%d %H:%M:%S`: `-DD-DD DD:DD:DD` with `D` a digit.
pub open spec fn date_time_tail(t: Seq<char>) -> bool {
    &&& t.len() == 15
    &&& t[0] == '-' && two_digits_at(t, 1)
    &&& t[3] == '-' && two_digits_at(t, 4)
    &&& t[6] == ' ' && two_digits_at(t, 7)
    &&& t[9] == ':' && two_digits_at(t, 10)
    &&& t[12] == ':' && two_digits_at(t, 13)
}

/// The shape of a `%Y-%m-%d %H:%M:%S` stamp: a year, then month, day, hour,
/// minute and second as two digits each.
pub open spec fn log_stamp_shape(s: Seq<char>) -> bool {
    s.len() >= 19 && year_shape(s.take(s.len() - 15)) && date_time_tail(s.skip(s.len() - 15))
}

/// The shape of a `%H:%M:%S` time: `DD:DD:DD` with `D` a digit.
pub open spec fn clock_shape(s: Seq<char>) -> bool {
    &&& s.len() == 8
    &&& two_digits_at(s, 0)
    &&& s[2] == ':' && two_digits_at(s, 3)
    &&& s[5] == ':' && two_digits_at(s, 6)
}

/// `chrono::Local::now().format(fmt)`: the current local time in the given
/// format. Which time it is depends on the clock and is not stated; its form
/// is, as chrono documents the specifiers: `%m`, `%d`, `%H`, `%M` and `%S`
/// are zero-padded to two digits, and `%Y` to four, with a sign for years
/// outside 0 to 9999. Only the two formats of this crate are admitted:
/// formatting with an invalid one panics.
#[verifier::external_body]
fn local_time(fmt: &str) -> (r: String)
    requires
        fmt@ == log_time_format() || fmt@ == clock_format(),
    ensures
        fmt@ == log_time_format() ==> log_stamp_shape(r@),
        fmt@ == clock_format() ==> clock_shape(r@),
{
    chrono::Local::now().format(fmt).to_string()
}

/// A log entry: the time, a dash, the message, and a line end.
pub open spec fn log_line(stamp: Seq<char>, msg: Seq<char>) -> Seq<char> {
    stamp + " - "@ + msg + "\n"@
}

/// The log entry for `msg` written at `stamp`.
pub fn log_line_at(stamp: &str, msg: &str) -> (r: String)
    ensures
        r@ == log_line(stamp@, msg@),
{
    let mut r = to_chars(stamp);
    append_chars(&mut r, &to_chars(" - "));
    append_chars(&mut r, &to_chars(msg));
    append_chars(&mut r, &to_chars("\n"));
    proof {
        assert(r@ =~= stamp@ + " - "@ + msg@ + "\n"@);
    }
    to_string(&r)
}

/// The log entry for `msg` written now, stamped with the local date and
/// time.
pub fn log_entry(msg: &str) -> (r: String)
    ensures
        exists|stamp: Seq<char>| log_stamp_shape(stamp) && r@ == log_line(stamp, msg@),
{
    let stamp = local_time("%Y-%m-%d %H:%M:%S");
    log_line_at(stamp.as_str(), msg)
}

/// A status message with the time it was set: `<status> - <time>`.
pub open spec fn timed_status(status: Seq<char>, clock: Seq<char>) -> Seq<char> {
    status + " - "@ + clock
}

/// The status `status` stamped with `clock`.
pub fn timed_status_at(status: &str, clock: &str) -> (r: String)
    ensures
        r@ == timed_status(status@, clock@),
{
    let mut r = to_chars(status);
    append_chars(&mut r, &to_chars(" - "));
    append_chars(&mut r, &to_chars(clock));
    proof {
        assert(r@ =~= status@ + " - "@ + clock@);
    }
    to_string(&r)
}

/// The status `status` stamped with the local time.
pub fn timed_status_now(status: &str) -> (r: String)
    ensures
        exists|clock: Seq<char>| clock_shape(clock) && r@ == timed_status(status@, clock),
{
    let clock = local_time("%H:%M:%S");
    timed_status_at(status, clock.as_str())
}

/// The most lines the log window shows.
pub const LOG_WINDOW_LINES: usize = 100;

/// The last `n` entries of `s` (all of them when there are fewer).
pub open spec fn last_n(s: Seq<Seq<char>>, n: nat) -> Seq<Seq<char>> {
    if s.len() <= n {
        s
    } else {
        s.skip(s.len() - n)
    }
}

/// The lines of `ls` whose lowercase form contains `needle`.
pub open spec fn matching_lines(ls: Seq<Seq<char>>, needle: Seq<char>) -> Seq<Seq<char>>
    decreases ls.len(),
{
    if ls.len() == 0 {
        seq![]
    } else {
        let m = matching_lines(ls.drop_last(), needle);
        if contains(lowercase(ls.last()), needle) {
            m.push(ls.last())
        } else {
            m
        }
    }
}

/// What the log window shows for the log text `content` and the search
/// text `search`: the last hundred lines, or, for a non-empty search, the
/// last hundred lines that contain it regardless of case; joined by line
/// ends. Without a log it shows `No logs.`.
pub open spec fn log_view(content: Option<Seq<char>>, search: Seq<char>) -> Seq<char> {
    match content {
        None => "No logs."@,
        Some(c) => if search.len() == 0 {
            join(last_n(lines(c), 100), "\n"@)
        } else {
            join(last_n(matching_lines(lines(c), lowercase(search)), 100), "\n"@)
        },
    }
}

/// The last `n` entries of `v`.
fn keep_last(v: Vec<Vec<char>>, n: usize) -> (r: Vec<Vec<char>>)
    ensures
        views(r@) == last_n(views(v@), n as nat),
{
    if v.len() <= n {
        return v;
    }
    let start = v.len() - n;
    let mut r: Vec<Vec<char>> = Vec::new();
    let mut i: usize = start;
    while i < v.len()
        invariant
            start <= i <= v.len(),
            start == v.len() - n,
            views(r@) == views(v@).subrange(start as int, i as int),
        decreases v.len() - i,
    {
        let ghost r0 = views(r@);
        r.push(crate::text::copy_chars(&v[i]));
        proof {
            assert(views(r@) =~= r0.push(v@[i as int]@));
            assert(views(r@) =~= views(v@).subrange(start as int, i + 1));
        }
        i = i + 1;
    }
    proof {
        assert(views(r@) =~= views(v@).skip(start as int));
    }
    r
}

/// What the log window shows for the log text `content` (`None` when the log
/// could not be read) and the search text `search`.
pub fn get_log_content(content: &Option<String>, search: &str) -> (r: String)
    ensures
        r@ == log_view(opt_text(*content), search@),
{
    match content {
        None => "No logs.".to_owned(),
        Some(c) => {
            let ls = split_lines(&to_chars(c.as_str()));
            let chosen = if search.is_empty() {
                ls
            } else {
                let needle = to_chars(to_lowercase(search).as_str());
                let ghost lv = views(ls@);
                let mut m: Vec<Vec<char>> = Vec::new();
                let mut i: usize = 0;
                while i < ls.len()
                    invariant
                        i <= ls.len(),
                        lv == views(ls@),
                        needle@ == lowercase(search@),
                        views(m@) == matching_lines(lv.take(i as int), needle@),
                    decreases ls.len() - i,
                {
                    proof {
                        assert(lv.take(i + 1).drop_last() =~= lv.take(i as int));
                        assert(lv.take(i + 1).last() == ls@[i as int]@);
                    }
                    let line = to_string(&ls[i]);
                    let low = to_chars(to_lowercase(line.as_str()).as_str());
                    if contains_chars(&low, &needle) {
                        let ghost m0 = views(m@);
                        m.push(crate::text::copy_chars(&ls[i]));
                        proof {
                            assert(views(m@) =~= m0.push(ls@[i as int]@));
                        }
                    }
                    i = i + 1;
                }
                proof {
                    assert(lv.take(ls.len() as int) =~= lv);
                }
                m
            };
            let shown = keep_last(chosen, LOG_WINDOW_LINES);
            to_string(&join_chars(&shown, &to_chars("\n")))
        },
    }
}

} // verus!
