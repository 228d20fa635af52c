//! What the functions of the library give, in terms of what they are given. Each
//! law takes the arguments and the result of a call, whichever they are.
use vstd::prelude::*;

use crate::clock::{formatted_text, rfc3339_text, UtcTime};
use crate::config::{
    law_limit, parsed_url, read_api_url, size_limit_bytes, ApiUrl, ConfigError, Settings,
};
use crate::handlers::{
    begin_command, begin_url_message, command_begins, command_next, handle_command,
    handle_url_message, receive_command, receive_text, url_begins, url_next, CommandRequest,
    CommandStep, SystemCommand, UrlRequest, UrlStep,
};
use crate::links::is_supported_url;
use crate::media::{
    after_last_slash, downloader_args, encoder_args, file_name_of, law_after_last_slash, law_names, law_paths,
    media_path, name_of, path_of, tail_of, Media, MediaFile,
};
use crate::messages::{caption, BotError, Message};
use crate::pipeline::{downloader_call, encoder_call};
use crate::progress::{
    download_percent, generate_progress_bar, is_due, is_percent, law_blocks_filled,
    law_only_tenths_written, law_read_is_reported, law_report_is_found, law_report_is_read,
    law_tenths_written, percent_tenths, reporting, text_of, Shown,
};
use crate::protocol::{Action, Event, Wait};
use crate::size::{law_megabytes, megabytes_text, nearest_steps};
use crate::state::{
    append_download, authorize_user, can_count, count_download, increment_downloads,
    law_access_is_entered, law_download_is_counted, law_download_is_logged, law_message_is_noted,
    log_download, note_user, track_and_check_auth, LogTable, User, UserTable,
};
use crate::storage::{temporary_path, Document};
use crate::table::{law_last_entry_stays, Table};
use crate::text::{
    all_digits, all_white, contains, decimal, decimal_text, is_white_space, law_contains_text,
    law_no_leading_zero, law_numbers_read, law_trimmed, law_trimmed_between, lemma_decimal,
    parse_u64, trim, value_of, writes,
};
use vstd::arithmetic::power2::pow2;

verus! {

/// Trimming takes white space off both ends, all of it and nothing else.
pub proof fn law_trim(s: &str, r: String)
    requires
        call_ensures(trim, (s,), r),
    ensures
        exists|a: Seq<char>, b: Seq<char>| {
            &&& s@ == #[trigger] (a + r@ + b)
            &&& all_white(a)
            &&& all_white(b)
        },
        r@.len() > 0 ==> !is_white_space(r@.first()) && !is_white_space(r@.last()),
        s@.len() > 0 && !is_white_space(s@.first()) && !is_white_space(s@.last()) ==> r@ == s@,
{
    law_trimmed(s@);
    if s@.len() > 0 && !is_white_space(s@.first()) && !is_white_space(s@.last()) {
        law_trimmed_between(Seq::empty(), s@, Seq::empty());
        assert(Seq::<char>::empty() + s@ + Seq::<char>::empty() == s@);
    }
}

/// Searching finds a text exactly where it stands between two others.
pub proof fn law_contains(hay: &str, needle: &str, r: bool)
    requires
        call_ensures(contains, (hay, needle), r),
    ensures
        r <==> exists|a: Seq<char>, b: Seq<char>| hay@ == #[trigger] (a + needle@ + b),
{
    law_contains_text(hay@, needle@);
}

/// The text stands somewhere in the link.
pub open spec fn has_host(link: Seq<char>, host: Seq<char>) -> bool {
    exists|a: Seq<char>, b: Seq<char>| link == #[trigger] (a + host + b)
}

/// The links that are taken are those with one of the four host names in them.
pub proof fn law_is_supported_url(s: &str, r: bool)
    requires
        call_ensures(is_supported_url, (s,), r),
    ensures
        r <==> has_host(s@, "twitter.com"@) || has_host(s@, "x.com"@) || has_host(
            s@,
            "youtube.com"@,
        ) || has_host(s@, "youtu.be"@),
{
    law_contains_text(s@, "twitter.com"@);
    law_contains_text(s@, "x.com"@);
    law_contains_text(s@, "youtube.com"@);
    law_contains_text(s@, "youtu.be"@);
}

/// A number is read from a text exactly where the text writes it.
pub proof fn law_parse_u64(s: &str, n: u64, r: Option<u64>)
    requires
        call_ensures(parse_u64, (s,), r),
    ensures
        r == Some(n) <==> writes(s@, n as nat),
{
    law_numbers_read(s@, n);
}

/// A number is written in digits that are worth it, without a zero before them.
pub proof fn law_decimal_text(n: u64, r: String)
    requires
        call_ensures(decimal_text, (n,), r),
    ensures
        r@.len() > 0,
        all_digits(r@),
        value_of(r@) == n,
        r@[0] == '0' ==> n == 0 && r@.len() == 1,
{
    lemma_decimal(n as nat);
    law_no_leading_zero(n as nat);
}

/// A size is written as digits, a point and two digits, which make the nearest
/// hundredths of a megabyte.
pub proof fn law_megabytes_text(bytes: u64, r: String) -> (w: (Seq<char>, Seq<char>, nat, nat))
    requires
        call_ensures(megabytes_text, (bytes,), r),
    ensures
        ({
            let (whole, places, k, m) = w;
            let h = 100 * value_of(whole) + value_of(places);
            &&& r@ == whole + "."@ + places
            &&& whole == decimal(value_of(whole))
            &&& all_digits(places) && places.len() == 2
            &&& bytes < 9_007_199_254_740_992 ==> k == 0 && m == bytes
            &&& bytes >= 9_007_199_254_740_992 ==> 4_503_599_627_370_496 * pow2(k) <= bytes
                < 9_007_199_254_740_992 * pow2(k)
            &&& nearest_steps(bytes as int, pow2(k) as int, m as int)
            &&& nearest_steps((100 * (m * pow2(k))) as int, 1_048_576, h as int)
        }),
{
    law_megabytes(bytes)
}

/// A bar has twelve blocks, and one of them is filled once its middle is reached.
pub proof fn law_generate_progress_bar(tenths: u32, i: int, r: String)
    requires
        call_ensures(generate_progress_bar, (tenths,), r),
        0 <= i < 12,
    ensures
        r@.len() == 12,
        r@[i] == (if 24 * tenths >= 1000 * (2 * i + 1) {
            '\u{2588}'
        } else {
            '\u{2591}'
        }),
{
    law_blocks_filled(tenths as nat, i);
}

/// Up to three digits, a point and a digit are read as tenths of a percent;
/// nothing else is read as any.
pub proof fn law_percent_tenths(whole: Seq<char>, d: nat, pct: &str, r: u32)
    requires
        call_ensures(percent_tenths, (pct,), r),
    ensures
        1 <= whole.len() <= 3 && all_digits(whole) && d < 10 && pct@ == whole.push('.').push(
            "0123456789"@[d as int],
        ) ==> r == 10 * value_of(whole) + d,
        r != 0 ==> exists|w: Seq<char>, e: int|
            {
                &&& pct@ == #[trigger] w.push('.').push("0123456789"@[e])
                &&& 1 <= w.len() <= 3
                &&& all_digits(w)
                &&& 0 <= e < 10
            },
{
    if 1 <= whole.len() <= 3 && all_digits(whole) && d < 10 {
        law_tenths_written(whole, d);
    }
    if r != 0 {
        law_only_tenths_written(pct@);
    }
}

/// What a line reports is read from it, and nothing that it does not report.
pub proof fn law_download_percent(
    before: Seq<char>,
    white: Seq<char>,
    p: Seq<char>,
    after: Seq<char>,
    line: &str,
    r: Option<String>,
)
    requires
        call_ensures(download_percent, (line,), r),
        white.len() > 0,
        all_white(white),
        is_percent(p),
    ensures
        line@ == reporting(before, white, p, after) ==> r is Some,
        line@ == reporting(before, white, p, after) && !before.contains('[') ==> (
        r matches Some(read) && read@ == p),
        r matches Some(read) ==> is_percent(read@) && exists|a: Seq<char>, w: Seq<char>, b: Seq<char>|
            {
                &&& line@ == #[trigger] reporting(a, w, read@, b)
                &&& w.len() > 0
                &&& all_white(w)
            },
{
    if line@ == reporting(before, white, p, after) {
        law_report_is_found(before, white, p, after);
        if !before.contains('[') {
            law_report_is_read(before, white, p, after, text_of(r));
        }
    }
    if let Some(read) = r {
        law_read_is_reported(line@, read@);
    }
}

/// A percentage is due if none was shown, or if another was, more than two
/// seconds ago.
pub proof fn law_is_due(shown: &Option<Shown>, pct: &String, at: u128, r: bool)
    requires
        call_ensures(is_due, (shown, pct, at), r),
    ensures
        r == match *shown {
            None => true,
            Some(last) => last.pct@ != pct@ && at - last.at > 2_000_000_000,
        },
{
}

/// A line of output becomes an event with its time, and with what it reports.
pub proof fn law_line(line: &str, at: u128, p: Seq<char>, white: Seq<char>, r: Event)
    requires
        call_ensures(Event::line, (line, at), r),
        white.len() > 0,
        all_white(white),
        is_percent(p),
    ensures
        r matches Event::Line(read, time) && time == at && {
            &&& line@ == reporting(Seq::empty(), white, p, Seq::empty()) ==> (
            read matches Some(text) && text@ == p)
            &&& read matches Some(text) ==> is_percent(text@)
        },
{
    law_report_is_read(
        Seq::empty(),
        white,
        p,
        Seq::empty(),
        match r {
            Event::Line(read, _) => text_of(read),
            _ => None,
        },
    );
    if let Event::Line(Some(text), _) = r {
        law_read_is_reported(line@, text@);
    }
}

/// After a message its time is the last use in the record of its sender. All else
/// in the record of somebody known stays, and with it what is told of their
/// access; a newcomer's record is made of who they are, and they have none.
pub proof fn law_track_and_check_auth(
    users: &mut UserTable,
    user: &User,
    uid_key: &str,
    now: UtcTime,
    r: bool,
)
    requires
        call_ensures(track_and_check_auth, (users, user, uid_key, now), r),
    ensures
        ({
            let before = old(users)@;
            let after = final(users)@;
            let record = after[uid_key@];
            &&& after.dom() == before.dom().insert(uid_key@)
            &&& forall|other: Seq<char>|
                other != uid_key@ && before.contains_key(other) ==> #[trigger] after[other]
                    == before[other]
            &&& record.last_use == rfc3339_text(now.secs as int, now.nanos as int)
            &&& before.contains_key(uid_key@) ==> {
                &&& r == before[uid_key@].is_authorized
                &&& record.is_authorized == r
                &&& record.id == before[uid_key@].id
                &&& record.username == before[uid_key@].username
                &&& record.first_name == before[uid_key@].first_name
                &&& record.language_code == before[uid_key@].language_code
                &&& record.first_use == before[uid_key@].first_use
                &&& record.download_count == before[uid_key@].download_count
            }
            &&& !before.contains_key(uid_key@) ==> {
                &&& !r
                &&& !record.is_authorized
                &&& record.id == user.id
                &&& record.username == user.username.deep_view()
                &&& record.first_name == user.first_name@
                &&& record.language_code == user.language_code.deep_view()
                &&& record.first_use == record.last_use
                &&& record.download_count == 0
            }
        }),
{
    law_message_is_noted(old(users)@, *user, uid_key@, now.spec_rfc3339());
}

/// The same of a message whose time is given as a text.
pub proof fn law_note_user(
    users: &mut UserTable,
    user: &User,
    uid_key: &str,
    now: String,
    r: bool,
)
    requires
        call_ensures(note_user, (users, user, uid_key, now), r),
    ensures
        ({
            let before = old(users)@;
            let after = final(users)@;
            &&& after.contains_key(uid_key@)
            &&& after[uid_key@].last_use == now@
            &&& after.remove(uid_key@) == before.remove(uid_key@)
            &&& r == after[uid_key@].is_authorized
            &&& before.contains_key(uid_key@) ==> r == before[uid_key@].is_authorized
                && after[uid_key@].first_use == before[uid_key@].first_use
                && after[uid_key@].download_count == before[uid_key@].download_count
            &&& !before.contains_key(uid_key@) ==> !r && after[uid_key@].first_use == now@
                && after[uid_key@].id == user.id && after[uid_key@].first_name == user.first_name@
                && after[uid_key@].download_count == 0
        }),
{
    law_message_is_noted(old(users)@, *user, uid_key@, now@);
    assert(final(users)@.remove(uid_key@) =~= old(users)@.remove(uid_key@));
}

/// Whoever is known has access once it is given, and keeps all else; nobody else
/// is touched or added.
pub proof fn law_authorize_user(users: &mut UserTable, uid_key: &str, r: ())
    requires
        call_ensures(authorize_user, (users, uid_key), r),
    ensures
        ({
            let before = old(users)@;
            let after = final(users)@;
            &&& after.dom() == before.dom()
            &&& after.remove(uid_key@) == before.remove(uid_key@)
            &&& before.contains_key(uid_key@) ==> after[uid_key@].is_authorized
                && after[uid_key@].last_use == before[uid_key@].last_use
                && after[uid_key@].first_use == before[uid_key@].first_use
                && after[uid_key@].download_count == before[uid_key@].download_count
                && after[uid_key@].id == before[uid_key@].id && after[uid_key@].first_name
                == before[uid_key@].first_name && after[uid_key@].username
                == before[uid_key@].username && after[uid_key@].language_code
                == before[uid_key@].language_code
        }),
{
    law_access_is_entered(old(users)@, uid_key@);
    assert(final(users)@.remove(uid_key@) =~= old(users)@.remove(uid_key@));
}

/// A download is entered at the end of the list of its user, with its link and
/// its time; all that was there stays before it, and no other list changes.
pub proof fn law_log_download(
    logs: &mut LogTable,
    uid_key: &str,
    url: &str,
    now: UtcTime,
    r: (),
)
    requires
        call_ensures(log_download, (logs, uid_key, url, now), r),
    ensures
        ({
            let before = old(logs)@;
            let after = final(logs)@;
            let list = after[uid_key@];
            &&& after.contains_key(uid_key@) && list.len() > 0
            &&& list.last().url == url@
            &&& list.last().timestamp == rfc3339_text(now.secs as int, now.nanos as int)
            &&& before.contains_key(uid_key@) ==> list.drop_last() == before[uid_key@]
            &&& !before.contains_key(uid_key@) ==> list.len() == 1
            &&& after.remove(uid_key@) == before.remove(uid_key@)
        }),
{
    law_download_is_logged(old(logs)@, uid_key@, url@, now.spec_rfc3339());
    assert(final(logs)@.remove(uid_key@) =~= old(logs)@.remove(uid_key@));
}

/// The same of a download whose time is given as a text.
pub proof fn law_append_download(
    logs: &mut LogTable,
    uid_key: &str,
    url: &str,
    now: String,
    r: (),
)
    requires
        call_ensures(append_download, (logs, uid_key, url, now), r),
    ensures
        ({
            let before = old(logs)@;
            let after = final(logs)@;
            let list = after[uid_key@];
            &&& after.contains_key(uid_key@) && list.len() > 0
            &&& list.last().url == url@ && list.last().timestamp == now@
            &&& before.contains_key(uid_key@) ==> list.drop_last() == before[uid_key@]
            &&& !before.contains_key(uid_key@) ==> list.len() == 1
            &&& after.remove(uid_key@) == before.remove(uid_key@)
        }),
{
    law_download_is_logged(old(logs)@, uid_key@, url@, now@);
    assert(final(logs)@.remove(uid_key@) =~= old(logs)@.remove(uid_key@));
}

/// A download of somebody known adds one to their count and leaves its time as
/// the last use; all else stays.
pub proof fn law_count_download(users: &mut UserTable, uid_key: &str, now: UtcTime, r: ())
    requires
        call_ensures(count_download, (users, uid_key, now), r),
        old(users)@.contains_key(uid_key@) ==> old(users)@[uid_key@].download_count < 0xffff_ffff,
    ensures
        ({
            let before = old(users)@;
            let after = final(users)@;
            &&& after.dom() == before.dom()
            &&& after.remove(uid_key@) == before.remove(uid_key@)
            &&& before.contains_key(uid_key@) ==> after[uid_key@].download_count
                == before[uid_key@].download_count + 1 && after[uid_key@].last_use == rfc3339_text(
                now.secs as int,
                now.nanos as int,
            ) && after[uid_key@].is_authorized == before[uid_key@].is_authorized
                && after[uid_key@].first_use == before[uid_key@].first_use && after[uid_key@].id
                == before[uid_key@].id && after[uid_key@].first_name == before[uid_key@].first_name
                && after[uid_key@].username == before[uid_key@].username
                && after[uid_key@].language_code == before[uid_key@].language_code
        }),
{
    law_download_is_counted(old(users)@, uid_key@, now.spec_rfc3339());
    assert(final(users)@.remove(uid_key@) =~= old(users)@.remove(uid_key@));
}

/// The same of a download whose time is given as a text.
pub proof fn law_increment_downloads(users: &mut UserTable, uid_key: &str, now: String, r: ())
    requires
        call_ensures(increment_downloads, (users, uid_key, now), r),
        old(users)@.contains_key(uid_key@) ==> old(users)@[uid_key@].download_count < 0xffff_ffff,
    ensures
        ({
            let before = old(users)@;
            let after = final(users)@;
            &&& after.dom() == before.dom()
            &&& after.remove(uid_key@) == before.remove(uid_key@)
            &&& before.contains_key(uid_key@) ==> after[uid_key@].download_count
                == before[uid_key@].download_count + 1 && after[uid_key@].last_use == now@
                && after[uid_key@].is_authorized == before[uid_key@].is_authorized
        }),
{
    law_download_is_counted(old(users)@, uid_key@, now@);
    assert(final(users)@.remove(uid_key@) =~= old(users)@.remove(uid_key@));
}

/// A download can be counted unless the count of a known user is at its end.
pub proof fn law_can_count(users: &UserTable, uid_key: &str, r: bool)
    requires
        call_ensures(can_count, (users, uid_key), r),
    ensures
        r <==> !users@.contains_key(uid_key@) || users@[uid_key@].download_count + 1 <= 0xffff_ffff,
{
}

/// The end of the name of a file.
pub open spec fn ending(media: Media) -> Seq<char> {
    match media {
        Media::Raw => "_raw.mp4"@,
        Media::Compressed => "_final.mp4"@,
    }
}

/// The name, the path and the caption of a file, and the call that makes it.
pub proof fn law_name_and_path(
    uid_key: &str,
    file: MediaFile,
    name: String,
    path: String,
    last: String,
    under: String,
)
    requires
        call_ensures(name_of, (uid_key, file), name),
        call_ensures(path_of, (uid_key, file), path),
        call_ensures(file_name_of, (uid_key, file), last),
        call_ensures(caption, (uid_key, file), under),
    ensures
        name@ == uid_key@ + "_"@ + formatted_text(
            file.started.secs as int,
            file.started.nanos as int,
            "%Y%m%d_%H%M%S"@,
        ) + ending(file.media),
        path@ == (if uid_key@.len() > 0 && uid_key@[0] == '/' {
            name@
        } else {
            "downloads/"@ + name@
        }),
        !last@.contains('/'),
        exists|dir: Seq<char>|
            path@ == #[trigger] (dir + last@) && (dir.len() > 0 ==> dir.last() == '/'),
        all_digits(uid_key@) ==> last@ == name@,
        under@ == "✅ <b>Arşivlendi:</b> <code>"@ + last@ + "</code>"@,
{
    law_names(uid_key@, file);
    law_paths(uid_key@, file);
    law_after_last_slash(media_path(uid_key@, file));
}

/// What stands behind the last slash has none itself.
pub proof fn law_tail_of(path: &str, r: String)
    requires
        call_ensures(tail_of, (path,), r),
    ensures
        !r@.contains('/'),
        exists|dir: Seq<char>|
            path@ == #[trigger] (dir + r@) && (dir.len() > 0 ==> dir.last() == '/'),
{
    law_after_last_slash(path@);
}

/// The call of the downloader: the cookie file first, where there is one, and
/// then always the same but for the output and the link.
pub proof fn law_downloader_args(
    url: &str,
    output: &str,
    cookies: Option<&str>,
    r: Vec<String>,
)
    requires
        call_ensures(downloader_args, (url, output, cookies), r),
    ensures
        r.deep_view() == (match cookies {
            Some(path) => seq!["--cookies"@, path@],
            None => seq![],
        }) + seq!["-o"@, output@, "--merge-output-format"@, "mp4"@, "--newline"@, url@],
{
    assert(r.deep_view() =~= (match cookies {
        Some(path) => seq!["--cookies"@, path@],
        None => seq![],
    }) + seq!["-o"@, output@, "--merge-output-format"@, "mp4"@, "--newline"@, url@]);
}

/// The calls of the two programs for a download: the downloader writes the raw
/// file, and the encoder reads it and writes the compressed one.
pub proof fn law_calls(
    uid_key: &str,
    url: &str,
    cookies: Option<&str>,
    started: UtcTime,
    raw: String,
    small: String,
    download: Vec<String>,
    encode: Vec<String>,
)
    requires
        call_ensures(path_of, (uid_key, MediaFile { media: Media::Raw, started }), raw),
        call_ensures(path_of, (uid_key, MediaFile { media: Media::Compressed, started }), small),
        call_ensures(downloader_call, (uid_key, url, cookies, started), download),
        call_ensures(encoder_call, (uid_key, started), encode),
    ensures
        download.deep_view() == (match cookies {
            Some(path) => seq!["--cookies"@, path@],
            None => seq![],
        }) + seq!["-o"@, raw@, "--merge-output-format"@, "mp4"@, "--newline"@, url@],
        encode.deep_view().len() == 20,
        encode.deep_view()[0] == "-i"@,
        encode.deep_view()[1] == raw@,
        encode.deep_view()[19] == small@,
{
    assert(download.deep_view() =~= (match cookies {
        Some(path) => seq!["--cookies"@, path@],
        None => seq![],
    }) + seq!["-o"@, raw@, "--merge-output-format"@, "mp4"@, "--newline"@, url@]);
}

/// The call of the encoder: always the same but for the two files.
pub proof fn law_encoder_args(input: &str, output: &str, r: Vec<String>)
    requires
        call_ensures(encoder_args, (input, output), r),
    ensures
        r.deep_view() == seq!["-i"@, input@, "-vf"@, "scale=-2:480"@] + seq![
            "-c:v"@,
            "libx264"@,
            "-preset"@,
            "fast"@,
            "-crf"@,
            "28"@,
        ] + seq!["-c:a"@, "aac"@, "-b:a"@, "128k"@] + seq![
            "-movflags"@,
            "+faststart"@,
            "-threads"@,
            "0"@,
            "-y"@,
            output@,
        ],
{
    assert(r.deep_view() =~= seq!["-i"@, input@, "-vf"@, "scale=-2:480"@] + seq![
        "-c:v"@,
        "libx264"@,
        "-preset"@,
        "fast"@,
        "-crf"@,
        "28"@,
    ] + seq!["-c:a"@, "aac"@, "-b:a"@, "128k"@] + seq![
        "-movflags"@,
        "+faststart"@,
        "-threads"@,
        "0"@,
        "-y"@,
        output@,
    ]);
}

/// What is told of a name, of a failure in its own words, of a crash and of an
/// error: all of it, in a frame that does not depend on it.
pub proof fn law_texts(
    name: String,
    cause: String,
    error: BotError,
    welcome: String,
    failed: String,
    crashed: String,
    told: String,
    inner: String,
)
    requires
        call_ensures(Message::text, (&Message::Welcome(name),), welcome),
        call_ensures(BotError::text, (&BotError::Failed(cause),), failed),
        call_ensures(BotError::text, (&BotError::DownloaderCrashed(cause),), crashed),
        call_ensures(BotError::text, (&error,), inner),
        call_ensures(Message::text, (&Message::PipelineFailed(error),), told),
    ensures
        welcome@ == "<b>Sistem Aktif</b> 🟢\nHoş geldiniz, <code>"@ + name@ + "</code>."@,
        failed@ == cause@,
        crashed@ == "yt-dlp işlemi çöktü: "@ + cause@,
        told@ == "❌ <b>İşlem Hatası:</b>\n<code>"@ + inner@ + "</code>"@,
{
}

/// An update shows the bar of the tenths that its percentage writes, and the
/// percentage as it stands.
pub proof fn law_update(pct: String, text: &str, tenths: u32, bar: String, r: String)
    requires
        text@ == pct@,
        call_ensures(percent_tenths, (text,), tenths),
        call_ensures(generate_progress_bar, (tenths,), bar),
        call_ensures(Message::text, (&Message::Downloading(pct),), r),
    ensures
        r@ == "📥 <b>İndiriliyor...</b>\n<code>"@ + bar@ + "</code> "@ + pct@ + "%"@,
{
}

/// A file that stays too large is told of with its size.
pub proof fn law_too_large(bytes: u64, size: String, r: String)
    requires
        call_ensures(megabytes_text, (bytes,), size),
        call_ensures(BotError::text, (&BotError::StillTooLarge(bytes),), r),
    ensures
        r@ == "Sıkıştırma işlemine rağmen dosya boyutu çok büyük: "@ + size@ + " MB"@,
{
}

/// The limit in bytes, and that a larger limit in megabytes is a larger one in
/// bytes.
pub proof fn law_size_limit_bytes(a: u64, b: u64, x: u64, y: u64)
    requires
        call_ensures(size_limit_bytes, (a,), x),
        call_ensures(size_limit_bytes, (b,), y),
        a < b,
    ensures
        x == a * 1024 * 1024,
        y - x == (b - a) * 1024 * 1024,
        x < y,
{
}

/// The address is what the URL parser makes of the setting.
pub proof fn law_read_api_url(raw: Option<&str>, r: ApiUrl)
    requires
        call_ensures(read_api_url, (raw,), r),
    ensures
        raw is None <==> r is Usual,
        raw matches Some(text) ==> (parsed_url(text@) is None <==> r is Invalid),
        r matches ApiUrl::Custom(url) ==> raw matches Some(text) && parsed_url(text@) == Some(url@),
{
}

/// A start needs a token and no invalid address. It takes the token and the
/// password as they are, the address that is set, and the limit that the setting
/// writes; where they are not set, the usual ones; and the cookie file if it is
/// there.
pub proof fn law_settings(
    token: Option<String>,
    password: Option<String>,
    api_url: ApiUrl,
    max_file_size_mb: Option<String>,
    cookies_present: bool,
    n: u64,
    r: Result<Settings, ConfigError>,
)
    requires
        call_ensures(
            Settings::read,
            (token, password, api_url, max_file_size_mb, cookies_present),
            r,
        ),
    ensures
        token is None <==> r == Err::<Settings, _>(ConfigError::MissingToken),
        token is Some && api_url is Invalid <==> r == Err::<Settings, _>(
            ConfigError::InvalidApiUrl,
        ),
        r matches Ok(settings) ==> {
            &&& token == Some(settings.token)
            &&& password matches Some(given) ==> settings.password@ == given@
            &&& password is None ==> settings.password@ == "admin123"@
            &&& api_url matches ApiUrl::Custom(url) ==> settings.api_url == Some(url)
            &&& api_url is Usual ==> settings.api_url is None
            &&& max_file_size_mb matches Some(raw) ==> (writes(raw@, n as nat) ==> settings.limit_mb
                == n) && ((forall|m: u64| !#[trigger] writes(raw@, m as nat)) ==> settings.limit_mb
                == 50)
            &&& max_file_size_mb is None ==> settings.limit_mb == 50
            &&& cookies_present ==> (settings.cookies matches Some(path) && path@ == "cookies.txt"@)
            &&& !cookies_present ==> settings.cookies is None
        },
{
    if let Some(raw) = max_file_size_mb {
        law_limit(raw@, n);
    } else {
        law_limit(Seq::empty(), n);
    }
}

/// Where the documents lie, and where their next contents are written first.
pub proof fn law_document_paths(
    users: &'static str,
    logs: &'static str,
    path: &str,
    aside: String,
)
    requires
        call_ensures(Document::path, (&Document::Users,), users),
        call_ensures(Document::path, (&Document::Logs,), logs),
        call_ensures(temporary_path, (path,), aside),
    ensures
        users@ == "users.json"@,
        logs@ == "download_log.json"@,
        aside@ == path@ + ".tmp"@,
{
}

/// A command is taken up with its sender, keyed by the digits of their number,
/// and with the password as it is; without a sender it is not taken up.
pub proof fn law_receive_command(
    user: Option<User>,
    command: SystemCommand,
    password: String,
    r: Result<CommandRequest, BotError>,
)
    requires
        call_ensures(receive_command, (user, command, password), r),
    ensures
        user is None <==> r == Err::<CommandRequest, _>(BotError::MissingUser),
        user matches Some(sender) ==> r matches Ok(request) && {
            &&& request.user == sender
            &&& all_digits(request.uid_key@) && value_of(request.uid_key@) == sender.id
            &&& request.uid_key@.len() > 0
            &&& request.uid_key@[0] == '0' ==> sender.id == 0
            &&& request.command == command
            &&& request.password == password
        },
{
    if let Some(sender) = user {
        lemma_decimal(sender.id as nat);
        law_no_leading_zero(sender.id as nat);
    }
}

/// A message without text is passed over; one with text needs a sender. Its link
/// is the text without the white space at its ends, and nothing else of the text
/// is lost.
pub proof fn law_receive_text(
    text: Option<&str>,
    user: Option<User>,
    cookies: Option<String>,
    limit: u64,
    r: Result<Option<UrlRequest>, BotError>,
)
    requires
        call_ensures(receive_text, (text, user, cookies, limit), r),
    ensures
        text is None <==> r == Ok::<Option<UrlRequest>, BotError>(None),
        text is Some && user is None <==> r == Err::<Option<UrlRequest>, _>(BotError::MissingUser),
        text matches Some(said) ==> (user matches Some(sender) ==> r matches Ok(Some(request)) && {
            &&& request.user == sender
            &&& all_digits(request.uid_key@) && value_of(request.uid_key@) == sender.id
            &&& request.uid_key@.len() > 0
            &&& request.uid_key@[0] == '0' ==> sender.id == 0
            &&& request.cookies == cookies
            &&& request.limit == limit
            &&& exists|a: Seq<char>, b: Seq<char>| {
                &&& said@ == #[trigger] (a + request.url@ + b)
                &&& all_white(a)
                &&& all_white(b)
            }
            &&& request.url@.len() > 0 ==> !is_white_space(request.url@.first())
                && !is_white_space(request.url@.last())
        }),
{
    if let (Some(said), Some(sender)) = (text, user) {
        law_trimmed(said@);
        lemma_decimal(sender.id as nat);
        law_no_leading_zero(sender.id as nat);
    }
}

/// What a text's request notes, logs, counts, calls and sends: its own sender,
/// key, link and cookie file.
pub proof fn law_request_calls(
    request: &UrlRequest,
    started: UtcTime,
    file: MediaFile,
    raw: String,
    path: String,
    last: String,
    under: String,
    download: Vec<String>,
)
    requires
        call_ensures(UrlRequest::path_of, (request, MediaFile { media: Media::Raw, started }), raw),
        call_ensures(UrlRequest::downloader_call, (request, started), download),
        call_ensures(UrlRequest::path_of, (request, file), path),
        call_ensures(UrlRequest::caption_of, (request, file), under),
    ensures
        download.deep_view() == (match request.cookies {
            Some(cookies) => seq!["--cookies"@, cookies@],
            None => seq![],
        }) + seq!["-o"@, raw@, "--merge-output-format"@, "mp4"@, "--newline"@, request.url@],
        request.uid_key@.len() == 0 || request.uid_key@[0] != '/' ==> path@ == "downloads/"@
            + request.uid_key@ + "_"@ + formatted_text(
            file.started.secs as int,
            file.started.nanos as int,
            "%Y%m%d_%H%M%S"@,
        ) + ending(file.media),
        exists|dir: Seq<char>, name: Seq<char>|
            {
                &&& path@ == #[trigger] (dir + name)
                &&& dir.len() > 0 ==> dir.last() == '/'
                &&& !name.contains('/')
                &&& under@ == "✅ <b>Arşivlendi:</b> <code>"@ + name + "</code>"@
            },
{
    assert(download.deep_view() =~= (match request.cookies {
        Some(cookies) => seq!["--cookies"@, cookies@],
        None => seq![],
    }) + seq!["-o"@, raw@, "--merge-output-format"@, "mp4"@, "--newline"@, request.url@]);
    law_names(request.uid_key@, file);
    law_paths(request.uid_key@, file);
    law_after_last_slash(media_path(request.uid_key@, file));
    let name = after_last_slash(path@);
    let dir = choose|dir: Seq<char>|
        path@ == #[trigger] (dir + name) && (dir.len() > 0 ==> dir.last() == '/');
    assert(path@ == dir + name);
    if request.uid_key@.len() == 0 || request.uid_key@[0] != '/' {
        assert(path@ =~= "downloads/"@ + request.uid_key@ + "_"@ + formatted_text(
            file.started.secs as int,
            file.started.nanos as int,
            "%Y%m%d_%H%M%S"@,
        ) + ending(file.media));
    }
}

/// Noting the sender of a text leaves its time in their record, and tells of
/// their access as it is.
pub proof fn law_text_noted(request: &UrlRequest, users: &mut UserTable, now: UtcTime, r: bool)
    requires
        call_ensures(UrlRequest::note, (request, users, now), r),
    ensures
        ({
            let key = request.uid_key@;
            let before = old(users)@;
            let after = final(users)@;
            &&& after.contains_key(key)
            &&& after.remove(key) == before.remove(key)
            &&& after[key].last_use == rfc3339_text(now.secs as int, now.nanos as int)
            &&& r == after[key].is_authorized
            &&& before.contains_key(key) ==> r == before[key].is_authorized
                && after[key].download_count == before[key].download_count && after[key].first_use
                == before[key].first_use
            &&& !before.contains_key(key) ==> !r && after[key].id == request.user.id
                && after[key].first_name == request.user.first_name@ && after[key].download_count
                == 0
        }),
{
    law_message_is_noted(old(users)@, request.user, request.uid_key@, now.spec_rfc3339());
    assert(final(users)@.remove(request.uid_key@) =~= old(users)@.remove(request.uid_key@));
}

/// Noting the sender of a command does the same.
pub proof fn law_command_noted(
    request: &CommandRequest,
    users: &mut UserTable,
    now: UtcTime,
    r: bool,
)
    requires
        call_ensures(CommandRequest::note, (request, users, now), r),
    ensures
        ({
            let key = request.uid_key@;
            let before = old(users)@;
            let after = final(users)@;
            &&& after.contains_key(key)
            &&& after.remove(key) == before.remove(key)
            &&& after[key].last_use == rfc3339_text(now.secs as int, now.nanos as int)
            &&& r == after[key].is_authorized
            &&& before.contains_key(key) ==> r == before[key].is_authorized
                && after[key].download_count == before[key].download_count && after[key].first_use
                == before[key].first_use
            &&& !before.contains_key(key) ==> !r && after[key].id == request.user.id
                && after[key].first_name == request.user.first_name@ && after[key].download_count
                == 0
        }),
{
    law_message_is_noted(old(users)@, request.user, request.uid_key@, now.spec_rfc3339());
    assert(final(users)@.remove(request.uid_key@) =~= old(users)@.remove(request.uid_key@));
}

/// Access that a command gives goes to its sender.
pub proof fn law_command_authorized(request: &CommandRequest, users: &mut UserTable, r: ())
    requires
        call_ensures(CommandRequest::authorize, (request, users), r),
    ensures
        ({
            let key = request.uid_key@;
            let before = old(users)@;
            let after = final(users)@;
            &&& after.dom() == before.dom()
            &&& after.remove(key) == before.remove(key)
            &&& before.contains_key(key) ==> after[key].is_authorized && after[key].last_use
                == before[key].last_use && after[key].download_count == before[key].download_count
        }),
{
    law_access_is_entered(old(users)@, request.uid_key@);
    assert(final(users)@.remove(request.uid_key@) =~= old(users)@.remove(request.uid_key@));
}

/// A text's link is entered at the end of its sender's list.
pub proof fn law_text_logged(request: &UrlRequest, logs: &mut LogTable, now: UtcTime, r: ())
    requires
        call_ensures(UrlRequest::log, (request, logs, now), r),
    ensures
        ({
            let key = request.uid_key@;
            let before = old(logs)@;
            let after = final(logs)@;
            &&& after.contains_key(key) && after[key].len() > 0
            &&& after[key].last().url == request.url@
            &&& after[key].last().timestamp == rfc3339_text(now.secs as int, now.nanos as int)
            &&& before.contains_key(key) ==> after[key].drop_last() == before[key]
            &&& !before.contains_key(key) ==> after[key].len() == 1
            &&& after.remove(key) == before.remove(key)
        }),
{
    law_download_is_logged(old(logs)@, request.uid_key@, request.url@, now.spec_rfc3339());
    assert(final(logs)@.remove(request.uid_key@) =~= old(logs)@.remove(request.uid_key@));
}

/// A text's download adds one to its sender's count.
pub proof fn law_text_counted(request: &UrlRequest, users: &mut UserTable, now: UtcTime, r: ())
    requires
        call_ensures(UrlRequest::count, (request, users, now), r),
        old(users)@.contains_key(request.uid_key@)
            ==> old(users)@[request.uid_key@].download_count < 0xffff_ffff,
    ensures
        ({
            let key = request.uid_key@;
            let before = old(users)@;
            let after = final(users)@;
            &&& after.dom() == before.dom()
            &&& after.remove(key) == before.remove(key)
            &&& before.contains_key(key) ==> after[key].download_count == before[key].download_count
                + 1 && after[key].last_use == rfc3339_text(now.secs as int, now.nanos as int)
                && after[key].is_authorized == before[key].is_authorized
        }),
{
    law_download_is_counted(old(users)@, request.uid_key@, now.spec_rfc3339());
    assert(final(users)@.remove(request.uid_key@) =~= old(users)@.remove(request.uid_key@));
}

/// Times are written to the nanosecond, and stamped as a date and a time of day.
pub proof fn law_times(t: &UtcTime, written: String, stamp: String, now: UtcTime)
    requires
        call_ensures(UtcTime::rfc3339, (t,), written),
        call_ensures(UtcTime::stamp, (t,), stamp),
        call_ensures(UtcTime::now, (), now),
    ensures
        written@ == rfc3339_text(t.secs as int, t.nanos as int),
        stamp@ == formatted_text(t.secs as int, t.nanos as int, "%Y%m%d_%H%M%S"@),
        0 <= now.secs <= 8_210_266_876_799,
        now.nanos < 1_000_000_000,
{
}

/// The handlers begin and go on as the runs of the laws do, and an answer is
/// accepted exactly where it is of the kind that the action asks for.
pub proof fn law_handlers_run(
    url: &UrlRequest,
    url_step: UrlStep,
    url_turn: (UrlStep, Action),
    url_begun: (UrlStep, Action),
    command: &CommandRequest,
    command_step: CommandStep,
    command_turn: (CommandStep, Action),
    command_begun: (CommandStep, Action),
    event: Event,
    action: &Action,
    wait: Wait,
    accepted: bool,
)
    requires
        call_ensures(begin_url_message, (), url_begun),
        call_ensures(handle_url_message, (url, url_step, event), url_turn),
        call_ensures(begin_command, (), command_begun),
        call_ensures(handle_command, (command, command_step, event), command_turn),
        call_ensures(Action::answer, (action,), wait),
        call_ensures(Wait::accepts, (&wait, &event), accepted),
    ensures
        url_begun == url_begins(),
        url_turn == url_next(*url, url_step, event),
        command_begun == command_begins(),
        command_turn == command_next(*command, command_step, event),
        accepted == action.awaits().admits(event),
{
}

/// A table made of a list has the keys of the list and no others, and for each
/// the value that came last; what is looked up in it is that value.
pub proof fn law_table<V: DeepView>(
    list: Vec<(String, V)>,
    table: Table<V>,
    i: int,
    key: &str,
    found: Option<&V>,
)
    requires
        call_ensures(Table::<V>::from_entries, (list,), table),
        call_ensures(Table::<V>::get, (&table, key), found),
        0 <= i < list@.len(),
        forall|j: int| i < j < list@.len() ==> (#[trigger] list@[j]).0@ != list@[i].0@,
    ensures
        table.wf(),
        key@ == list@[i].0@ ==> (found matches Some(value) && value.deep_view()
            == list@[i].1.deep_view()),
        found is Some ==> exists|j: int|
            0 <= j < list@.len() && (#[trigger] list@[j]).0@ == key@,
{
    law_last_entry_stays(list@, i, key@);
}

/// What is entered in a table is found there, and nothing else changes.
pub proof fn law_table_insert<V: DeepView>(
    table: &mut Table<V>,
    key: String,
    value: V,
    empty: Table<V>,
    other: Seq<char>,
    r: (),
)
    requires
        call_ensures(Table::<V>::insert, (table, key, value), r),
        call_ensures(Table::<V>::new, (), empty),
    ensures
        final(table)@.contains_key(key@),
        final(table)@[key@] == value.deep_view(),
        other != key@ ==> final(table)@.contains_key(other) == old(table)@.contains_key(other),
        other != key@ && old(table)@.contains_key(other) ==> final(table)@[other]
            == old(table)@[other],
        !empty@.contains_key(other),
{
}

/// The call of the encoder for a text reads the raw file of its download and
/// writes the compressed one, and differs from other calls in nothing else.
pub proof fn law_request_encodes(
    request: &UrlRequest,
    started: UtcTime,
    raw: String,
    small: String,
    input: &str,
    output: &str,
    args: Vec<String>,
    r: Vec<String>,
)
    requires
        call_ensures(UrlRequest::path_of, (request, MediaFile { media: Media::Raw, started }), raw),
        call_ensures(
            UrlRequest::path_of,
            (request, MediaFile { media: Media::Compressed, started }),
            small,
        ),
        call_ensures(encoder_args, (input, output), args),
        call_ensures(UrlRequest::encoder_call, (request, started), r),
        input@ == raw@,
        output@ == small@,
    ensures
        r.deep_view() == args.deep_view(),
{
}

/// Whether a text's download can be counted goes by the count of its sender.
pub proof fn law_request_can_count(request: &UrlRequest, users: &UserTable, r: bool)
    requires
        call_ensures(UrlRequest::can_count, (request, users), r),
    ensures
        r <==> !users@.contains_key(request.uid_key@)
            || users@[request.uid_key@].download_count + 1 <= 0xffff_ffff,
{
}

/// What the bot says where nothing depends on the case.
pub proof fn law_fixed_messages(message: Message, error: BotError, r: String, e: String)
    requires
        call_ensures(Message::text, (&message,), r),
        call_ensures(BotError::text, (&error,), e),
    ensures
        message is LoginAccepted ==> r@
            == "🔐 <b>Auth Başarılı.</b>\nSistem erişimi onaylandı."@,
        message is LoginRejected ==> r@ == "❌ <b>Hata:</b> Kimlik doğrulama reddedildi."@,
        message is AccessDenied ==> r@
            == "⛔ <b>Erişim Reddedildi.</b>\nYetkilendirme gereklidir: <code>/login <şifre></code>"@,
        message is UnsupportedLink ==> r@
            == "⚠️ <b>Geçersiz Protokol.</b>\nYalnızca X ve YouTube desteklenmektedir."@,
        message is Starting ==> r@ == "⏳ <b>Başlatılıyor...</b>\nMeta veriler ayrıştırılıyor."@,
        message is Compressing ==> r@
            == "⚙️ <b>Sıkıştırılıyor...</b>\nBoyut sınırı aşıldı, ffmpeg ile işleniyor."@,
        message is Uploading ==> r@
            == "🚀 <b>Yükleniyor...</b>\nTelegram sunucularına aktarılıyor."@,
        message is Help ==> r@
            == "<b>Docs:</b>\nX (Twitter) veya YouTube linki gönderin. Sistem videoyu işleyip arşivleyecektir."@,
        error is MissingUser ==> e@ == "Missing user context"@,
        error is DownloaderMissing ==> e@ == "yt-dlp ikili dosyası başlatılamadı"@,
        error is MediaMissing ==> e@ == "I/O hatası: İndirilen medya diske yazılamadı."@,
        error is EncoderFailed ==> e@ == "FFmpeg kodlama katmanı başarısız oldu."@,
        error is UploadFailed ==> e@ == "Telegram API üzerinden yükleme esnasında hata"@,
{
}

} // verus!
