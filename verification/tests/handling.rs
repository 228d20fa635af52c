use vidarchive::clock::UtcTime;
use vidarchive::handlers::{
    begin_command, begin_url_message, handle_command, handle_url_message, receive_command,
    receive_text, CommandRequest, CommandStep, SystemCommand, UrlRequest, UrlStep,
};
use vidarchive::media::Media;
use vidarchive::messages::{BotError, Message};
use vidarchive::protocol::{atomic_write, Action, Event, Flow, SaveStep};
use vidarchive::state::{authorize_user, track_and_check_auth, LogTable, User, UserTable};
use vidarchive::storage::Document;

const NOW: UtcTime = UtcTime { secs: 1_000_000_000, nanos: 0 };
const START: UtcTime = UtcTime { secs: 1_000_000_005, nanos: 0 };
const END: UtcTime = UtcTime { secs: 1_000_000_065, nanos: 0 };
const LIMIT: u64 = 1000;
const SECOND: u128 = 1_000_000_000;

fn alice() -> User {
    User { id: 42, username: None, first_name: "Alice".to_string(), language_code: None }
}

fn link(text: &str) -> UrlRequest {
    receive_text(Some(text), Some(alice()), None, LIMIT).ok().unwrap().unwrap()
}

fn command(command: SystemCommand) -> CommandRequest {
    receive_command(Some(alice()), command, "secret".to_string()).ok().unwrap()
}

fn text(s: &str) -> Event {
    Event::Text(s.to_string())
}

fn failed(s: &str) -> Event {
    Event::Failed(s.to_string())
}

/// An action in short.
fn name(action: &Action) -> String {
    let document = |d: &Document| match d {
        Document::Users => "users",
        Document::Logs => "logs",
    };
    let media = |m: &Media| match m {
        Media::Raw => "raw",
        Media::Compressed => "compressed",
    };
    match action {
        Action::ReadClock => "clock".to_string(),
        Action::NoteUser(t) => format!("note {}", t.secs),
        Action::Authorize => "authorize".to_string(),
        Action::AppendLog(t) => format!("log {}", t.secs),
        Action::CountDownload(t) => format!("count {}", t.secs),
        Action::Lock(d) => format!("lock {}", document(d)),
        Action::Unlock(d) => format!("unlock {}", document(d)),
        Action::Render(d) => format!("render {}", document(d)),
        Action::WriteAside(d, data) => format!("write {} {}", document(d), data),
        Action::Publish(d) => format!("publish {}", document(d)),
        Action::Reply(m) => format!("reply {}", m.text()),
        Action::OpenNotice(m) => format!("open {}", m.text()),
        Action::EditNotice(m) => format!("edit {}", m.text()),
        Action::CloseNotice => "close".to_string(),
        Action::StartDownload(t) => format!("download {}", t.secs),
        Action::ReadLine => "line".to_string(),
        Action::AwaitDownload => "await".to_string(),
        Action::ReadErrors => "errors".to_string(),
        Action::Probe(f) => format!("probe {} {}", media(&f.media), f.started.secs),
        Action::Measure(f) => format!("measure {} {}", media(&f.media), f.started.secs),
        Action::Encode(t) => format!("encode {}", t.secs),
        Action::Remove(f) => format!("remove {}", media(&f.media)),
        Action::Upload(f) => format!("upload {}", media(&f.media)),
        Action::Finish(Ok(())) => "ok".to_string(),
        Action::Finish(Err(e)) => format!("error {}", e.text()),
    }
}

/// The actions of handling a text when the world answers so.
fn run_url(request: &UrlRequest, events: Vec<Event>) -> Vec<String> {
    let (mut step, mut action) = begin_url_message();
    let mut names = vec![name(&action)];
    for event in events {
        assert!(action.answer().accepts(&event), "{}", names.join(", "));
        let next = handle_url_message(request, step, event);
        step = next.0;
        action = next.1;
        names.push(name(&action));
    }
    assert_eq!(matches!(step, UrlStep::Over), matches!(action, Action::Finish(_)));
    names
}

/// The actions of handling a command when the world answers so.
fn run_command(request: &CommandRequest, events: Vec<Event>) -> Vec<String> {
    let (mut step, mut action) = begin_command();
    let mut names = vec![name(&action)];
    for event in events {
        assert!(action.answer().accepts(&event), "{}", names.join(", "));
        let next = handle_command(request, step, event);
        step = next.0;
        action = next.1;
        names.push(name(&action));
    }
    assert_eq!(matches!(step, CommandStep::Over), matches!(action, Action::Finish(_)));
    names
}

/// The answers of a save in which all goes well.
fn saving(data: &str) -> Vec<Event> {
    vec![Event::Done, text(data), Event::Done, Event::Done, Event::Done]
}

fn noting(may_use: bool) -> Vec<Event> {
    let mut events = vec![Event::Clock(NOW), Event::Noted(may_use)];
    events.extend(saving("{}"));
    events
}

/// The answers up to the reading of output.
fn reading() -> Vec<Event> {
    let mut events = noting(true);
    events.extend([Event::Done, Event::Clock(START), Event::Done]);
    events
}

/// The answers up to the measuring of the raw file.
fn measuring() -> Vec<Event> {
    let mut events = reading();
    events.extend([Event::EndOfOutput, Event::Exited(true), Event::Present(true)]);
    events
}

fn last(names: Vec<String>) -> String {
    names.last().unwrap().clone()
}

#[test]
fn texts_are_trimmed_and_keyed() {
    let r = receive_text(Some("  https://x.com/1 \n"), Some(alice()), Some("c".to_string()), 7);
    let r = r.ok().unwrap().unwrap();
    assert_eq!(r.url, "https://x.com/1");
    assert_eq!(r.uid_key, "42");
    assert_eq!(r.cookies, Some("c".to_string()));
    assert_eq!(r.limit, 7);
    assert_eq!(r.user.first_name, "Alice");
}

#[test]
fn messages_without_text_are_passed_over() {
    assert!(matches!(receive_text(None, None, None, 0), Ok(None)));
    assert!(matches!(receive_text(None, Some(alice()), None, 0), Ok(None)));
}

#[test]
fn messages_need_a_sender() {
    assert!(matches!(receive_text(Some("x"), None, None, 0), Err(BotError::MissingUser)));
    let r = receive_command(None, SystemCommand::Help, String::new());
    assert!(matches!(r, Err(BotError::MissingUser)));
}

#[test]
fn start_is_answered_with_a_greeting() {
    let mut events = noting(false);
    events.push(Event::Done);
    assert_eq!(
        run_command(&command(SystemCommand::Start), events),
        vec![
            "clock",
            "note 1000000000",
            "lock users",
            "render users",
            "write users {}",
            "publish users",
            "unlock users",
            "reply <b>Sistem Aktif</b> 🟢\nHoş geldiniz, <code>Alice</code>.",
            "ok",
        ]
    );
}

#[test]
fn help_is_answered() {
    let names = run_command(&command(SystemCommand::Help), noting(true));
    assert_eq!(last(names), format!("reply {}", Message::Help.text()));
}

#[test]
fn the_right_password_gives_access() {
    let mut events = noting(false);
    events.push(Event::Done);
    events.extend(saving("[]"));
    events.push(Event::Done);
    let names = run_command(&command(SystemCommand::Login("secret".to_string())), events);
    assert_eq!(
        names[7..],
        [
            "authorize".to_string(),
            "lock users".to_string(),
            "render users".to_string(),
            "write users []".to_string(),
            "publish users".to_string(),
            "unlock users".to_string(),
            format!("reply {}", Message::LoginAccepted.text()),
            "ok".to_string(),
        ]
    );
}

#[test]
fn a_wrong_password_is_rejected() {
    for attempt in ["", "Secret", "secret ", "secre"].iter() {
        let names = run_command(&command(SystemCommand::Login(attempt.to_string())), noting(false));
        assert_eq!(last(names), format!("reply {}", Message::LoginRejected.text()));
    }
}

#[test]
fn what_cannot_be_saved_or_sent_ends_a_command() {
    let c = command(SystemCommand::Login("secret".to_string()));
    let disk = || failed("disk full");
    let events = vec![Event::Clock(NOW), Event::Noted(true), Event::Done, disk(), Event::Done];
    let names = run_command(&c, events);
    assert_eq!(names[3..], ["render users", "unlock users", "error disk full"]);
    let mut events = noting(true);
    events.extend([Event::Done, Event::Done, text("x"), disk(), Event::Done]);
    let names = run_command(&c, events);
    assert_eq!(names[10..], ["write users x", "unlock users", "error disk full"]);
    let mut events = noting(true);
    events.extend([Event::Done, Event::Done, text("x"), Event::Done, disk(), Event::Done]);
    let names = run_command(&c, events);
    assert_eq!(names[11..], ["publish users", "unlock users", "error disk full"]);
    let mut events = noting(true);
    events.push(failed("offline"));
    assert_eq!(last(run_command(&command(SystemCommand::Start), events)), "error offline");
}

#[test]
fn without_access_nothing_is_downloaded() {
    let mut events = noting(false);
    events.push(Event::Done);
    let names = run_url(&link("https://x.com/1"), events);
    assert_eq!(names[7..], [format!("reply {}", Message::AccessDenied.text()), "ok".to_string()]);
}

#[test]
fn unsupported_links_are_refused() {
    let mut events = noting(true);
    events.push(Event::Done);
    let names = run_url(&link("https://vimeo.com/1"), events);
    assert_eq!(names[7..], [format!("reply {}", Message::UnsupportedLink.text()), "ok".to_string()]);
}

#[test]
fn without_access_an_unsupported_link_is_denied_first() {
    let names = run_url(&link("hello"), noting(false));
    assert_eq!(last(names), format!("reply {}", Message::AccessDenied.text()));
}

#[test]
fn a_small_video_is_archived_as_it_is() {
    let mut events = measuring();
    events.extend([Event::Size(LIMIT), Event::Done, Event::Done, Event::Done]);
    events.extend([Event::Clock(END), Event::Done]);
    events.extend(saving("L"));
    events.push(Event::Done);
    events.extend(saving("U"));
    let names = run_url(&link("https://x.com/1"), events);
    let expected: Vec<String> = [
        format!("open {}", Message::Starting.text()).as_str(),
        "clock",
        "download 1000000005",
        "line",
        "await",
        "probe raw 1000000005",
        "measure raw 1000000005",
        format!("edit {}", Message::Uploading.text()).as_str(),
        "upload raw",
        "close",
        "clock",
        "log 1000000065",
        "lock logs",
        "render logs",
        "write logs L",
        "publish logs",
        "unlock logs",
        "count 1000000065",
        "lock users",
        "render users",
        "write users U",
        "publish users",
        "unlock users",
        "ok",
    ]
    .iter()
    .map(|s| s.to_string())
    .collect();
    assert_eq!(names[7..], expected[..]);
}

#[test]
fn a_large_video_is_compressed_to_fit() {
    let mut events = measuring();
    events.extend([Event::Size(LIMIT + 1), Event::Done, Event::Exited(true), Event::Size(LIMIT)]);
    events.extend([Event::Done, Event::Done, Event::Done]);
    let names = run_url(&link("https://x.com/1"), events);
    let expected: Vec<String> = [
        format!("edit {}", Message::Compressing.text()).as_str(),
        "encode 1000000005",
        "measure compressed 1000000005",
        "remove raw",
        format!("edit {}", Message::Uploading.text()).as_str(),
        "upload compressed",
        "close",
    ]
    .iter()
    .map(|s| s.to_string())
    .collect();
    assert_eq!(names[14..], expected[..]);
}

#[test]
fn a_video_that_stays_too_large_is_discarded() {
    let mut events = measuring();
    events.extend([Event::Size(62_914_560), Event::Done, Event::Exited(true), Event::Size(62_914_560)]);
    events.extend([Event::Done, Event::Done, Event::Done]);
    let names = run_url(&link("https://x.com/1"), events);
    assert_eq!(names[16], "measure compressed 1000000005");
    assert_eq!(names[17], "remove compressed");
    assert_eq!(names[18], "close");
    assert_eq!(
        names[19],
        "reply ❌ <b>İşlem Hatası:</b>\n<code>Sıkıştırma işlemine rağmen dosya boyutu çok büyük: 60.00 MB</code>"
    );
    assert_eq!(names[20], "ok");
}

/// The reply to a download that fails with these last answers.
fn complaint(mut events: Vec<Event>, more: Vec<Event>) -> String {
    events.extend(more);
    events.push(Event::Done);
    let names = run_url(&link("https://x.com/1"), events);
    assert_eq!(names[names.len() - 2], "close");
    last(names).replace("reply ❌ <b>İşlem Hatası:</b>\n<code>", "").replace("</code>", "")
}

#[test]
fn every_failure_of_a_download_is_told() {
    let mut starting = noting(true);
    starting.extend([Event::Done, Event::Clock(START)]);
    assert_eq!(complaint(starting, vec![failed("no such file")]), BotError::DownloaderMissing.text());
    assert_eq!(complaint(reading(), vec![failed("broken pipe")]), "broken pipe");
    assert_eq!(complaint(reading(), vec![Event::EndOfOutput, failed("lost")]), "lost");
    assert_eq!(
        complaint(reading(), vec![Event::EndOfOutput, Event::Exited(false), text("ERROR: gone")]),
        "yt-dlp işlemi çöktü: ERROR: gone"
    );
    assert_eq!(
        complaint(reading(), vec![Event::EndOfOutput, Event::Exited(true), Event::Present(false)]),
        BotError::MediaMissing.text()
    );
    assert_eq!(complaint(measuring(), vec![failed("stat")]), "stat");
    let large = || vec![Event::Size(LIMIT + 1), Event::Done];
    let mut e = large();
    e.push(Event::Exited(false));
    assert_eq!(complaint(measuring(), e), BotError::EncoderFailed.text());
    let mut e = large();
    e.push(failed("no ffmpeg"));
    assert_eq!(complaint(measuring(), e), "no ffmpeg");
    let mut e = large();
    e.extend([Event::Exited(true), failed("stat")]);
    assert_eq!(complaint(measuring(), e), "stat");
    let sent = || vec![Event::Size(1), Event::Done];
    let mut e = sent();
    e.push(failed("too slow"));
    assert_eq!(complaint(measuring(), e), BotError::UploadFailed.text());
    let mut e = sent();
    e.extend([Event::Done, Event::Done, Event::Clock(END), Event::Done]);
    e.extend([Event::Done, text("L"), failed("disk full"), Event::Done]);
    assert_eq!(complaint(measuring(), e), "disk full");
    let mut e = sent();
    e.extend([Event::Done, Event::Done, Event::Clock(END), Event::Done]);
    e.extend(saving("L"));
    e.extend([Event::Done, Event::Done, failed("not text"), Event::Done]);
    assert_eq!(complaint(measuring(), e), "not text");
}

#[test]
fn what_cannot_be_saved_or_sent_ends_a_text() {
    let r = link("https://x.com/1");
    let mut events = vec![Event::Clock(NOW), Event::Noted(true), Event::Done, text("{}")];
    events.extend([failed("disk full"), Event::Done]);
    assert_eq!(last(run_url(&r, events)), "error disk full");
    let mut events = noting(true);
    events.push(failed("offline"));
    assert_eq!(last(run_url(&r, events)), "error offline");
    let mut events = noting(false);
    events.push(failed("offline"));
    assert_eq!(last(run_url(&r, events)), "error offline");
}

#[test]
fn progress_is_shown_when_due() {
    let mut events = reading();
    events.extend([
        Event::line("[youtube] 1: Downloading webpage", 0),
        Event::line("[download]   0.0% of 1.00MiB", SECOND),
        Event::Done,
        Event::line("[download]  25.0% of 1.00MiB", 3 * SECOND),
        Event::line("[download]   0.0% of 1.00MiB", 4 * SECOND),
        Event::line("[download]  50.0% of 1.00MiB", 3 * SECOND + 1),
        Event::Done,
        Event::line("[download]  99.9% of 1.00MiB", 5 * SECOND),
        Event::EndOfOutput,
    ]);
    let names = run_url(&link("https://x.com/1"), events);
    let expected: Vec<String> = [
        "line",
        "line",
        "edit 📥 <b>İndiriliyor...</b>\n<code>░░░░░░░░░░░░</code> 0.0%",
        "line",
        "line",
        "line",
        "edit 📥 <b>İndiriliyor...</b>\n<code>██████░░░░░░</code> 50.0%",
        "line",
        "line",
        "await",
    ]
    .iter()
    .map(|s| s.to_string())
    .collect();
    assert_eq!(names[10..], expected[..]);
}

#[test]
fn answers_of_another_kind_are_not_accepted() {
    let (_, action) = begin_url_message();
    let wait = action.answer();
    assert!(wait.accepts(&Event::Clock(NOW)));
    assert!(!wait.accepts(&Event::Clock(UtcTime { secs: -1, nanos: 0 })));
    assert!(!wait.accepts(&Event::Clock(UtcTime { secs: 0, nanos: 1_000_000_000 })));
    assert!(!wait.accepts(&Event::Done));
    assert!(!Action::Finish(Ok(())).answer().accepts(&Event::Done));
    assert!(!Action::ReadErrors.answer().accepts(&failed("x")));
    assert!(Action::ReadLine.answer().accepts(&Event::EndOfOutput));
}

#[test]
fn handling_ends_within_its_bounds() {
    let mut events = measuring();
    events.extend([Event::Size(LIMIT + 1), Event::Done, Event::Exited(true), Event::Size(1), Event::Done]);
    events.extend([Event::Done, Event::Done, Event::Done, Event::Clock(END), Event::Done]);
    events.extend(saving("L"));
    events.extend([Event::Done, Event::Done, text("U"), Event::Done]);
    events.extend([failed("disk full"), Event::Done, Event::Done, Event::Done]);
    assert!(events.len() <= 38);
    assert_eq!(last(run_url(&link("https://youtu.be/1"), events)), "ok");
    let mut events = noting(false);
    events.push(Event::Done);
    events.extend(saving("x"));
    events.push(Event::Done);
    assert_eq!(events.len(), 14);
    let login = command(SystemCommand::Login("secret".to_string()));
    assert_eq!(last(run_command(&login, events)), "ok");
}

/// What the world holds when saves of the users are run by hand.
struct Disk {
    holder: Option<usize>,
    aside: Option<String>,
    users: String,
}

/// Answers the action that a save asks for, unless it has to wait for the lock.
fn serve(disk: &mut Disk, saver: usize, data: &str, action: &Action) -> Option<Event> {
    match action {
        Action::Lock(_) => {
            if disk.holder.is_some() {
                return None;
            }
            disk.holder = Some(saver);
            Some(Event::Done)
        }
        Action::Render(_) => Some(text(data)),
        Action::WriteAside(_, data) => {
            disk.aside = Some(data.clone());
            Some(Event::Done)
        }
        Action::Publish(_) => match disk.aside.take() {
            Some(data) => {
                disk.users = data;
                Some(Event::Done)
            }
            None => Some(failed("no such file")),
        },
        Action::Unlock(_) => {
            disk.holder = None;
            Some(Event::Done)
        }
        _ => panic!("no action of a save"),
    }
}

/// Runs two saves side by side; the bits of `order` say whose turn it is.
fn race(order: u32) -> (Vec<String>, [bool; 2]) {
    let texts = ["a", "b"];
    let mut disk = Disk { holder: None, aside: None, users: "old".to_string() };
    let start = || Some((SaveStep::Locking, Action::Lock(Document::Users)));
    let mut places = [start(), start()];
    let mut saved = [false, false];
    let mut seen = vec![];
    for turn in 0..40 {
        let i = if turn < 20 { (order >> turn & 1) as usize } else { turn % 2 };
        if let Some((step, action)) = places[i].take() {
            match serve(&mut disk, i, texts[i], &action) {
                None => places[i] = Some((step, action)),
                Some(event) => match atomic_write(Document::Users, step, event) {
                    Flow::Next(step, action) => places[i] = Some((step, action)),
                    Flow::Done(()) => saved[i] = true,
                    Flow::Lost(_) => {}
                },
            }
        }
        seen.push(disk.users.clone());
    }
    (seen, saved)
}

#[test]
fn saves_side_by_side_do_no_harm() {
    for order in (0..1 << 20).step_by(7) {
        let (seen, saved) = race(order);
        assert_eq!(saved, [true, true]);
        assert!(seen.iter().all(|users| users == "old" || users == "a" || users == "b"));
        assert_ne!(seen.last().unwrap(), "old");
    }
}

#[test]
fn one_upload_and_one_encoding_at_most() {
    for size in [0, LIMIT, LIMIT + 1].iter() {
        let mut events = measuring();
        events.push(Event::Size(*size));
        if *size > LIMIT {
            events.extend([Event::Done, Event::Exited(true), Event::Size(LIMIT), Event::Done]);
        }
        events.extend([Event::Done, Event::Done, Event::Done, Event::Clock(END), Event::Done]);
        events.extend(saving("L"));
        events.push(Event::Done);
        events.extend(saving("U"));
        let names = run_url(&link("https://x.com/1"), events);
        assert_eq!(last(names.clone()), "ok");
        let count = |what: &str| names.iter().filter(|name| name.starts_with(what)).count();
        assert_eq!(count("upload "), 1);
        assert_eq!(count("encode "), if *size > LIMIT { 1 } else { 0 });
        assert_eq!(count("upload compressed"), if *size > LIMIT { 1 } else { 0 });
    }
}

#[test]
fn only_the_right_password_changes_access() {
    let tries = [
        (SystemCommand::Start, false),
        (SystemCommand::Help, false),
        (SystemCommand::Login("wrong".to_string()), false),
        (SystemCommand::Login("secret".to_string()), true),
    ];
    for (what, granted) in tries {
        let request = command(what);
        let mut users = UserTable::new();
        let other = User { id: 7, ..alice() };
        track_and_check_auth(&mut users, &other, "7", NOW);
        let (mut step, mut action) = begin_command();
        let mut replies = 0;
        while !matches!(action, Action::Finish(_)) {
            let event = match action {
                Action::ReadClock => Event::Clock(NOW),
                Action::NoteUser(now) => Event::Noted(request.note(&mut users, now)),
                Action::Authorize => {
                    request.authorize(&mut users);
                    Event::Done
                }
                Action::Render(_) => text("{}"),
                Action::Reply(_) => {
                    replies += 1;
                    Event::Done
                }
                _ => Event::Done,
            };
            (step, action) = handle_command(&request, step, event);
        }
        assert_eq!(replies, 1);
        assert_eq!(users.entries().len(), 2);
        assert_eq!(users.get("42").unwrap().download_count, 0);
        assert_eq!(users.get("42").unwrap().is_authorized, granted);
        assert!(!users.get("7").unwrap().is_authorized);
    }
}

#[test]
fn a_sent_file_was_not_removed() {
    for size in [1, LIMIT, LIMIT + 1].iter() {
        let mut events = measuring();
        events.push(Event::Size(*size));
        if *size > LIMIT {
            events.extend([Event::Done, Event::Exited(true), Event::Size(LIMIT), Event::Done]);
        }
        events.push(Event::Done);
        let names = run_url(&link("https://x.com/1"), events);
        let sent = names.last().unwrap().replace("upload ", "");
        assert!(sent == "raw" || sent == "compressed");
        assert!(!names.contains(&format!("remove {}", sent)));
    }
}

#[test]
fn a_success_is_recorded_once() {
    let mut request = link("https://x.com/1");
    request.cookies = Some("cookies.txt".to_string());
    let mut users = UserTable::new();
    let mut logs = LogTable::new();
    request.note(&mut users, NOW);
    authorize_user(&mut users, "42");
    let mut times = vec![END, START, NOW];
    let (mut step, mut action) = begin_url_message();
    while !matches!(action, Action::Finish(_)) {
        let event = match action {
            Action::ReadClock => Event::Clock(times.pop().unwrap()),
            Action::NoteUser(now) => Event::Noted(request.note(&mut users, now)),
            Action::AppendLog(now) => {
                request.log(&mut logs, now);
                Event::Done
            }
            Action::CountDownload(now) => {
                assert!(request.can_count(&users));
                request.count(&mut users, now);
                Event::Done
            }
            Action::Render(_) => text("{}"),
            Action::StartDownload(started) => {
                let call = request.downloader_call(started);
                assert_eq!(call[..3], ["--cookies", "cookies.txt", "-o"]);
                assert_eq!(call[3], "downloads/42_20010909_014645_raw.mp4");
                assert_eq!(call[4..], ["--merge-output-format", "mp4", "--newline", "https://x.com/1"]);
                Event::Done
            }
            Action::ReadLine => Event::EndOfOutput,
            Action::AwaitDownload => Event::Exited(true),
            Action::Encode(started) => {
                let call = request.encoder_call(started);
                assert_eq!(call[1], "downloads/42_20010909_014645_raw.mp4");
                assert_eq!(call[19], "downloads/42_20010909_014645_final.mp4");
                Event::Exited(true)
            }
            Action::Probe(_) => Event::Present(true),
            Action::Measure(file) => match file.media {
                Media::Raw => Event::Size(LIMIT + 1),
                Media::Compressed => Event::Size(LIMIT),
            },
            Action::Upload(file) => {
                assert_eq!(request.path_of(file), "downloads/42_20010909_014645_final.mp4");
                assert!(request.caption_of(file).contains("<code>42_20010909_014645_final.mp4</code>"));
                assert!(logs.get("42").is_none());
                Event::Done
            }
            _ => Event::Done,
        };
        assert!(action.answer().accepts(&event));
        (step, action) = handle_url_message(&request, step, event);
    }
    assert!(matches!(action, Action::Finish(Ok(()))));
    let entries = logs.get("42").unwrap();
    assert_eq!(entries.len(), 1);
    assert_eq!(entries[0].url, "https://x.com/1");
    assert_eq!(entries[0].timestamp, END.rfc3339());
    let record = users.get("42").unwrap();
    assert_eq!(record.download_count, 1);
    assert_eq!(record.last_use, END.rfc3339());
    assert_eq!(users.entries().len(), 1);
}

#[test]
fn nothing_is_saved_before_the_video_is_sent() {
    let mut events = measuring();
    events.extend([Event::Size(LIMIT + 1), Event::Done, Event::Exited(true), Event::Size(LIMIT)]);
    events.extend([Event::Done, Event::Done]);
    let names = run_url(&link("https://x.com/1"), events);
    assert_eq!(last(names.clone()), "upload compressed");
    let saving = ["lock", "render", "write", "publish", "unlock", "close", "log", "count", "ok"];
    assert!(names[7..].iter().all(|name| !saving.iter().any(|what| name.starts_with(what))));
}

#[test]
fn the_first_percentage_is_shown_whenever_it_comes() {
    for at in [0, 1, SECOND, 100 * SECOND].iter() {
        let mut events = reading();
        events.push(Event::line("[download] Destination: downloads/x", 0));
        events.push(Event::line("[download]  12.5% of 1.00MiB", *at));
        let names = run_url(&link("https://x.com/1"), events);
        assert_eq!(
            last(names),
            format!("edit {}", Message::Downloading("12.5".to_string()).text())
        );
    }
}
