use vidarchive::clock::{UtcTime, LAST_SECOND, STAMP_FORMAT};
use vidarchive::config::{read_api_url, size_limit_bytes, ApiUrl, ConfigError, Settings};
use vidarchive::media::{
    downloader_args, encoder_args, file_name_of, name_of, path_of, tail_of, Media, MediaFile,
};
use vidarchive::messages::{caption, BotError, Message};
use vidarchive::pipeline::{downloader_call, encoder_call};
use vidarchive::size::megabytes_text;
use vidarchive::state::{
    authorize_user, can_count, count_download, log_download, track_and_check_auth, LogTable, User,
    UserRecord, UserTable,
};
use vidarchive::storage::{temporary_path, Document};
use vidarchive::table::Table;

const NOON: UtcTime = UtcTime { secs: 1_000_000_000, nanos: 0 };
const LATER: UtcTime = UtcTime { secs: 1_000_000_061, nanos: 120_000_000 };

fn alice() -> User {
    User {
        id: 42,
        username: Some("alice".to_string()),
        first_name: "Alice".to_string(),
        language_code: None,
    }
}

#[test]
fn times_are_written_as_rfc_3339() {
    assert_eq!(NOON.rfc3339(), "2001-09-09T01:46:40+00:00");
    assert_eq!(LATER.rfc3339(), "2001-09-09T01:47:41.120+00:00");
    assert_eq!(UtcTime { secs: 0, nanos: 1 }.rfc3339(), "1970-01-01T00:00:00.000000001+00:00");
}

#[test]
fn times_are_stamped_into_file_names() {
    assert_eq!(NOON.stamp(), "20010909_014640");
    assert_eq!(LATER.stamp(), "20010909_014741");
    assert_eq!(UtcTime { secs: LAST_SECOND, nanos: 999_999_999 }.stamp(), "+2621421231_235959");
}

#[test]
fn stamps_are_made_of_plain_characters() {
    let mut secs = 0;
    while secs <= LAST_SECOND {
        let stamp = UtcTime { secs, nanos: 0 }.stamp();
        assert!(stamp.chars().all(|c| c.is_ascii_digit() || c == '_' || c == '+'));
        secs += 7_000_000_013;
    }
}

#[test]
fn the_calendar_ends_where_it_is_said_to_end() {
    assert_eq!(chrono::DateTime::<chrono::Utc>::MAX_UTC.timestamp(), LAST_SECOND);
    assert!(chrono::DateTime::from_timestamp(LAST_SECOND, 999_999_999).is_some());
    assert!(chrono::DateTime::from_timestamp(LAST_SECOND + 1, 0).is_none());
}

#[test]
fn the_clock_reads_a_time_of_the_calendar() {
    let before = chrono::Utc::now();
    let now = UtcTime::now();
    let after = chrono::Utc::now();
    assert!(before.timestamp() <= now.secs && now.secs <= after.timestamp());
    assert!(now.secs <= LAST_SECOND && now.nanos < 1_000_000_000);
    let same = chrono::DateTime::from_timestamp(now.secs, now.nanos).unwrap();
    assert_eq!(now.rfc3339(), same.to_rfc3339());
    assert_eq!(now.stamp(), same.format(STAMP_FORMAT).to_string());
}

#[test]
fn tables_keep_one_value_for_a_key() {
    let mut t: Table<u64> = Table::new();
    assert!(t.get("a").is_none());
    t.insert("a".to_string(), 1);
    t.insert("b".to_string(), 2);
    t.insert("a".to_string(), 3);
    assert_eq!(t.get("a"), Some(&3));
    assert_eq!(t.get("b"), Some(&2));
    assert_eq!(t.entries().len(), 2);
    if let Some(v) = t.get_mut("b") {
        *v += 5;
    }
    assert!(t.get_mut("c").is_none());
    assert_eq!(t.get("b"), Some(&7));
}

#[test]
fn of_two_entries_for_a_key_the_later_stays() {
    let t = Table::from_entries(vec![("a".to_string(), 1u64), ("b".to_string(), 2), ("a".to_string(), 3)]);
    assert_eq!(t.entries().len(), 2);
    assert_eq!(t.get("a"), Some(&3));
    assert_eq!(t.get("b"), Some(&2));
}

#[test]
fn newcomers_are_noted_without_access() {
    let mut users: UserTable = Table::new();
    assert!(!track_and_check_auth(&mut users, &alice(), "42", NOON));
    let r = users.get("42").unwrap();
    assert_eq!(r.id, 42);
    assert_eq!(r.username, Some("alice".to_string()));
    assert_eq!(r.first_name, "Alice");
    assert_eq!(r.language_code, None);
    assert_eq!(r.first_use, "2001-09-09T01:46:40+00:00");
    assert_eq!(r.last_use, "2001-09-09T01:46:40+00:00");
    assert_eq!(r.download_count, 0);
    assert!(!r.is_authorized);
}

#[test]
fn known_users_keep_what_was_noted_first() {
    let mut users: UserTable = Table::new();
    track_and_check_auth(&mut users, &alice(), "42", NOON);
    let renamed = User { first_name: "Al".to_string(), ..alice() };
    assert!(!track_and_check_auth(&mut users, &renamed, "42", LATER));
    let r = users.get("42").unwrap();
    assert_eq!(r.first_name, "Alice");
    assert_eq!(r.first_use, NOON.rfc3339());
    assert_eq!(r.last_use, LATER.rfc3339());
}

#[test]
fn the_authorized_are_let_in_and_stay_in() {
    let mut users: UserTable = Table::new();
    track_and_check_auth(&mut users, &alice(), "42", NOON);
    track_and_check_auth(&mut users, &alice(), "43", NOON);
    authorize_user(&mut users, "42");
    assert!(track_and_check_auth(&mut users, &alice(), "42", LATER));
    assert!(track_and_check_auth(&mut users, &alice(), "42", LATER));
    assert!(!track_and_check_auth(&mut users, &alice(), "43", LATER));
}

#[test]
fn access_stays_until_it_is_given() {
    let mut users: UserTable = Table::new();
    for _ in 0..3 {
        assert!(!track_and_check_auth(&mut users, &alice(), "42", NOON));
        count_download(&mut users, "42", NOON);
        authorize_user(&mut users, "7");
    }
    authorize_user(&mut users, "42");
    for _ in 0..3 {
        assert!(track_and_check_auth(&mut users, &alice(), "42", LATER));
    }
}

#[test]
fn the_unknown_are_not_authorized() {
    let mut users: UserTable = Table::new();
    authorize_user(&mut users, "42");
    assert!(users.get("42").is_none());
    assert!(!track_and_check_auth(&mut users, &alice(), "42", NOON));
}

#[test]
fn downloads_are_logged_and_counted() {
    let mut users: UserTable = Table::new();
    let mut logs: LogTable = Table::new();
    track_and_check_auth(&mut users, &alice(), "42", NOON);
    log_download(&mut logs, "42", "https://x.com/1", NOON);
    count_download(&mut users, "42", NOON);
    log_download(&mut logs, "42", "https://x.com/2", LATER);
    count_download(&mut users, "42", LATER);
    log_download(&mut logs, "7", "https://x.com/3", LATER);
    count_download(&mut users, "7", LATER);
    let of_alice = logs.get("42").unwrap();
    assert_eq!(of_alice.len(), 2);
    assert_eq!(of_alice[0].url, "https://x.com/1");
    assert_eq!(of_alice[0].timestamp, NOON.rfc3339());
    assert_eq!(of_alice[1].url, "https://x.com/2");
    assert_eq!(of_alice[1].timestamp, LATER.rfc3339());
    let r = users.get("42").unwrap();
    assert_eq!(r.download_count as usize, of_alice.len());
    assert_eq!(r.last_use, LATER.rfc3339());
    assert_eq!(r.first_use, NOON.rfc3339());
    assert!(!r.is_authorized);
    assert_eq!(logs.get("7").unwrap().len(), 1);
    assert!(users.get("7").is_none());
}

#[test]
fn downloads_add_up() {
    let mut users: UserTable = Table::new();
    let mut logs: LogTable = Table::new();
    track_and_check_auth(&mut users, &alice(), "42", NOON);
    log_download(&mut logs, "42", "first", NOON);
    count_download(&mut users, "42", NOON);
    for n in 0..20 {
        let now = UtcTime { secs: LATER.secs + n, nanos: 0 };
        log_download(&mut logs, "42", &format!("u{}", n), now);
        count_download(&mut users, "42", now);
    }
    let urls: Vec<String> = logs.get("42").unwrap().iter().map(|d| d.url.clone()).collect();
    assert_eq!(urls.len(), 21);
    assert_eq!(urls[0], "first");
    assert!((0..20).all(|n| urls[n + 1] == format!("u{}", n)));
    let r = users.get("42").unwrap();
    assert_eq!(r.download_count, 21);
    assert_eq!(r.last_use, UtcTime { secs: LATER.secs + 19, nanos: 0 }.rfc3339());
}

#[test]
fn full_counts_are_found_out() {
    let full = UserRecord {
        id: 1,
        username: None,
        first_name: String::new(),
        language_code: None,
        first_use: String::new(),
        last_use: String::new(),
        download_count: u32::MAX,
        is_authorized: true,
    };
    let mut users: UserTable = Table::from_entries(vec![("1".to_string(), full)]);
    assert!(!can_count(&users, "1"));
    assert!(can_count(&users, "2"));
    assert!(track_and_check_auth(&mut users, &alice(), "1", NOON));
}

#[test]
fn documents_are_written_aside() {
    assert_eq!(Document::Users.path(), "users.json");
    assert_eq!(Document::Logs.path(), "download_log.json");
    assert_eq!(temporary_path(Document::Users.path()), "users.json.tmp");
    assert_eq!(temporary_path("a/b"), "a/b.tmp");
}

#[test]
fn documents_are_replaced_at_once() {
    let mut files: std::collections::HashMap<String, String> = std::collections::HashMap::new();
    for document in [Document::Users, Document::Logs].iter() {
        files.insert(document.path().to_string(), "before".to_string());
    }
    let path = Document::Users.path();
    let aside = temporary_path(path);
    files.insert(aside.clone(), "aft".to_string());
    assert_eq!(files[path], "before");
    files.insert(aside.clone(), "after".to_string());
    assert_eq!(files[path], "before");
    let data = files.remove(&aside).unwrap();
    files.insert(path.to_string(), data);
    assert_eq!(files[path], "after");
    assert_eq!(files[Document::Logs.path()], "before");
    assert_eq!(files.len(), 2);
}

#[test]
fn files_are_named_by_user_time_and_kind() {
    let raw = MediaFile { media: Media::Raw, started: NOON };
    let compressed = MediaFile { media: Media::Compressed, started: NOON };
    assert_eq!(name_of("42", raw), "42_20010909_014640_raw.mp4");
    assert_eq!(path_of("42", raw), "downloads/42_20010909_014640_raw.mp4");
    assert_eq!(path_of("42", compressed), "downloads/42_20010909_014640_final.mp4");
    let path = std::path::PathBuf::from("downloads").join("42_20010909_014640_raw.mp4");
    assert_eq!(path.to_string_lossy(), path_of("42", raw));
    assert_eq!(path.file_name().unwrap().to_string_lossy(), name_of("42", raw));
    assert_ne!(path_of("4", raw), path_of("42", raw));
    assert_eq!(
        caption("42", raw),
        "✅ <b>Arşivlendi:</b> <code>42_20010909_014640_raw.mp4</code>"
    );
}

#[test]
fn paths_and_captions_follow_the_key() {
    let raw = MediaFile { media: Media::Raw, started: NOON };
    for key in ["42", "", "/a", "a/b", "a/", "/", "//x", "../a", ".", "a b"].iter() {
        let name = format!("{}_20010909_014640_raw.mp4", key);
        let path = std::path::PathBuf::from("downloads").join(&name);
        assert_eq!(name_of(key, raw), name);
        assert_eq!(path_of(key, raw), path.to_string_lossy());
        let file_name = path.file_name().unwrap().to_string_lossy();
        assert_eq!(file_name_of(key, raw), file_name);
        assert_eq!(
            caption(key, raw),
            format!("✅ <b>Arşivlendi:</b> <code>{}</code>", file_name)
        );
    }
    assert_eq!(path_of("/a", raw), "/a_20010909_014640_raw.mp4");
    assert_eq!(caption("a/b", raw), "✅ <b>Arşivlendi:</b> <code>b_20010909_014640_raw.mp4</code>");
    assert_eq!(tail_of("a/b/c"), "c");
    assert_eq!(tail_of("a/b/"), "");
    assert_eq!(tail_of("şifre"), "şifre");
}

#[test]
fn the_downloader_is_called_with_its_arguments() {
    assert_eq!(
        downloader_args("u", "downloads/o", None),
        vec!["-o", "downloads/o", "--merge-output-format", "mp4", "--newline", "u"]
    );
    assert_eq!(
        downloader_args("u", "o", Some("cookies.txt")),
        vec!["--cookies", "cookies.txt", "-o", "o", "--merge-output-format", "mp4", "--newline", "u"]
    );
}

#[test]
fn the_encoder_is_called_with_its_arguments() {
    assert_eq!(
        encoder_args("in", "out").join(" "),
        "-i in -vf scale=-2:480 -c:v libx264 -preset fast -crf 28 -c:a aac -b:a 128k -movflags +faststart -threads 0 -y out"
    );
}

#[test]
fn the_tools_are_called_with_the_files_of_the_download() {
    let raw = "downloads/42_20010909_014640_raw.mp4";
    let compressed = "downloads/42_20010909_014640_final.mp4";
    assert_eq!(
        downloader_call("42", "https://x.com/1", Some("cookies.txt"), NOON),
        downloader_args("https://x.com/1", raw, Some("cookies.txt"))
    );
    assert_eq!(encoder_call("42", NOON), encoder_args(raw, compressed));
}

#[test]
fn sizes_are_written_as_doubles_are() {
    let mut sizes = vec![
        0u64, 1, 5242, 5243, 131_072, 393_216, 655_360, 1_048_575, 1_048_576, 52_428_800, 54_525_952,
        9_007_199_254_740_991, 9_007_199_254_740_992, 9_007_199_254_740_993, 9_007_199_254_740_995,
        u64::MAX, u64::MAX - 1023, u64::MAX - 1024, u64::MAX - 1025,
    ];
    let mut x = 88_172_645_463_325_252u64;
    for i in 0..20000u64 {
        x ^= x << 13;
        x ^= x >> 7;
        x ^= x << 17;
        sizes.push(x >> (i % 50));
    }
    for k in 0..4000u64 {
        sizes.push(k * 131_072);
        sizes.push((1 << 53) + k * 65_536 + 1);
        sizes.push((1 << 62) + k * 131_072 * 7 + 256);
    }
    for n in sizes {
        assert_eq!(megabytes_text(n), format!("{:.2}", n as f64 / 1_048_576.0), "{}", n);
    }
    assert_eq!(megabytes_text(131_072), "0.12");
    assert_eq!(megabytes_text(393_216), "0.38");
}

#[test]
fn errors_are_put_into_words() {
    let text = |e: BotError| e.text();
    assert_eq!(text(BotError::MissingUser), "Missing user context");
    assert_eq!(text(BotError::Failed("disk full".to_string())), "disk full");
    assert_eq!(text(BotError::DownloaderMissing), "yt-dlp ikili dosyası başlatılamadı");
    assert_eq!(
        text(BotError::DownloaderCrashed("ERROR: gone".to_string())),
        "yt-dlp işlemi çöktü: ERROR: gone"
    );
    assert_eq!(text(BotError::MediaMissing), "I/O hatası: İndirilen medya diske yazılamadı.");
    assert_eq!(text(BotError::EncoderFailed), "FFmpeg kodlama katmanı başarısız oldu.");
    assert_eq!(
        text(BotError::StillTooLarge(62_914_560)),
        "Sıkıştırma işlemine rağmen dosya boyutu çok büyük: 60.00 MB"
    );
    assert_eq!(text(BotError::UploadFailed), "Telegram API üzerinden yükleme esnasında hata");
}

#[test]
fn messages_are_put_into_words() {
    let text = |m: Message| m.text();
    assert_eq!(
        text(Message::Welcome("Alice".to_string())),
        "<b>Sistem Aktif</b> 🟢\nHoş geldiniz, <code>Alice</code>."
    );
    assert_eq!(
        text(Message::Help),
        "<b>Docs:</b>\nX (Twitter) veya YouTube linki gönderin. Sistem videoyu işleyip arşivleyecektir."
    );
    assert_eq!(text(Message::LoginAccepted), "🔐 <b>Auth Başarılı.</b>\nSistem erişimi onaylandı.");
    assert_eq!(text(Message::LoginRejected), "❌ <b>Hata:</b> Kimlik doğrulama reddedildi.");
    assert_eq!(
        text(Message::AccessDenied),
        "⛔ <b>Erişim Reddedildi.</b>\nYetkilendirme gereklidir: <code>/login <şifre></code>"
    );
    assert_eq!(
        text(Message::UnsupportedLink),
        "⚠️ <b>Geçersiz Protokol.</b>\nYalnızca X ve YouTube desteklenmektedir."
    );
    assert_eq!(text(Message::Starting), "⏳ <b>Başlatılıyor...</b>\nMeta veriler ayrıştırılıyor.");
    assert_eq!(
        text(Message::Downloading("45.3".to_string())),
        "📥 <b>İndiriliyor...</b>\n<code>█████░░░░░░░</code> 45.3%"
    );
    assert_eq!(
        text(Message::Downloading("٤٥.٣".to_string())),
        "📥 <b>İndiriliyor...</b>\n<code>░░░░░░░░░░░░</code> ٤٥.٣%"
    );
    assert_eq!(
        text(Message::Compressing),
        "⚙️ <b>Sıkıştırılıyor...</b>\nBoyut sınırı aşıldı, ffmpeg ile işleniyor."
    );
    assert_eq!(text(Message::Uploading), "🚀 <b>Yükleniyor...</b>\nTelegram sunucularına aktarılıyor.");
    assert_eq!(
        text(Message::PipelineFailed(BotError::EncoderFailed)),
        "❌ <b>İşlem Hatası:</b>\n<code>FFmpeg kodlama katmanı başarısız oldu.</code>"
    );
}

fn settings(token: Option<&str>, url: Option<&str>, mb: Option<&str>) -> Result<Settings, ConfigError> {
    Settings::read(
        token.map(|s| s.to_string()),
        None,
        read_api_url(url),
        mb.map(|s| s.to_string()),
        false,
    )
}

#[test]
fn settings_have_defaults() {
    let s = settings(Some("t"), None, None).ok().unwrap();
    assert_eq!(s.token, "t");
    assert_eq!(s.password, "admin123");
    assert_eq!(s.api_url, None);
    assert_eq!(s.limit_mb, 50);
    assert_eq!(s.cookies, None);
}

#[test]
fn settings_are_taken_from_the_environment() {
    let s = Settings::read(
        Some("t".to_string()),
        Some("secret".to_string()),
        read_api_url(Some("HTTP://LocalHost:8081")),
        Some("2000".to_string()),
        true,
    )
    .ok()
    .unwrap();
    assert_eq!(s.password, "secret");
    assert_eq!(s.api_url, Some("http://localhost:8081/".to_string()));
    assert_eq!(s.limit_mb, 2000);
    assert_eq!(s.cookies, Some("cookies.txt".to_string()));
    assert_eq!(size_limit_bytes(s.limit_mb), 2_097_152_000);
}

#[test]
fn limits_that_cannot_be_read_are_passed_over() {
    for raw in ["", "fifty", "-1", "1.5", "18446744073709551616"].iter() {
        assert_eq!(settings(Some("t"), None, Some(raw)).ok().unwrap().limit_mb, 50);
    }
    assert_eq!(settings(Some("t"), None, Some("+7")).ok().unwrap().limit_mb, 7);
}

#[test]
fn a_token_is_needed() {
    let e = settings(None, Some("no url"), None).err().unwrap();
    assert!(matches!(e, ConfigError::MissingToken));
    assert_eq!(e.text(), "TELEGRAM_BOT_TOKEN missing");
}

#[test]
fn an_address_has_to_be_a_url() {
    assert!(matches!(read_api_url(None), ApiUrl::Usual));
    assert!(matches!(read_api_url(Some("localhost")), ApiUrl::Invalid));
    let e = settings(Some("t"), Some("no url"), None).err().unwrap();
    assert!(matches!(e, ConfigError::InvalidApiUrl));
    assert_eq!(e.text(), "Invalid TELEGRAM_API_URL");
}
