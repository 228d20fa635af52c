//! What the bot says: its replies, the notices on a running download, and its
//! errors.
use vstd::prelude::*;
use vstd::string::StringExecFns;

use crate::media::{after_last_slash, file_name_of, media_name, media_path, MediaFile};
use crate::progress::{generate_progress_bar, percent_tenths, progress_bar, tenths_of};
use crate::size::{megabytes, megabytes_text};
use crate::text::all_digits;

verus! {

/// Why a message could not be handled.
pub enum BotError {
    /// The message has no sender.
    MissingUser,
    /// A file, a process or the chat service failed; in its own words.
    Failed(String),
    /// The downloader did not start.
    DownloaderMissing,
    /// The downloader gave up; with what it wrote to its error stream.
    DownloaderCrashed(String),
    /// The downloader left no file.
    MediaMissing,
    /// The encoder gave up.
    EncoderFailed,
    /// The compressed file has this many bytes, over the limit.
    StillTooLarge(u64),
    /// The video did not reach the chat service.
    UploadFailed,
}

/// A message of the bot.
pub enum Message {
    Welcome(String),
    Help,
    LoginAccepted,
    LoginRejected,
    AccessDenied,
    UnsupportedLink,
    Starting,
    Downloading(String),
    Compressing,
    Uploading,
    PipelineFailed(BotError),
}

impl BotError {
    /// The error in words.
    pub open spec fn spec_text(self) -> Seq<char> {
        match self {
            BotError::MissingUser => "Missing user context"@,
            BotError::Failed(cause) => cause@,
            BotError::DownloaderMissing => "yt-dlp ikili dosyası başlatılamadı"@,
            BotError::DownloaderCrashed(stderr) => "yt-dlp işlemi çöktü: "@ + stderr@,
            BotError::MediaMissing => "I/O hatası: İndirilen medya diske yazılamadı."@,
            BotError::EncoderFailed => "FFmpeg kodlama katmanı başarısız oldu."@,
            BotError::StillTooLarge(bytes) =>
                "Sıkıştırma işlemine rağmen dosya boyutu çok büyük: "@ + megabytes(bytes as nat)
                + " MB"@,
            BotError::UploadFailed => "Telegram API üzerinden yükleme esnasında hata"@,
        }
    }

    /// The error in words.
    pub fn text(&self) -> (r: String)
        ensures
            r@ == self.spec_text(),
    {
        match self {
            BotError::MissingUser => "Missing user context".to_owned(),
            BotError::Failed(cause) => cause.clone(),
            BotError::DownloaderMissing => "yt-dlp ikili dosyası başlatılamadı".to_owned(),
            BotError::DownloaderCrashed(stderr) => {
                "yt-dlp işlemi çöktü: ".to_owned().concat(stderr.as_str())
            },
            BotError::MediaMissing => "I/O hatası: İndirilen medya diske yazılamadı.".to_owned(),
            BotError::EncoderFailed => "FFmpeg kodlama katmanı başarısız oldu.".to_owned(),
            BotError::StillTooLarge(bytes) => {
                let mut r = "Sıkıştırma işlemine rağmen dosya boyutu çok büyük: ".to_owned();
                r.append(megabytes_text(*bytes).as_str());
                r.append(" MB");
                r
            },
            BotError::UploadFailed => {
                "Telegram API üzerinden yükleme esnasında hata".to_owned()
            },
        }
    }
}

impl Message {
    /// The message as it is sent.
    pub open spec fn spec_text(self) -> Seq<char> {
        match self {
            Message::Welcome(first_name) => "<b>Sistem Aktif</b> 🟢\nHoş geldiniz, <code>"@
                + first_name@ + "</code>."@,
            Message::Help =>
                "<b>Docs:</b>\nX (Twitter) veya YouTube linki gönderin. Sistem videoyu işleyip arşivleyecektir."@,
            Message::LoginAccepted =>
                "🔐 <b>Auth Başarılı.</b>\nSistem erişimi onaylandı."@,
            Message::LoginRejected =>
                "❌ <b>Hata:</b> Kimlik doğrulama reddedildi."@,
            Message::AccessDenied =>
                "⛔ <b>Erişim Reddedildi.</b>\nYetkilendirme gereklidir: <code>/login <şifre></code>"@,
            Message::UnsupportedLink =>
                "⚠️ <b>Geçersiz Protokol.</b>\nYalnızca X ve YouTube desteklenmektedir."@,
            Message::Starting =>
                "⏳ <b>Başlatılıyor...</b>\nMeta veriler ayrıştırılıyor."@,
            Message::Downloading(pct) => "📥 <b>İndiriliyor...</b>\n<code>"@ + progress_bar(
                tenths_of(pct@),
            ) + "</code> "@ + pct@ + "%"@,
            Message::Compressing =>
                "⚙️ <b>Sıkıştırılıyor...</b>\nBoyut sınırı aşıldı, ffmpeg ile işleniyor."@,
            Message::Uploading =>
                "🚀 <b>Yükleniyor...</b>\nTelegram sunucularına aktarılıyor."@,
            Message::PipelineFailed(error) => "❌ <b>İşlem Hatası:</b>\n<code>"@
                + error.spec_text() + "</code>"@,
        }
    }

    /// The message as it is sent.
    pub fn text(&self) -> (r: String)
        ensures
            r@ == self.spec_text(),
    {
        match self {
            Message::Welcome(first_name) => {
                let mut r = "<b>Sistem Aktif</b> 🟢\nHoş geldiniz, <code>".to_owned();
                r.append(first_name.as_str());
                r.append("</code>.");
                r
            },
            Message::Help =>
                "<b>Docs:</b>\nX (Twitter) veya YouTube linki gönderin. Sistem videoyu işleyip arşivleyecektir.".to_owned(),
            Message::LoginAccepted =>
                "🔐 <b>Auth Başarılı.</b>\nSistem erişimi onaylandı.".to_owned(),
            Message::LoginRejected =>
                "❌ <b>Hata:</b> Kimlik doğrulama reddedildi.".to_owned(),
            Message::AccessDenied =>
                "⛔ <b>Erişim Reddedildi.</b>\nYetkilendirme gereklidir: <code>/login <şifre></code>".to_owned(),
            Message::UnsupportedLink =>
                "⚠️ <b>Geçersiz Protokol.</b>\nYalnızca X ve YouTube desteklenmektedir.".to_owned(),
            Message::Starting =>
                "⏳ <b>Başlatılıyor...</b>\nMeta veriler ayrıştırılıyor.".to_owned(),
            Message::Downloading(pct) => {
                let bar = generate_progress_bar(percent_tenths(pct.as_str()));
                let mut r = "📥 <b>İndiriliyor...</b>\n<code>".to_owned();
                r.append(bar.as_str());
                r.append("</code> ");
                r.append(pct.as_str());
                r.append("%");
                r
            },
            Message::Compressing =>
                "⚙️ <b>Sıkıştırılıyor...</b>\nBoyut sınırı aşıldı, ffmpeg ile işleniyor.".to_owned(),
            Message::Uploading =>
                "🚀 <b>Yükleniyor...</b>\nTelegram sunucularına aktarılıyor.".to_owned(),
            Message::PipelineFailed(error) => {
                let mut r = "❌ <b>İşlem Hatası:</b>\n<code>".to_owned();
                r.append(error.text().as_str());
                r.append("</code>");
                r
            },
        }
    }
}

/// What stands under an uploaded video, with the name of its file.
pub open spec fn caption_text(name: Seq<char>) -> Seq<char> {
    "✅ <b>Arşivlendi:</b> <code>"@ + name + "</code>"@
}

/// What stands under an uploaded video, with the name of its file.
pub fn caption_for(name: &str) -> (r: String)
    ensures
        r@ == caption_text(name@),
{
    let mut r = "✅ <b>Arşivlendi:</b> <code>".to_owned();
    r.append(name);
    r.append("</code>");
    r
}

/// What stands under the video of this file: the last part of its path, which is
/// the name of the file where the key is of digits.
pub fn caption(uid_key: &str, file: MediaFile) -> (r: String)
    requires
        file.started.valid(),
    ensures
        r@ == caption_text(after_last_slash(media_path(uid_key@, file))),
        all_digits(uid_key@) ==> r@ == caption_text(media_name(uid_key@, file)),
{
    caption_for(file_name_of(uid_key, file).as_str())
}

/// What the bot says where nothing depends on the case.
pub proof fn law_fixed_texts()
    ensures
        Message::Help.spec_text()
            == "<b>Docs:</b>\nX (Twitter) veya YouTube linki gönderin. Sistem videoyu işleyip arşivleyecektir."@,
        Message::LoginAccepted.spec_text()
            == "🔐 <b>Auth Başarılı.</b>\nSistem erişimi onaylandı."@,
        Message::LoginRejected.spec_text() == "❌ <b>Hata:</b> Kimlik doğrulama reddedildi."@,
        Message::AccessDenied.spec_text()
            == "⛔ <b>Erişim Reddedildi.</b>\nYetkilendirme gereklidir: <code>/login <şifre></code>"@,
        Message::UnsupportedLink.spec_text()
            == "⚠️ <b>Geçersiz Protokol.</b>\nYalnızca X ve YouTube desteklenmektedir."@,
        Message::Starting.spec_text()
            == "⏳ <b>Başlatılıyor...</b>\nMeta veriler ayrıştırılıyor."@,
        Message::Compressing.spec_text()
            == "⚙️ <b>Sıkıştırılıyor...</b>\nBoyut sınırı aşıldı, ffmpeg ile işleniyor."@,
        Message::Uploading.spec_text()
            == "🚀 <b>Yükleniyor...</b>\nTelegram sunucularına aktarılıyor."@,
        BotError::MissingUser.spec_text() == "Missing user context"@,
        BotError::DownloaderMissing.spec_text() == "yt-dlp ikili dosyası başlatılamadı"@,
        BotError::MediaMissing.spec_text() == "I/O hatası: İndirilen medya diske yazılamadı."@,
        BotError::EncoderFailed.spec_text() == "FFmpeg kodlama katmanı başarısız oldu."@,
        BotError::UploadFailed.spec_text() == "Telegram API üzerinden yükleme esnasında hata"@,
{
}

/// A name, a cause or an error is told in full and unchanged, whatever it is, in
/// a frame that does not depend on it.
pub proof fn law_told_in_full(name: String, cause: String, error: BotError, file_name: Seq<char>)
    ensures
        Message::Welcome(name).spec_text() == "<b>Sistem Aktif</b> 🟢\nHoş geldiniz, <code>"@ + name@
            + "</code>."@,
        BotError::Failed(cause).spec_text() == cause@,
        BotError::DownloaderCrashed(cause).spec_text() == "yt-dlp işlemi çöktü: "@ + cause@,
        Message::PipelineFailed(error).spec_text() == "❌ <b>İşlem Hatası:</b>\n<code>"@
            + error.spec_text() + "</code>"@,
        caption_text(file_name) == "✅ <b>Arşivlendi:</b> <code>"@ + file_name + "</code>"@,
{
}

/// An update shows its percentage behind the bar of its tenths.
pub proof fn law_update_text(pct: String)
    ensures
        ({
            let text = Message::Downloading(pct).spec_text();
            let bar = progress_bar(tenths_of(pct@));
            text == "📥 <b>İndiriliyor...</b>\n<code>"@ + bar + "</code> "@ + pct@ + "%"@
        }),
{
}

/// A file that stays too large is complained of with its size in megabytes.
pub proof fn law_size_is_told(bytes: u64)
    ensures
        BotError::StillTooLarge(bytes).spec_text()
            == "Sıkıştırma işlemine rağmen dosya boyutu çok büyük: "@ + megabytes(bytes as nat)
            + " MB"@,
{
}

} // verus!
