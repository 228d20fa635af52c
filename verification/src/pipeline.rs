//! A download from the start of the downloader to the record of its success.
use vstd::prelude::*;

use crate::bookkeeping::{log_next, log_successful_download, LogStep};
use crate::clock::UtcTime;
use crate::media::{
    download_args, downloader_args, encode_args, encoder_args, media_path, path_of, Media, MediaFile,
};
use crate::messages::{BotError, Message};
use crate::progress::{due, is_due, Shown};
use crate::protocol::{Action, Event, Flow, Wait};

verus! {

/// The steps of a download. Most know when the download began.
pub enum PipelineStep {
    Clock,
    /// The downloader is started.
    Start(UtcTime),
    /// Its output is read; this percentage was shown last.
    Read(UtcTime, Option<Shown>),
    /// The notice is changed to show this percentage.
    Edit(UtcTime, Option<Shown>),
    /// The downloader is waited for.
    Await(UtcTime),
    /// It has failed, and its error stream is read.
    Errors,
    /// It has succeeded, and its file is looked for.
    Probe(UtcTime),
    /// The file is measured.
    Measure(UtcTime),
    /// It is over the limit, and the notice is changed to say so.
    Announce(UtcTime),
    /// The file is compressed.
    Encode(UtcTime),
    /// The compressed file is measured.
    Remeasure(UtcTime),
    /// With so many bytes it is over the limit, and is deleted.
    Discard(u64),
    /// It fits, and the raw file is deleted.
    Replace(UtcTime),
    /// This file fits; the notice is changed to say that it is sent.
    Notify(MediaFile),
    /// The file is sent.
    Upload(MediaFile),
    /// The notice is deleted.
    Close,
    /// The success is recorded.
    Log(LogStep),
}

impl PipelineStep {
    pub open spec fn awaits(self) -> Wait {
        match self {
            PipelineStep::Clock => Wait::Clock,
            PipelineStep::Start(_) => Wait::Outcome,
            PipelineStep::Read(_, _) => Wait::Output,
            PipelineStep::Edit(_, _) => Wait::Done,
            PipelineStep::Await(_) => Wait::Exit,
            PipelineStep::Errors => Wait::Text,
            PipelineStep::Probe(_) => Wait::Presence,
            PipelineStep::Measure(_) => Wait::Size,
            PipelineStep::Announce(_) => Wait::Done,
            PipelineStep::Encode(_) => Wait::Exit,
            PipelineStep::Remeasure(_) => Wait::Size,
            PipelineStep::Discard(_) => Wait::Done,
            PipelineStep::Replace(_) => Wait::Done,
            PipelineStep::Notify(_) => Wait::Done,
            PipelineStep::Upload(_) => Wait::Outcome,
            PipelineStep::Close => Wait::Done,
            PipelineStep::Log(step) => step.awaits(),
        }
    }
}

/// The raw file of the download that began at `started`.
pub open spec fn raw_file(started: UtcTime) -> MediaFile {
    MediaFile { media: Media::Raw, started }
}

/// The compressed file of the download that began at `started`.
pub open spec fn compressed_file(started: UtcTime) -> MediaFile {
    MediaFile { media: Media::Compressed, started }
}

impl MediaFile {
    fn raw(started: UtcTime) -> (r: MediaFile)
        ensures
            r == raw_file(started),
    {
        MediaFile { media: Media::Raw, started }
    }

    fn compressed(started: UtcTime) -> (r: MediaFile)
        ensures
            r == compressed_file(started),
    {
        MediaFile { media: Media::Compressed, started }
    }
}

/// What the downloader is called with for the download that began at `started`:
/// it writes the raw file.
pub fn downloader_call(uid_key: &str, url: &str, cookies: Option<&str>, started: UtcTime) -> (r:
    Vec<String>)
    requires
        started.valid(),
    ensures
        r.deep_view() == download_args(
            url@,
            media_path(uid_key@, raw_file(started)),
            match cookies {
                Some(path) => Some(path@),
                None => None,
            },
        ),
{
    downloader_args(url, path_of(uid_key, MediaFile::raw(started)).as_str(), cookies)
}

/// What the encoder is called with for the download that began at `started`: it
/// reads the raw file and writes the compressed one.
pub fn encoder_call(uid_key: &str, started: UtcTime) -> (r: Vec<String>)
    requires
        started.valid(),
    ensures
        r.deep_view() == encode_args(
            media_path(uid_key@, raw_file(started)),
            media_path(uid_key@, compressed_file(started)),
        ),
{
    encoder_args(
        path_of(uid_key, MediaFile::raw(started)).as_str(),
        path_of(uid_key, MediaFile::compressed(started)).as_str(),
    )
}

/// A download with files of at most `limit` bytes: from a step, and the event
/// that answers its action, to the next step, the end, or an error.
pub open spec fn pipeline_next(limit: u64, step: PipelineStep, event: Event) -> Flow<
    PipelineStep,
    (),
> {
    match (step, event) {
        (PipelineStep::Clock, Event::Clock(started)) => Flow::Next(
            PipelineStep::Start(started),
            Action::StartDownload(started),
        ),
        (PipelineStep::Start(_), Event::Failed(_)) => Flow::Lost(BotError::DownloaderMissing),
        (PipelineStep::Start(started), _) => Flow::Next(
            PipelineStep::Read(started, None),
            Action::ReadLine,
        ),
        (PipelineStep::Read(started, shown), Event::Line(pct, at)) => match pct {
            Some(pct) if due(shown, pct@, at) => Flow::Next(
                PipelineStep::Edit(started, Some(Shown { pct, at })),
                Action::EditNotice(Message::Downloading(pct)),
            ),
            _ => Flow::Next(PipelineStep::Read(started, shown), Action::ReadLine),
        },
        (PipelineStep::Read(started, _), Event::EndOfOutput) => Flow::Next(
            PipelineStep::Await(started),
            Action::AwaitDownload,
        ),
        (PipelineStep::Edit(started, shown), _) => Flow::Next(
            PipelineStep::Read(started, shown),
            Action::ReadLine,
        ),
        (PipelineStep::Await(started), Event::Exited(success)) => if success {
            Flow::Next(PipelineStep::Probe(started), Action::Probe(raw_file(started)))
        } else {
            Flow::Next(PipelineStep::Errors, Action::ReadErrors)
        },
        (PipelineStep::Errors, Event::Text(stderr)) => Flow::Lost(
            BotError::DownloaderCrashed(stderr),
        ),
        (PipelineStep::Probe(started), Event::Present(present)) => if present {
            Flow::Next(PipelineStep::Measure(started), Action::Measure(raw_file(started)))
        } else {
            Flow::Lost(BotError::MediaMissing)
        },
        (PipelineStep::Measure(started), Event::Size(bytes)) => if bytes > limit {
            Flow::Next(
                PipelineStep::Announce(started),
                Action::EditNotice(Message::Compressing),
            )
        } else {
            Flow::Next(
                PipelineStep::Notify(raw_file(started)),
                Action::EditNotice(Message::Uploading),
            )
        },
        (PipelineStep::Announce(started), _) => Flow::Next(
            PipelineStep::Encode(started),
            Action::Encode(started),
        ),
        (PipelineStep::Encode(started), Event::Exited(success)) => if success {
            Flow::Next(
                PipelineStep::Remeasure(started),
                Action::Measure(compressed_file(started)),
            )
        } else {
            Flow::Lost(BotError::EncoderFailed)
        },
        (PipelineStep::Remeasure(started), Event::Size(bytes)) => if bytes > limit {
            Flow::Next(
                PipelineStep::Discard(bytes),
                Action::Remove(compressed_file(started)),
            )
        } else {
            Flow::Next(PipelineStep::Replace(started), Action::Remove(raw_file(started)))
        },
        (PipelineStep::Discard(bytes), _) => Flow::Lost(BotError::StillTooLarge(bytes)),
        (PipelineStep::Replace(started), _) => Flow::Next(
            PipelineStep::Notify(compressed_file(started)),
            Action::EditNotice(Message::Uploading),
        ),
        (PipelineStep::Notify(file), _) => Flow::Next(
            PipelineStep::Upload(file),
            Action::Upload(file),
        ),
        (PipelineStep::Upload(_), Event::Failed(_)) => Flow::Lost(BotError::UploadFailed),
        (PipelineStep::Upload(_), _) => Flow::Next(PipelineStep::Close, Action::CloseNotice),
        (PipelineStep::Close, _) => Flow::Next(
            PipelineStep::Log(LogStep::Clock),
            Action::ReadClock,
        ),
        (PipelineStep::Log(logging), event) => match log_next(logging, event) {
            Flow::Next(logging, action) => Flow::Next(PipelineStep::Log(logging), action),
            Flow::Done(_) => Flow::Done(()),
            Flow::Lost(error) => Flow::Lost(error),
        },
        (_, Event::Failed(cause)) => Flow::Lost(BotError::Failed(cause)),
        _ => arbitrary(),
    }
}

/// One step of a download.
pub fn execute_pipeline(limit: u64, step: PipelineStep, event: Event) -> (r: Flow<PipelineStep, ()>)
    requires
        step.awaits().admits(event),
    ensures
        r == pipeline_next(limit, step, event),
{
    match (step, event) {
        (PipelineStep::Clock, Event::Clock(started)) => Flow::Next(
            PipelineStep::Start(started),
            Action::StartDownload(started),
        ),
        (PipelineStep::Start(_), Event::Failed(_)) => Flow::Lost(BotError::DownloaderMissing),
        (PipelineStep::Start(started), _) => Flow::Next(
            PipelineStep::Read(started, None),
            Action::ReadLine,
        ),
        (PipelineStep::Read(started, shown), Event::Line(pct, at)) => {
            if let Some(pct) = pct {
                if is_due(&shown, &pct, at) {
                    let last = Shown { pct: pct.clone(), at };
                    return Flow::Next(
                        PipelineStep::Edit(started, Some(last)),
                        Action::EditNotice(Message::Downloading(pct)),
                    );
                }
            }
            Flow::Next(PipelineStep::Read(started, shown), Action::ReadLine)
        },
        (PipelineStep::Read(started, _), Event::EndOfOutput) => Flow::Next(
            PipelineStep::Await(started),
            Action::AwaitDownload,
        ),
        (PipelineStep::Edit(started, shown), _) => Flow::Next(
            PipelineStep::Read(started, shown),
            Action::ReadLine,
        ),
        (PipelineStep::Await(started), Event::Exited(success)) => if success {
            Flow::Next(PipelineStep::Probe(started), Action::Probe(MediaFile::raw(started)))
        } else {
            Flow::Next(PipelineStep::Errors, Action::ReadErrors)
        },
        (PipelineStep::Errors, Event::Text(stderr)) => Flow::Lost(
            BotError::DownloaderCrashed(stderr),
        ),
        (PipelineStep::Probe(started), Event::Present(present)) => if present {
            Flow::Next(PipelineStep::Measure(started), Action::Measure(MediaFile::raw(started)))
        } else {
            Flow::Lost(BotError::MediaMissing)
        },
        (PipelineStep::Measure(started), Event::Size(bytes)) => if bytes > limit {
            Flow::Next(
                PipelineStep::Announce(started),
                Action::EditNotice(Message::Compressing),
            )
        } else {
            Flow::Next(
                PipelineStep::Notify(MediaFile::raw(started)),
                Action::EditNotice(Message::Uploading),
            )
        },
        (PipelineStep::Announce(started), _) => Flow::Next(
            PipelineStep::Encode(started),
            Action::Encode(started),
        ),
        (PipelineStep::Encode(started), Event::Exited(success)) => if success {
            Flow::Next(
                PipelineStep::Remeasure(started),
                Action::Measure(MediaFile::compressed(started)),
            )
        } else {
            Flow::Lost(BotError::EncoderFailed)
        },
        (PipelineStep::Remeasure(started), Event::Size(bytes)) => if bytes > limit {
            Flow::Next(
                PipelineStep::Discard(bytes),
                Action::Remove(MediaFile::compressed(started)),
            )
        } else {
            Flow::Next(PipelineStep::Replace(started), Action::Remove(MediaFile::raw(started)))
        },
        (PipelineStep::Discard(bytes), _) => Flow::Lost(BotError::StillTooLarge(bytes)),
        (PipelineStep::Replace(started), _) => Flow::Next(
            PipelineStep::Notify(MediaFile::compressed(started)),
            Action::EditNotice(Message::Uploading),
        ),
        (PipelineStep::Notify(file), _) => Flow::Next(
            PipelineStep::Upload(file),
            Action::Upload(file),
        ),
        (PipelineStep::Upload(_), Event::Failed(_)) => Flow::Lost(BotError::UploadFailed),
        (PipelineStep::Upload(_), _) => Flow::Next(PipelineStep::Close, Action::CloseNotice),
        (PipelineStep::Close, _) => Flow::Next(
            PipelineStep::Log(LogStep::Clock),
            Action::ReadClock,
        ),
        (PipelineStep::Log(logging), event) => match log_successful_download(logging, event) {
            Flow::Next(logging, action) => Flow::Next(PipelineStep::Log(logging), action),
            Flow::Done(_) => Flow::Done(()),
            Flow::Lost(error) => Flow::Lost(error),
        },
        (_, Event::Failed(cause)) => Flow::Lost(BotError::Failed(cause)),
        _ => vstd::pervasive::unreached(),
    }
}

/// The two files of a download are of its time, and one of each kind.
pub proof fn law_files_of_a_download(started: UtcTime)
    ensures
        raw_file(started).media is Raw,
        compressed_file(started).media is Compressed,
        raw_file(started).started == started,
        compressed_file(started).started == started,
{
}

} // verus!
