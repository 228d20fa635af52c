//! What the actions of a run mean for its request: whom they note, log and
//! count, what the programs are called with, and where the files lie.
use vstd::prelude::*;

use crate::clock::UtcTime;
use crate::handlers::{CommandRequest, UrlRequest};
use crate::media::{
    after_last_slash, download_args, encode_args, media_path, path_of, MediaFile,
};
use crate::messages::{caption, caption_text};
use crate::pipeline::{compressed_file, downloader_call, encoder_call, raw_file};
use crate::progress::text_of;
use crate::protocol::Action;
use crate::state::{
    authorize_user, authorized, can_count, count_download, countable, counted,
    law_access_is_entered, law_download_is_counted, law_download_is_logged, law_message_is_noted,
    log_download, logged, may_use, noted, track_and_check_auth, LogTable, Logs, UserTable, Users,
};

verus! {

/// The users once the action of a text is performed.
pub open spec fn users_then(request: UrlRequest, users: Users, action: Action) -> Users {
    match action {
        Action::NoteUser(now) => noted(
            users,
            request.user,
            request.uid_key@,
            now.spec_rfc3339(),
        ),
        Action::CountDownload(now) => counted(users, request.uid_key@, now.spec_rfc3339()),
        _ => users,
    }
}

/// The log once the action of a text is performed.
pub open spec fn logs_then(request: UrlRequest, logs: Logs, action: Action) -> Logs {
    match action {
        Action::AppendLog(now) => logged(
            logs,
            request.uid_key@,
            request.url@,
            now.spec_rfc3339(),
        ),
        _ => logs,
    }
}

/// The users once the action of a command is performed.
pub open spec fn command_users_then(request: CommandRequest, users: Users, action: Action) -> Users {
    match action {
        Action::NoteUser(now) => noted(
            users,
            request.user,
            request.uid_key@,
            now.spec_rfc3339(),
        ),
        Action::Authorize => authorized(users, request.uid_key@),
        _ => users,
    }
}

impl CommandRequest {
    /// Notes the sender of the command, and tells whether they may use the bot.
    pub fn note(&self, users: &mut UserTable, now: UtcTime) -> (r: bool)
        requires
            old(users).wf(),
            now.valid(),
        ensures
            final(users).wf(),
            final(users)@ == command_users_then(*self, old(users)@, Action::NoteUser(now)),
            r == may_use(old(users)@, self.uid_key@),
    {
        track_and_check_auth(users, &self.user, self.uid_key.as_str(), now)
    }

    /// Gives the sender of the command access.
    pub fn authorize(&self, users: &mut UserTable)
        requires
            old(users).wf(),
        ensures
            final(users).wf(),
            final(users)@ == command_users_then(*self, old(users)@, Action::Authorize),
    {
        authorize_user(users, self.uid_key.as_str())
    }
}

impl UrlRequest {
    /// Notes the sender of the text, and tells whether they may use the bot.
    pub fn note(&self, users: &mut UserTable, now: UtcTime) -> (r: bool)
        requires
            old(users).wf(),
            now.valid(),
        ensures
            final(users).wf(),
            final(users)@ == users_then(*self, old(users)@, Action::NoteUser(now)),
            r == may_use(old(users)@, self.uid_key@),
    {
        track_and_check_auth(users, &self.user, self.uid_key.as_str(), now)
    }

    /// Enters the link in the log of the sender.
    pub fn log(&self, logs: &mut LogTable, now: UtcTime)
        requires
            old(logs).wf(),
            now.valid(),
        ensures
            final(logs).wf(),
            final(logs)@ == logs_then(*self, old(logs)@, Action::AppendLog(now)),
    {
        log_download(logs, self.uid_key.as_str(), self.url.as_str(), now)
    }

    /// Whether the count of another download of the sender fits.
    pub fn can_count(&self, users: &UserTable) -> (r: bool)
        requires
            users.wf(),
        ensures
            r == countable(users@, self.uid_key@),
    {
        can_count(users, self.uid_key.as_str())
    }

    /// Counts a download of the sender.
    pub fn count(&self, users: &mut UserTable, now: UtcTime)
        requires
            old(users).wf(),
            now.valid(),
            countable(old(users)@, self.uid_key@),
        ensures
            final(users).wf(),
            final(users)@ == users_then(*self, old(users)@, Action::CountDownload(now)),
    {
        count_download(users, self.uid_key.as_str(), now)
    }

    /// What the downloader is called with: the link and the cookie file of the
    /// request, and the raw file of the download that began at `started`.
    pub fn downloader_call(&self, started: UtcTime) -> (r: Vec<String>)
        requires
            started.valid(),
        ensures
            r.deep_view() == download_args(
                self.url@,
                media_path(self.uid_key@, raw_file(started)),
                text_of(self.cookies),
            ),
    {
        let cookies = match &self.cookies {
            Some(path) => Some(path.as_str()),
            None => None,
        };
        downloader_call(self.uid_key.as_str(), self.url.as_str(), cookies, started)
    }

    /// What the encoder is called with: the raw and the compressed file of the
    /// download that began at `started`.
    pub fn encoder_call(&self, started: UtcTime) -> (r: Vec<String>)
        requires
            started.valid(),
        ensures
            r.deep_view() == encode_args(
                media_path(self.uid_key@, raw_file(started)),
                media_path(self.uid_key@, compressed_file(started)),
            ),
    {
        encoder_call(self.uid_key.as_str(), started)
    }

    /// Where a file of the request lies.
    pub fn path_of(&self, file: MediaFile) -> (r: String)
        requires
            file.started.valid(),
        ensures
            r@ == media_path(self.uid_key@, file),
    {
        path_of(self.uid_key.as_str(), file)
    }

    /// What stands under the video of a file of the request.
    pub fn caption_of(&self, file: MediaFile) -> (r: String)
        requires
            file.started.valid(),
        ensures
            r@ == caption_text(after_last_slash(media_path(self.uid_key@, file))),
    {
        caption(self.uid_key.as_str(), file)
    }
}

/// What the actions of a text do to the tables: noting leaves the time in the
/// record of its sender, counting adds one to it, entering puts the link of the
/// text at the end of their list, and nothing else changes a table.
pub proof fn law_actions_of_a_text(
    request: UrlRequest,
    users: Users,
    logs: Logs,
    action: Action,
    now: UtcTime,
)
    ensures
        ({
            let key = request.uid_key@;
            let after = users_then(request, users, Action::NoteUser(now));
            &&& after.dom() == users.dom().insert(key)
            &&& after[key].last_use == now.spec_rfc3339()
            &&& !users.contains_key(key) ==> after[key].id == request.user.id
                && after[key].first_name == request.user.first_name@ && after[key].username
                == request.user.username.deep_view() && after[key].language_code
                == request.user.language_code.deep_view()
            &&& may_use(after, key) == may_use(users, key)
            &&& after.remove(key) == users.remove(key)
        }),
        ({
            let key = request.uid_key@;
            let after = users_then(request, users, Action::CountDownload(now));
            &&& after.remove(key) == users.remove(key)
            &&& users.contains_key(key) && users[key].download_count < 0xffff_ffff
                ==> after.contains_key(key) && after[key].download_count
                == users[key].download_count + 1 && after[key].last_use == now.spec_rfc3339()
            &&& !users.contains_key(key) ==> after == users
        }),
        ({
            let key = request.uid_key@;
            let after = logs_then(request, logs, Action::AppendLog(now));
            &&& after.remove(key) == logs.remove(key)
            &&& after.contains_key(key) && after[key].len() > 0
            &&& after[key].last().url == request.url@
            &&& after[key].last().timestamp == now.spec_rfc3339()
            &&& logs.contains_key(key) ==> after[key].drop_last() == logs[key]
            &&& !logs.contains_key(key) ==> after[key].len() == 1
        }),
        action !is NoteUser && action !is CountDownload ==> users_then(request, users, action)
            == users,
        action !is AppendLog ==> logs_then(request, logs, action) == logs,
{
    let key = request.uid_key@;
    let now_text = now.spec_rfc3339();
    law_message_is_noted(users, request.user, key, now_text);
    law_download_is_logged(logs, key, request.url@, now_text);
    if users.contains_key(key) ==> users[key].download_count < 0xffff_ffff {
        law_download_is_counted(users, key, now_text);
    }
    assert(users_then(request, users, Action::NoteUser(now)).remove(key) =~= users.remove(key));
    assert(users_then(request, users, Action::CountDownload(now)).remove(key) =~= users.remove(
        key,
    ));
    assert(logs_then(request, logs, Action::AppendLog(now)).remove(key) =~= logs.remove(key));
}

/// What the actions of a command do to the users: noting leaves the time in the
/// record of its sender, authorizing gives access to them if they are known, and
/// nothing else changes the table.
pub proof fn law_actions_of_a_command(
    request: CommandRequest,
    users: Users,
    action: Action,
    now: UtcTime,
)
    ensures
        ({
            let key = request.uid_key@;
            let after = command_users_then(request, users, Action::NoteUser(now));
            &&& after.dom() == users.dom().insert(key)
            &&& after[key].last_use == now.spec_rfc3339()
            &&& !users.contains_key(key) ==> after[key].id == request.user.id
                && after[key].first_name == request.user.first_name@ && after[key].username
                == request.user.username.deep_view() && after[key].language_code
                == request.user.language_code.deep_view()
            &&& may_use(after, key) == may_use(users, key)
            &&& after.remove(key) == users.remove(key)
        }),
        ({
            let key = request.uid_key@;
            let after = command_users_then(request, users, Action::Authorize);
            &&& after.remove(key) == users.remove(key)
            &&& users.contains_key(key) ==> after.contains_key(key) && after[key].is_authorized
                && after[key].last_use == users[key].last_use && after[key].download_count
                == users[key].download_count
            &&& !users.contains_key(key) ==> after == users
        }),
        action !is NoteUser && action !is Authorize ==> command_users_then(request, users, action)
            == users,
{
    let key = request.uid_key@;
    law_message_is_noted(users, request.user, key, now.spec_rfc3339());
    law_access_is_entered(users, key);
    assert(command_users_then(request, users, Action::NoteUser(now)).remove(key) =~= users.remove(
        key,
    ));
    assert(command_users_then(request, users, Action::Authorize).remove(key) =~= users.remove(key));
}

} // verus!
