//! What the bot remembers: its users, and what they have downloaded.
use vstd::prelude::*;

use crate::clock::UtcTime;
use crate::table::Table;

verus! {

/// A finished download.
pub struct DownloadRecord {
    pub url: String,
    pub timestamp: String,
}

/// A user of the bot.
pub struct UserRecord {
    pub id: u64,
    pub username: Option<String>,
    pub first_name: String,
    pub language_code: Option<String>,
    pub first_use: String,
    pub last_use: String,
    pub download_count: u32,
    pub is_authorized: bool,
}

/// The sender of a message, as the chat service describes them.
pub struct User {
    pub id: u64,
    pub username: Option<String>,
    pub first_name: String,
    pub language_code: Option<String>,
}

/// The texts of a `DownloadRecord`.
#[verifier::ext_equal]
pub ghost struct DownloadEntry {
    pub url: Seq<char>,
    pub timestamp: Seq<char>,
}

/// The numbers, texts and flags of a `UserRecord`.
#[verifier::ext_equal]
pub ghost struct UserEntry {
    pub id: u64,
    pub username: Option<Seq<char>>,
    pub first_name: Seq<char>,
    pub language_code: Option<Seq<char>>,
    pub first_use: Seq<char>,
    pub last_use: Seq<char>,
    pub download_count: u32,
    pub is_authorized: bool,
}

impl DeepView for DownloadRecord {
    type V = DownloadEntry;

    open spec fn deep_view(&self) -> DownloadEntry {
        DownloadEntry { url: self.url@, timestamp: self.timestamp@ }
    }
}

impl DeepView for UserRecord {
    type V = UserEntry;

    open spec fn deep_view(&self) -> UserEntry {
        UserEntry {
            id: self.id,
            username: self.username.deep_view(),
            first_name: self.first_name@,
            language_code: self.language_code.deep_view(),
            first_use: self.first_use@,
            last_use: self.last_use@,
            download_count: self.download_count,
            is_authorized: self.is_authorized,
        }
    }
}

/// Users by key.
pub type UserTable = Table<UserRecord>;

/// Finished downloads by the key of the user, the oldest first.
pub type LogTable = Table<Vec<DownloadRecord>>;

/// What a user table holds.
pub type Users = Map<Seq<char>, UserEntry>;

/// What a log table holds.
pub type Logs = Map<Seq<char>, Seq<DownloadEntry>>;

/// The entry of somebody who is seen for the first time: not authorized, and
/// without downloads.
pub open spec fn newcomer(user: User, now: Seq<char>) -> UserEntry {
    UserEntry {
        id: user.id,
        username: user.username.deep_view(),
        first_name: user.first_name@,
        language_code: user.language_code.deep_view(),
        first_use: now,
        last_use: now,
        download_count: 0,
        is_authorized: false,
    }
}

/// The users after a message of `user`, who is known by `key`: of somebody known
/// only the time of last use changes.
pub open spec fn noted(users: Users, user: User, key: Seq<char>, now: Seq<char>) -> Users {
    if users.contains_key(key) {
        users.insert(key, UserEntry { last_use: now, ..users[key] })
    } else {
        users.insert(key, newcomer(user, now))
    }
}

/// The users after `key` has been given access. Nobody is added.
pub open spec fn authorized(users: Users, key: Seq<char>) -> Users {
    if users.contains_key(key) {
        users.insert(key, UserEntry { is_authorized: true, ..users[key] })
    } else {
        users
    }
}

/// The downloads of `key`, the oldest first.
pub open spec fn downloads_of(logs: Logs, key: Seq<char>) -> Seq<DownloadEntry> {
    if logs.contains_key(key) {
        logs[key]
    } else {
        Seq::empty()
    }
}

/// The log after `key` has downloaded `url`.
pub open spec fn logged(logs: Logs, key: Seq<char>, url: Seq<char>, now: Seq<char>) -> Logs {
    logs.insert(key, downloads_of(logs, key).push(DownloadEntry { url, timestamp: now }))
}

/// The users after a download of `key` has been counted. Nobody is added.
pub open spec fn counted(users: Users, key: Seq<char>, now: Seq<char>) -> Users {
    if users.contains_key(key) {
        let entry = users[key];
        users.insert(
            key,
            UserEntry {
                download_count: (entry.download_count + 1) as u32,
                last_use: now,
                ..entry
            },
        )
    } else {
        users
    }
}

/// The user `key` is known and may use the bot.
pub open spec fn may_use(users: Users, key: Seq<char>) -> bool {
    users.contains_key(key) && users[key].is_authorized
}

/// The count of another download of `key` fits.
pub open spec fn countable(users: Users, key: Seq<char>) -> bool {
    users.contains_key(key) ==> users[key].download_count < u32::MAX
}

fn copy_of(s: &Option<String>) -> (r: Option<String>)
    ensures
        r.deep_view() == s.deep_view(),
{
    match s {
        Some(s) => Some(s.clone()),
        None => None,
    }
}

/// Notes a message of `user`, who is known by `uid_key`, at the time `now`, and
/// tells whether they may use the bot.
pub fn note_user(users: &mut UserTable, user: &User, uid_key: &str, now: String) -> (r: bool)
    requires
        old(users).wf(),
    ensures
        final(users).wf(),
        final(users)@ == noted(old(users)@, *user, uid_key@, now@),
        r == may_use(old(users)@, uid_key@),
{
    if let Some(record) = users.get_mut(uid_key) {
        record.last_use = now;
        return record.is_authorized;
    }
    let record = UserRecord {
        id: user.id,
        username: copy_of(&user.username),
        first_name: user.first_name.clone(),
        language_code: copy_of(&user.language_code),
        first_use: now.clone(),
        last_use: now,
        download_count: 0,
        is_authorized: false,
    };
    users.insert(uid_key.to_owned(), record);
    false
}

/// Notes a message of `user`, with the time as RFC 3339 writes it.
pub fn track_and_check_auth(users: &mut UserTable, user: &User, uid_key: &str, now: UtcTime) -> (r:
    bool)
    requires
        old(users).wf(),
        now.valid(),
    ensures
        final(users).wf(),
        final(users)@ == noted(old(users)@, *user, uid_key@, now.spec_rfc3339()),
        r == may_use(old(users)@, uid_key@),
{
    note_user(users, user, uid_key, now.rfc3339())
}

/// Gives `uid_key` access, if they are known.
pub fn authorize_user(users: &mut UserTable, uid_key: &str)
    requires
        old(users).wf(),
    ensures
        final(users).wf(),
        final(users)@ == authorized(old(users)@, uid_key@),
{
    if let Some(record) = users.get_mut(uid_key) {
        record.is_authorized = true;
    }
}

/// Enters a download of `uid_key` in the log, at the time `now`.
pub fn append_download(logs: &mut LogTable, uid_key: &str, url: &str, now: String)
    requires
        old(logs).wf(),
    ensures
        final(logs).wf(),
        final(logs)@ == logged(old(logs)@, uid_key@, url@, now@),
{
    let entry = DownloadRecord { url: url.to_owned(), timestamp: now };
    if let Some(records) = logs.get_mut(uid_key) {
        let ghost earlier = records.deep_view();
        records.push(entry);
        assert(records.deep_view() == earlier.push(entry.deep_view()));
        return;
    }
    let mut records: Vec<DownloadRecord> = Vec::new();
    records.push(entry);
    assert(records.deep_view() == Seq::empty().push(entry.deep_view()));
    logs.insert(uid_key.to_owned(), records);
}

/// Enters a download of `uid_key` in the log, with the time as RFC 3339 writes
/// it.
pub fn log_download(logs: &mut LogTable, uid_key: &str, url: &str, now: UtcTime)
    requires
        old(logs).wf(),
        now.valid(),
    ensures
        final(logs).wf(),
        final(logs)@ == logged(old(logs)@, uid_key@, url@, now.spec_rfc3339()),
{
    append_download(logs, uid_key, url, now.rfc3339())
}

/// Whether the count of another download of `uid_key` fits.
pub fn can_count(users: &UserTable, uid_key: &str) -> (r: bool)
    requires
        users.wf(),
    ensures
        r == countable(users@, uid_key@),
{
    match users.get(uid_key) {
        Some(record) => record.download_count < u32::MAX,
        None => true,
    }
}

/// Counts a download of `uid_key`, if they are known, at the time `now`.
pub fn increment_downloads(users: &mut UserTable, uid_key: &str, now: String)
    requires
        old(users).wf(),
        countable(old(users)@, uid_key@),
    ensures
        final(users).wf(),
        final(users)@ == counted(old(users)@, uid_key@, now@),
{
    if let Some(record) = users.get_mut(uid_key) {
        record.download_count += 1;
        record.last_use = now;
    }
}

/// Counts a download of `uid_key`, if they are known, with the time as RFC 3339
/// writes it.
pub fn count_download(users: &mut UserTable, uid_key: &str, now: UtcTime)
    requires
        old(users).wf(),
        now.valid(),
        countable(old(users)@, uid_key@),
    ensures
        final(users).wf(),
        final(users)@ == counted(old(users)@, uid_key@, now.spec_rfc3339()),
{
    increment_downloads(users, uid_key, now.rfc3339())
}

/// A change to the users.
pub ghost enum Change {
    Noted { user: User, key: Seq<char>, now: Seq<char> },
    Authorized { key: Seq<char> },
    Counted { key: Seq<char>, now: Seq<char> },
}

/// The users after a change.
pub open spec fn changed(users: Users, change: Change) -> Users {
    match change {
        Change::Noted { user, key, now } => noted(users, user, key, now),
        Change::Authorized { key } => authorized(users, key),
        Change::Counted { key, now } => counted(users, key, now),
    }
}

/// The users after a history of changes.
pub open spec fn replayed(users: Users, history: Seq<Change>) -> Users
    decreases history.len(),
{
    if history.len() == 0 {
        users
    } else {
        changed(replayed(users, history.drop_last()), history.last())
    }
}

/// Whom a change is about.
pub open spec fn subject(change: Change) -> Seq<char> {
    match change {
        Change::Noted { key, .. } => key,
        Change::Authorized { key } => key,
        Change::Counted { key, .. } => key,
    }
}

/// Nobody is given access in the history under `key`.
pub open spec fn never_authorized(history: Seq<Change>, key: Seq<char>) -> bool {
    forall|i: int|
        0 <= i < history.len() ==> (#[trigger] history[i]) != (Change::Authorized { key })
}

/// Access stays as it was, given or not, until it is given.
pub proof fn law_access_stays(users: Users, history: Seq<Change>, key: Seq<char>)
    requires
        never_authorized(history, key),
    ensures
        may_use(replayed(users, history), key) == may_use(users, key),
    decreases history.len(),
{
    if history.len() > 0 {
        let earlier = history.drop_last();
        assert forall|i: int| 0 <= i < earlier.len() implies (#[trigger] earlier[i]) != (
        Change::Authorized { key }) by {
            assert(history[i] != (Change::Authorized { key }));
        }
        assert(history[history.len() - 1] != (Change::Authorized { key }));
        law_access_stays(users, earlier, key);
    }
}

/// Once known, a user stays known: who they are and when they first came never
/// changes, access once given is never taken back, and access never given stays
/// away.
pub proof fn law_users_kept(users: Users, history: Seq<Change>, key: Seq<char>)
    requires
        users.contains_key(key),
    ensures
        ({
            let after = replayed(users, history);
            &&& after.contains_key(key)
            &&& after[key].id == users[key].id
            &&& after[key].username == users[key].username
            &&& after[key].first_name == users[key].first_name
            &&& after[key].language_code == users[key].language_code
            &&& after[key].first_use == users[key].first_use
            &&& may_use(users, key) ==> may_use(after, key)
            &&& never_authorized(history, key) ==> may_use(after, key) == may_use(users, key)
        }),
    decreases history.len(),
{
    if history.len() > 0 {
        law_users_kept(users, history.drop_last(), key);
    }
    if never_authorized(history, key) {
        law_access_stays(users, history, key);
    }
}

/// A change leaves everybody alone whom it is not about.
pub proof fn law_others_untouched(users: Users, change: Change, key: Seq<char>)
    requires
        key != subject(change),
    ensures
        changed(users, change).contains_key(key) == users.contains_key(key),
        users.contains_key(key) ==> changed(users, change)[key] == users[key],
{
}

/// Whoever is noted twice is told the same both times, unless they were given
/// access in between.
pub proof fn law_notings_agree(
    users: Users,
    user: User,
    key: Seq<char>,
    now: Seq<char>,
    history: Seq<Change>,
)
    requires
        never_authorized(history, key),
    ensures
        may_use(replayed(noted(users, user, key, now), history), key) == may_use(users, key),
{
    law_access_stays(noted(users, user, key, now), history, key);
}

/// Nobody gets access but by being given it: from an empty table, whoever may
/// use the bot was authorized at some point.
pub proof fn law_access_is_given(history: Seq<Change>, key: Seq<char>)
    requires
        may_use(replayed(Map::empty(), history), key),
    ensures
        exists|i: int|
            0 <= i < history.len() && #[trigger] history[i] == (Change::Authorized { key }),
    decreases history.len(),
{
    if history.len() > 0 {
        let earlier = history.drop_last();
        if may_use(replayed(Map::empty(), earlier), key) {
            law_access_is_given(earlier, key);
            let i = choose|i: int|
                0 <= i < earlier.len() && #[trigger] earlier[i] == (Change::Authorized { key });
            assert(history[i] == (Change::Authorized { key }));
        } else {
            assert(history[history.len() - 1] == (Change::Authorized { key }));
        }
    }
}

/// Authorizing somebody known gives them access. Somebody unknown is not made
/// known by it: nothing changes.
pub proof fn law_authorizing_the_known(users: Users, key: Seq<char>)
    ensures
        may_use(authorized(users, key), key) == users.contains_key(key),
        !users.contains_key(key) ==> authorized(users, key) == users,
{
}

/// A login lasts: whoever sends a message and is then authorized is let in by
/// every later message, whatever happens in between.
pub proof fn law_login_lasts(
    users: Users,
    user: User,
    key: Seq<char>,
    now: Seq<char>,
    history: Seq<Change>,
)
    ensures
        may_use(replayed(authorized(noted(users, user, key, now), key), history), key),
{
    law_users_kept(authorized(noted(users, user, key, now), key), history, key);
}

/// Every known user has as many downloads counted as logged.
pub open spec fn counts_match(users: Users, logs: Logs) -> bool {
    forall|key: Seq<char>| #[trigger]
        users.contains_key(key) ==> users[key].download_count == (if logs.contains_key(key) {
            logs[key].len()
        } else {
            0
        })
}

/// Counts and log stay in step: through notes of people who are known or have
/// nothing logged, through authorizations, and through a download that is
/// logged and then counted for somebody known.
pub proof fn law_counts_match(
    users: Users,
    logs: Logs,
    user: User,
    key: Seq<char>,
    url: Seq<char>,
    now: Seq<char>,
)
    requires
        counts_match(users, logs),
    ensures
        counts_match(Map::empty(), Map::empty()),
        users.contains_key(key) || !logs.contains_key(key) ==> counts_match(
            noted(users, user, key, now),
            logs,
        ),
        counts_match(authorized(users, key), logs),
        users.contains_key(key) && countable(users, key) ==> counts_match(
            counted(users, key, now),
            logged(logs, key, url, now),
        ),
{
}

/// The log after `key` has made these downloads, one after the other.
pub open spec fn all_logged(logs: Logs, key: Seq<char>, downloads: Seq<DownloadEntry>) -> Logs
    decreases downloads.len(),
{
    if downloads.len() == 0 {
        logs
    } else {
        logged(
            all_logged(logs, key, downloads.drop_last()),
            key,
            downloads.last().url,
            downloads.last().timestamp,
        )
    }
}

/// The users after these downloads of `key` have been counted, one after the
/// other.
pub open spec fn all_counted(users: Users, key: Seq<char>, downloads: Seq<DownloadEntry>) -> Users
    decreases downloads.len(),
{
    if downloads.len() == 0 {
        users
    } else {
        counted(
            all_counted(users, key, downloads.drop_last()),
            key,
            downloads.last().timestamp,
        )
    }
}

/// Downloads add up: the log of the user grows by all of them, in their order,
/// and the count by their number, as far as it can be counted. The last use is
/// that of the last download, and the user's access and everybody else's log and
/// record stay as they were.
pub proof fn law_downloads_add_up(
    users: Users,
    logs: Logs,
    key: Seq<char>,
    downloads: Seq<DownloadEntry>,
    other: Seq<char>,
)
    requires
        users.contains_key(key),
        users[key].download_count + downloads.len() <= u32::MAX,
        other != key,
    ensures
        ({
            let after = all_counted(users, key, downloads);
            let log = all_logged(logs, key, downloads);
            &&& downloads_of(log, key) == downloads_of(logs, key) + downloads
            &&& after.contains_key(key)
            &&& after[key] == UserEntry {
                download_count: (users[key].download_count + downloads.len()) as u32,
                last_use: if downloads.len() == 0 {
                    users[key].last_use
                } else {
                    downloads.last().timestamp
                },
                ..users[key]
            }
            &&& downloads_of(log, other) == downloads_of(logs, other)
            &&& after.contains_key(other) == users.contains_key(other)
            &&& users.contains_key(other) ==> after[other] == users[other]
        }),
    decreases downloads.len(),
{
    if downloads.len() > 0 {
        law_downloads_add_up(users, logs, key, downloads.drop_last(), other);
        assert(downloads_of(logs, key) + downloads == (downloads_of(logs, key)
            + downloads.drop_last()).push(downloads.last()));
    } else {
        assert(downloads_of(logs, key) + downloads == downloads_of(logs, key));
    }
}

/// A record is known by its view: records that look alike are alike in every
/// field.
pub proof fn law_records_by_view(a: UserRecord, b: UserRecord, c: DownloadRecord, d: DownloadRecord)
    ensures
        a.deep_view() == b.deep_view() ==> {
            &&& a.id == b.id
            &&& a.username.deep_view() == b.username.deep_view()
            &&& a.first_name@ == b.first_name@
            &&& a.language_code.deep_view() == b.language_code.deep_view()
            &&& a.first_use@ == b.first_use@
            &&& a.last_use@ == b.last_use@
            &&& a.download_count == b.download_count
            &&& a.is_authorized == b.is_authorized
        },
        a.deep_view().is_authorized == a.is_authorized,
        a.deep_view().download_count == a.download_count,
        a.deep_view().last_use == a.last_use@,
        a.deep_view().first_use == a.first_use@,
        a.deep_view().first_name == a.first_name@,
        a.deep_view().id == a.id,
        c.deep_view() == d.deep_view() ==> c.url@ == d.url@ && c.timestamp@ == d.timestamp@,
        c.deep_view().url == c.url@,
        c.deep_view().timestamp == c.timestamp@,
{
}

/// What a message leaves in the table: the record of the sender has its time as
/// the last use, whether they are new or known, with access or without. All else
/// stays in the record of somebody known; that of a newcomer is made of who they
/// are, and says that they came now, have downloaded nothing, and have no access.
pub proof fn law_message_is_noted(users: Users, user: User, key: Seq<char>, now: Seq<char>)
    ensures
        ({
            let after = noted(users, user, key, now);
            let record = after[key];
            &&& after.dom() == users.dom().insert(key)
            &&& forall|other: Seq<char>|
                other != key && users.contains_key(other) ==> #[trigger] after[other]
                    == users[other]
            &&& record.last_use == now
            &&& users.contains_key(key) ==> {
                &&& record.id == users[key].id
                &&& record.username == users[key].username
                &&& record.first_name == users[key].first_name
                &&& record.language_code == users[key].language_code
                &&& record.first_use == users[key].first_use
                &&& record.download_count == users[key].download_count
                &&& record.is_authorized == users[key].is_authorized
            }
            &&& !users.contains_key(key) ==> {
                &&& record.id == user.id
                &&& record.username == user.username.deep_view()
                &&& record.first_name == user.first_name@
                &&& record.language_code == user.language_code.deep_view()
                &&& record.first_use == now
                &&& record.download_count == 0
                &&& !record.is_authorized
            }
        }),
{
    let after = noted(users, user, key, now);
    assert(after.dom() =~= users.dom().insert(key));
}

/// What giving access leaves in the table: the record of the user has it, whoever
/// they are, and is the same but for that; so are all others, and nobody is
/// added.
pub proof fn law_access_is_entered(users: Users, key: Seq<char>)
    ensures
        ({
            let after = authorized(users, key);
            let record = after[key];
            &&& after.dom() == users.dom()
            &&& forall|other: Seq<char>|
                other != key && users.contains_key(other) ==> #[trigger] after[other]
                    == users[other]
            &&& users.contains_key(key) ==> {
                &&& record.is_authorized
                &&& record.id == users[key].id
                &&& record.username == users[key].username
                &&& record.first_name == users[key].first_name
                &&& record.language_code == users[key].language_code
                &&& record.first_use == users[key].first_use
                &&& record.last_use == users[key].last_use
                &&& record.download_count == users[key].download_count
            }
        }),
{
    assert(authorized(users, key).dom() =~= users.dom());
}

/// What counting a download leaves in the table: the record of the user, if they
/// are known, has one more and the time of it as the last use, and is the same
/// but for that; so are all others, and nobody is added.
pub proof fn law_download_is_counted(users: Users, key: Seq<char>, now: Seq<char>)
    requires
        users.contains_key(key) ==> users[key].download_count < 0xffff_ffff,
    ensures
        ({
            let after = counted(users, key, now);
            let record = after[key];
            &&& after.dom() == users.dom()
            &&& forall|other: Seq<char>|
                other != key && users.contains_key(other) ==> #[trigger] after[other]
                    == users[other]
            &&& users.contains_key(key) ==> {
                &&& record.download_count == users[key].download_count + 1
                &&& record.last_use == now
                &&& record.is_authorized == users[key].is_authorized
                &&& record.id == users[key].id
                &&& record.username == users[key].username
                &&& record.first_name == users[key].first_name
                &&& record.language_code == users[key].language_code
                &&& record.first_use == users[key].first_use
            }
        }),
{
    assert(counted(users, key, now).dom() =~= users.dom());
}

/// A download can be counted unless the count is at its end.
pub proof fn law_countable(users: Users, key: Seq<char>)
    ensures
        !users.contains_key(key) ==> countable(users, key),
        users.contains_key(key) ==> (countable(users, key) <==> users[key].download_count + 1
            <= 0xffff_ffff),
{
}

/// What entering a download leaves in the log: the list of the user has one more
/// entry at its end, with the link and the time, and is the same up to there;
/// all other lists are the same.
pub proof fn law_download_is_logged(logs: Logs, key: Seq<char>, url: Seq<char>, now: Seq<char>)
    ensures
        ({
            let after = logged(logs, key, url, now);
            let list = after[key];
            &&& after.dom() == logs.dom().insert(key)
            &&& forall|other: Seq<char>|
                other != key && logs.contains_key(other) ==> #[trigger] after[other] == logs[other]
            &&& list.len() > 0
            &&& list.last().url == url
            &&& list.last().timestamp == now
            &&& logs.contains_key(key) ==> list.drop_last() == logs[key]
            &&& !logs.contains_key(key) ==> list.len() == 1
        }),
{
    let after = logged(logs, key, url, now);
    assert(after.dom() =~= logs.dom().insert(key));
    assert(after[key].drop_last() =~= downloads_of(logs, key));
}

/// Who may use the bot: whoever has a record that says so, and nobody without
/// one.
pub proof fn law_may_use(users: Users, key: Seq<char>, record: UserEntry)
    ensures
        may_use(users.insert(key, record), key) == record.is_authorized,
        !may_use(users.remove(key), key),
{
}

} // verus!
