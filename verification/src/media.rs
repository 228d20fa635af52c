//! Media files: where a download lands, and how the two tools that make them
//! are called.
use vstd::prelude::*;
use vstd::string::{StrSliceExecFns, StringExecFns};

use crate::clock::{formatted_text, stamp_like, UtcTime};
use crate::text::{
    all_digits, chars_of, decimal, is_digit, law_decimal_injective, lemma_decimal,
};

verus! {

/// The directory of all media files.
pub const DOWNLOAD_DIR: &'static str = "downloads";

/// The program that downloads.
pub const DOWNLOADER: &'static str = "./yt-dlp";

/// The program that compresses.
pub const ENCODER: &'static str = "ffmpeg";

/// The two files of a download.
#[derive(Clone, Copy, PartialEq, Eq, Structural)]
pub enum Media {
    /// As it was downloaded.
    Raw,
    /// Made smaller to fit the limit.
    Compressed,
}

/// A file of the download that began at `started`.
#[derive(Clone, Copy)]
pub struct MediaFile {
    pub media: Media,
    pub started: UtcTime,
}

/// What the name of a file ends with.
pub open spec fn suffix(media: Media) -> Seq<char> {
    match media {
        Media::Raw => "_raw.mp4"@,
        Media::Compressed => "_final.mp4"@,
    }
}

/// The name of a file: the key of the user, the stamp of the download, and the
/// kind of the file.
pub open spec fn stamped_name(uid_key: Seq<char>, stamp: Seq<char>, media: Media) -> Seq<char> {
    uid_key + "_"@ + stamp + suffix(media)
}

/// The name of a file of the download that began at its time.
pub open spec fn media_name(uid_key: Seq<char>, file: MediaFile) -> Seq<char> {
    stamped_name(uid_key, file.started.spec_stamp(), file.media)
}

/// The path that a name leads to from the download directory: one that begins
/// with a slash is a path from the root and leads away from it.
pub open spec fn from_download_dir(name: Seq<char>) -> Seq<char> {
    if name.len() > 0 && name[0] == '/' {
        name
    } else {
        DOWNLOAD_DIR@ + "/"@ + name
    }
}

/// The path of a file of the download that began at its time.
pub open spec fn media_path(uid_key: Seq<char>, file: MediaFile) -> Seq<char> {
    from_download_dir(media_name(uid_key, file))
}

/// What stands behind the last slash of a path; all of it where it has none.
pub open spec fn after_last_slash(path: Seq<char>) -> Seq<char>
    decreases path.len(),
{
    if path.len() == 0 || path.last() == '/' {
        Seq::empty()
    } else {
        after_last_slash(path.drop_last()).push(path.last())
    }
}

/// What the downloader is called with: the cookie file first, where there is
/// one.
pub open spec fn download_args(url: Seq<char>, output: Seq<char>, cookies: Option<Seq<char>>) -> Seq<
    Seq<char>,
> {
    let args = seq!["-o"@, output, "--merge-output-format"@, "mp4"@, "--newline"@, url];
    match cookies {
        Some(path) => seq!["--cookies"@, path] + args,
        None => args,
    }
}

/// What the encoder is called with.
pub open spec fn encode_args(input: Seq<char>, output: Seq<char>) -> Seq<Seq<char>> {
    seq![
        "-i"@,
        input,
        "-vf"@,
        "scale=-2:480"@,
        "-c:v"@,
        "libx264"@,
        "-preset"@,
        "fast"@,
        "-crf"@,
        "28"@,
        "-c:a"@,
        "aac"@,
        "-b:a"@,
        "128k"@,
        "-movflags"@,
        "+faststart"@,
        "-threads"@,
        "0"@,
        "-y"@,
        output,
    ]
}

/// The name of a file. With a key of digits and the characters of a stamp it has
/// no slash in it.
pub fn name_with_stamp(uid_key: &str, stamp: &str, media: Media) -> (r: String)
    ensures
        r@ == stamped_name(uid_key@, stamp@, media),
        all_digits(uid_key@) && stamp_like(stamp@) ==> !r@.contains('/'),
{
    let mut r = uid_key.to_owned();
    r.append("_");
    r.append(stamp);
    match media {
        Media::Raw => r.append("_raw.mp4"),
        Media::Compressed => r.append("_final.mp4"),
    }
    proof {
        reveal_strlit("_");
        reveal_strlit("_raw.mp4");
        reveal_strlit("_final.mp4");
        if all_digits(uid_key@) && stamp_like(stamp@) {
            assert forall|i: int| 0 <= i < r@.len() implies r@[i] != '/' by {
                let k = uid_key@.len() as int;
                let n = stamp@.len() as int;
                if i < k {
                    assert(r@[i] == uid_key@[i]);
                } else if i == k {
                    assert(r@[i] == '_');
                } else if i < k + 1 + n {
                    assert(r@[i] == stamp@[i - k - 1]);
                } else {
                    assert(r@[i] == suffix(media)[i - k - 1 - n]);
                }
            }
        }
    }
    r
}

/// The name of a file of the download that began at its time. With a key of
/// digits it has no slash in it, so that the file lies in the download directory
/// itself.
pub fn name_of(uid_key: &str, file: MediaFile) -> (r: String)
    requires
        file.started.valid(),
    ensures
        r@ == media_name(uid_key@, file),
        all_digits(uid_key@) ==> !r@.contains('/'),
{
    name_with_stamp(uid_key, file.started.stamp().as_str(), file.media)
}

/// The path that a name leads to from the download directory.
pub fn path_to(name: &str) -> (r: String)
    ensures
        r@ == from_download_dir(name@),
{
    if name.unicode_len() > 0 && name.get_char(0) == '/' {
        return name.to_owned();
    }
    let mut r = DOWNLOAD_DIR.to_owned();
    r.append("/");
    r.append(name);
    r
}

/// The path of a file of the download that began at its time.
pub fn path_of(uid_key: &str, file: MediaFile) -> (r: String)
    requires
        file.started.valid(),
    ensures
        r@ == media_path(uid_key@, file),
{
    path_to(name_of(uid_key, file).as_str())
}

/// What has no slash comes whole behind the last one before it.
proof fn lemma_behind_the_slash(dir: Seq<char>, name: Seq<char>)
    requires
        dir.len() > 0 ==> dir.last() == '/',
        !name.contains('/'),
    ensures
        after_last_slash(dir + name) == name,
    decreases name.len(),
{
    if name.len() > 0 {
        let shorter = name.drop_last();
        assert forall|i: int| 0 <= i < shorter.len() implies shorter[i] != '/' by {
            assert(name[i] != '/');
        }
        assert(name[name.len() - 1] != '/');
        lemma_behind_the_slash(dir, shorter);
        assert((dir + name).drop_last() == dir + shorter);
        assert(shorter.push(name.last()) == name);
    } else {
        assert(dir + name == dir);
    }
}

/// What stands behind the last slash of a path.
pub fn tail_of(path: &str) -> (r: String)
    ensures
        r@ == after_last_slash(path@),
{
    let chars = chars_of(path);
    let mut from: usize = chars.len();
    while from > 0 && chars[from - 1] != '/'
        invariant
            chars@ == path@,
            from <= chars@.len(),
            forall|i: int| from <= i < chars@.len() ==> chars@[i] != '/',
        decreases from,
    {
        from -= 1;
    }
    let r = path.substring_char(from, chars.len()).to_owned();
    proof {
        let dir = path@.take(from as int);
        assert(dir + r@ == path@);
        assert forall|i: int| 0 <= i < r@.len() implies r@[i] != '/' by {
            assert(r@[i] == chars@[from + i]);
        }
        lemma_behind_the_slash(dir, r@);
    }
    r
}

/// The last part of the path of a file of the download that began at its time.
/// With a key of digits it is the name of the file.
pub fn file_name_of(uid_key: &str, file: MediaFile) -> (r: String)
    requires
        file.started.valid(),
    ensures
        r@ == after_last_slash(media_path(uid_key@, file)),
        all_digits(uid_key@) ==> r@ == media_name(uid_key@, file),
{
    let name = name_of(uid_key, file);
    proof {
        reveal_strlit("/");
        if all_digits(uid_key@) {
            assert(!name@.contains('/'));
            assert(name@.len() > 0 ==> name@[0] != '/');
            lemma_behind_the_slash(DOWNLOAD_DIR@ + "/"@, name@);
        }
    }
    tail_of(path_to(name.as_str()).as_str())
}

/// What the downloader is called with.
pub fn downloader_args(url: &str, output: &str, cookies: Option<&str>) -> (r: Vec<String>)
    ensures
        r.deep_view() == download_args(
            url@,
            output@,
            match cookies {
                Some(path) => Some(path@),
                None => None,
            },
        ),
{
    let mut r: Vec<String> = Vec::new();
    if let Some(path) = cookies {
        r.push("--cookies".to_owned());
        r.push(path.to_owned());
    }
    r.push("-o".to_owned());
    r.push(output.to_owned());
    r.push("--merge-output-format".to_owned());
    r.push("mp4".to_owned());
    r.push("--newline".to_owned());
    r.push(url.to_owned());
    r
}

/// What the encoder is called with.
pub fn encoder_args(input: &str, output: &str) -> (r: Vec<String>)
    ensures
        r.deep_view() == encode_args(input@, output@),
{
    let mut r: Vec<String> = Vec::new();
    r.push("-i".to_owned());
    r.push(input.to_owned());
    r.push("-vf".to_owned());
    r.push("scale=-2:480".to_owned());
    r.push("-c:v".to_owned());
    r.push("libx264".to_owned());
    r.push("-preset".to_owned());
    r.push("fast".to_owned());
    r.push("-crf".to_owned());
    r.push("28".to_owned());
    r.push("-c:a".to_owned());
    r.push("aac".to_owned());
    r.push("-b:a".to_owned());
    r.push("128k".to_owned());
    r.push("-movflags".to_owned());
    r.push("+faststart".to_owned());
    r.push("-threads".to_owned());
    r.push("0".to_owned());
    r.push("-y".to_owned());
    r.push(output.to_owned());
    r
}

/// The first underscore ends the key of the user.
proof fn lemma_key_ends(a: Seq<char>, x: Seq<char>, b: Seq<char>, y: Seq<char>)
    requires
        all_digits(a),
        all_digits(b),
        a + "_"@ + x == b + "_"@ + y,
    ensures
        a == b,
{
    reveal_strlit("_");
    let s = a + "_"@ + x;
    assert(s[a.len() as int] == '_');
    assert(s[b.len() as int] == '_') by {
        assert((b + "_"@ + y)[b.len() as int] == '_');
    }
    if a.len() < b.len() {
        assert((b + "_"@ + y)[a.len() as int] == b[a.len() as int]);
        assert(is_digit(b[a.len() as int]));
    }
    if b.len() < a.len() {
        assert(s[b.len() as int] == a[b.len() as int]);
        assert(is_digit(a[b.len() as int]));
    }
    assert forall|i: int| 0 <= i < a.len() implies a[i] == b[i] by {
        assert(s[i] == a[i]);
        assert((b + "_"@ + y)[i] == b[i]);
    }
    assert(a =~= b);
}

/// A key of digits leads into the download directory.
proof fn lemma_digits_stay(uid_key: Seq<char>, file: MediaFile)
    requires
        all_digits(uid_key),
        uid_key.len() > 0,
    ensures
        media_path(uid_key, file) == DOWNLOAD_DIR@ + "/"@ + media_name(uid_key, file),
{
    assert(media_name(uid_key, file)[0] == uid_key[0]);
    assert(is_digit(uid_key[0]));
}

/// Downloads of different users never share a file, whenever they began.
pub proof fn law_users_share_no_file(a: u64, f: MediaFile, b: u64, g: MediaFile)
    requires
        media_path(decimal(a as nat), f) == media_path(decimal(b as nat), g),
    ensures
        a == b,
{
    lemma_decimal(a as nat);
    lemma_decimal(b as nat);
    let dir = DOWNLOAD_DIR@ + "/"@;
    let m = media_name(decimal(a as nat), f);
    let n = media_name(decimal(b as nat), g);
    lemma_digits_stay(decimal(a as nat), f);
    lemma_digits_stay(decimal(b as nat), g);
    assert((dir + m).skip(dir.len() as int) == m);
    assert((dir + n).skip(dir.len() as int) == n);
    let x = f.started.spec_stamp() + suffix(f.media);
    let y = g.started.spec_stamp() + suffix(g.media);
    assert(m == decimal(a as nat) + "_"@ + x);
    assert(n == decimal(b as nat) + "_"@ + y);
    lemma_key_ends(decimal(a as nat), x, decimal(b as nat), y);
    law_decimal_injective(a as nat, b as nat);
}

/// No download's raw file is any download's compressed file.
pub proof fn law_raw_is_not_compressed(a: Seq<char>, f: MediaFile, b: Seq<char>, g: MediaFile)
    requires
        f.media is Raw,
        g.media is Compressed,
    ensures
        media_path(a, f) != media_path(b, g),
{
    reveal_strlit("_raw.mp4");
    reveal_strlit("_final.mp4");
    let p = media_path(a, f);
    let q = media_path(b, g);
    assert(p[p.len() - 5] == 'w');
    assert(q[q.len() - 5] == 'l');
}

/// The cookie file, where there is one, is handed to the downloader before all
/// else, whatever the link and the output are; the rest of the call is the one
/// without it.
pub proof fn law_cookies_come_first(url: Seq<char>, output: Seq<char>, path: Seq<char>)
    ensures
        download_args(url, output, Some(path)) == seq!["--cookies"@, path] + download_args(
            url,
            output,
            None,
        ),
{
}

/// Calls of the downloader differ in the link and the output alone: the one
/// follows "-o", the other ends the call, and between them an MP4 file and a
/// line for each report are asked for.
pub proof fn law_downloader_calls(url: Seq<char>, output: Seq<char>, u: Seq<char>, o: Seq<char>)
    ensures
        ({
            let call = download_args(url, output, None);
            let other = download_args(u, o, None);
            &&& call.len() == 6
            &&& call[0] == "-o"@ && call[1] == output && call.last() == url
            &&& call.subrange(2, 5) == seq!["--merge-output-format"@, "mp4"@, "--newline"@]
            &&& other == call.update(1, o).update(5, u)
        }),
{
}

/// Calls of the encoder differ in the files alone: the input follows "-i", and
/// the output ends the call.
pub proof fn law_encoder_calls(input: Seq<char>, output: Seq<char>, i: Seq<char>, o: Seq<char>)
    ensures
        ({
            let call = encode_args(input, output);
            let other = encode_args(i, o);
            &&& call.len() == 20
            &&& call[0] == "-i"@ && call[1] == input && call.last() == output
            &&& call.subrange(2, 10) == seq![
                "-vf"@,
                "scale=-2:480"@,
                "-c:v"@,
                "libx264"@,
                "-preset"@,
                "fast"@,
                "-crf"@,
                "28"@,
            ]
            &&& call.subrange(10, 19) == seq![
                "-c:a"@,
                "aac"@,
                "-b:a"@,
                "128k"@,
                "-movflags"@,
                "+faststart"@,
                "-threads"@,
                "0"@,
                "-y"@,
            ]
            &&& other == call.update(1, i).update(19, o)
        }),
{
}

/// A name is made of the key, the stamp and the ending of its kind, whatever
/// they are, with an underscore behind the key.
pub proof fn law_names(uid_key: Seq<char>, file: MediaFile)
    ensures
        ({
            let name = media_name(uid_key, file);
            let ending = if file.media is Raw {
                "_raw.mp4"@
            } else {
                "_final.mp4"@
            };
            name == uid_key + "_"@ + formatted_text(
                file.started.secs as int,
                file.started.nanos as int,
                "%Y%m%d_%H%M%S"@,
            ) + ending
        }),
{
}

/// A file lies in the download directory, unless its key begins with a slash:
/// then its path is its name.
pub proof fn law_paths(uid_key: Seq<char>, file: MediaFile)
    ensures
        uid_key.len() > 0 && uid_key[0] == '/' ==> media_path(uid_key, file) == media_name(
            uid_key,
            file,
        ),
        uid_key.len() == 0 || uid_key[0] != '/' ==> media_path(uid_key, file) == "downloads/"@
            + media_name(uid_key, file),
{
    reveal_strlit("_");
    reveal_strlit("/");
    reveal_strlit("downloads");
    reveal_strlit("downloads/");
    let name = media_name(uid_key, file);
    assert("downloads"@ + "/"@ == "downloads/"@);
    if uid_key.len() > 0 {
        assert(name[0] == uid_key[0]);
    } else {
        assert(name[0] == '_');
    }
}

/// What stands behind the last slash: it has no slash itself, and all before it
/// ends with one, if there is anything before it.
pub proof fn law_after_last_slash(path: Seq<char>)
    ensures
        !after_last_slash(path).contains('/'),
        exists|dir: Seq<char>|
            path == #[trigger] (dir + after_last_slash(path)) && (dir.len() > 0 ==> dir.last()
                == '/'),
    decreases path.len(),
{
    if path.len() == 0 || path.last() == '/' {
        assert(path == path + after_last_slash(path));
    } else {
        let shorter = path.drop_last();
        law_after_last_slash(shorter);
        let dir = choose|dir: Seq<char>|
            shorter == #[trigger] (dir + after_last_slash(shorter)) && (dir.len() > 0 ==> dir.last()
                == '/');
        let tail = after_last_slash(path);
        assert(path == shorter.push(path.last()));
        assert(path == dir + tail);
        assert forall|i: int| 0 <= i < tail.len() implies tail[i] != '/' by {
            if i < after_last_slash(shorter).len() {
                assert(tail[i] == after_last_slash(shorter)[i]);
            }
        }
    }
}

} // verus!
