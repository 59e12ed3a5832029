//! Where the `Authorization` header for upstream calls comes from: a fixed
//! user and password, or a cookie file that is read again whenever it changes.
use vstd::prelude::*;
use vstd::string::{StrSliceExecFns, StringExecFns};

verus! {

/// The standard base64 text, with padding, of the UTF-8 bytes of a string.
pub uninterp spec fn base64_text(s: Seq<char>) -> Seq<char>;

/// Relies on base64::encode, which encodes with the standard alphabet and
/// padding; the result depends on the input alone, and nothing encodes to
/// nothing.
#[verifier::external_body]
fn encode_base64(s: &str) -> (r: String)
    ensures
        r@ == base64_text(s@),
        s@.len() == 0 ==> r@.len() == 0,
{
    base64::encode(s)
}

/// The header value for credentials `s`.
pub open spec fn basic_header(s: Seq<char>) -> Seq<char> {
    "Basic "@ + base64_text(s)
}

/// A cookie file's text without one trailing newline.
pub open spec fn cookie_text(contents: Seq<char>) -> Seq<char> {
    if contents.len() > 0 && contents.last() == '\n' {
        contents.drop_last()
    } else {
        contents
    }
}

/// The header value for a cookie file's text.
pub open spec fn cookie_header(contents: Seq<char>) -> Seq<char> {
    basic_header(cookie_text(contents))
}

/// When a file was last modified, as seconds and nanoseconds since the Unix
/// epoch.
#[derive(Debug, Clone, Copy, PartialEq, Eq, Structural)]
pub struct FileTime {
    pub secs: u64,
    pub nanos: u32,
}

/// A header read from the cookie file, with the modification time the file
/// had when it was read.
#[derive(Debug, Clone)]
pub struct CookieSnapshot {
    pub modified: FileTime,
    pub header: String,
}

/// Where the credentials come from.
#[derive(Debug)]
pub enum AuthSource {
    Const { username: String, password: String, header: String },
    CookieFile { path: String },
}

/// Why a configuration names no usable credentials.
#[derive(Debug, PartialEq, Eq, Structural)]
pub enum ConfigError {
    /// Neither a password nor a cookie file.
    Missing,
    /// A cookie file together with a user or password, or only one of a
    /// user and a password.
    Conflicting,
}

impl ConfigError {
    pub fn message(&self) -> (r: String)
        ensures
            *self == ConfigError::Missing ==> r@ == "missing authentication information"@,
            *self == ConfigError::Conflicting ==> r@
                == "either a password and possibly a username or a cookie file must be specified"@,
    {
        match self {
            ConfigError::Missing => "missing authentication information".to_owned(),
            ConfigError::Conflicting => "either a password and possibly a username or a cookie file must be specified".to_owned(),
        }
    }
}

/// What the next load does: hand out the cached header, or read the file.
#[derive(Debug)]
pub enum LoadStep {
    Cached(String),
    Read,
}

/// A cached header is good while the file's modification time is the one it
/// was read at.
pub open spec fn cache_fresh(cached: Option<CookieSnapshot>, modified: FileTime) -> bool {
    cached matches Some(c) && c.modified == modified
}

impl AuthSource {
    /// Builds the source from a user and password, or from a cookie file:
    /// exactly one of the two must be given.
    pub fn from_config(user: Option<String>, password: Option<String>, file: Option<String>) -> (r: Result<
        AuthSource,
        ConfigError,
    >)
        ensures
            match (user, password, file) {
                (Some(u), Some(p), None) => r matches Ok(AuthSource::Const { username, password, header })
                    && username == u && password == p && header@ == basic_header(u@ + ":"@ + p@),
                (None, None, Some(f)) => r matches Ok(AuthSource::CookieFile { path }) && path == f,
                (None, None, None) => r == Err::<AuthSource, ConfigError>(ConfigError::Missing),
                _ => r == Err::<AuthSource, ConfigError>(ConfigError::Conflicting),
            },
    {
        match (user, password, file) {
            (Some(username), Some(password), None) => {
                let joined = username.clone().concat(":").concat(password.as_str());
                let header = "Basic ".to_owned().concat(encode_base64(joined.as_str()).as_str());
                Ok(AuthSource::Const { username, password, header })
            },
            (None, None, Some(path)) => Ok(AuthSource::CookieFile { path }),
            (None, None, None) => Err(ConfigError::Missing),
            _ => Err(ConfigError::Conflicting),
        }
    }

    /// The fixed header, for a source that has one.
    pub fn const_header(&self) -> (r: Option<String>)
        ensures
            match self {
                AuthSource::Const { header, .. } => r is Some && r->0@ == header@,
                AuthSource::CookieFile { .. } => r is None,
            },
    {
        match self {
            AuthSource::Const { header, .. } => Some(header.clone()),
            AuthSource::CookieFile { .. } => None,
        }
    }

    /// The cookie file, for a source that reads one.
    pub fn cookie_path(&self) -> (r: Option<&String>)
        ensures
            match self {
                AuthSource::Const { .. } => r is None,
                AuthSource::CookieFile { path } => r == Some(path),
            },
    {
        match self {
            AuthSource::Const { .. } => None,
            AuthSource::CookieFile { path } => Some(path),
        }
    }
}

/// Decides a load of the cookie header, given the cached snapshot and the
/// file's modification time now: the cached header while it is fresh, else a
/// read of the file.
pub fn load_step(cached: &Option<CookieSnapshot>, modified: FileTime) -> (r: LoadStep)
    ensures
        cache_fresh(*cached, modified) <==> r is Cached,
        r matches LoadStep::Cached(h) ==> h@ == cached->0.header@,
{
    match cached {
        Some(c) => {
            if c.modified == modified {
                LoadStep::Cached(c.header.clone())
            } else {
                LoadStep::Read
            }
        },
        None => LoadStep::Read,
    }
}

/// The header for a cookie file's text.
pub fn header_from_cookie(contents: &str) -> (r: String)
    ensures
        r@ == cookie_header(contents@),
{
    let n = contents.unicode_len();
    let text = if n > 0 && contents.get_char(n - 1) == '\n' {
        contents.substring_char(0, n - 1)
    } else {
        contents
    };
    proof {
        if n > 0 && contents@.last() == '\n' {
            assert(text@ =~= contents@.drop_last());
        }
    }
    "Basic ".to_owned().concat(encode_base64(text).as_str())
}

/// The snapshot after reading the file at modification time `modified`.
pub fn refresh(modified: FileTime, contents: &str) -> (r: CookieSnapshot)
    ensures
        r.modified == modified,
        r.header@ == cookie_header(contents@),
{
    CookieSnapshot { modified, header: header_from_cookie(contents) }
}

/// After the file was read at modification time `read_at`, a later load at
/// time `now` hands out the header of what was read, without reading the file
/// again, if and only if `now == read_at`; at any other time it reads again.
pub proof fn lemma_cookie_reread_on_change(
    snap: CookieSnapshot,
    read_at: FileTime,
    contents: Seq<char>,
    now: FileTime,
)
    requires
        snap.modified == read_at,
        snap.header@ == cookie_header(contents),
    ensures
        cache_fresh(Some(snap), now) <==> now == read_at,
        cache_fresh(Some(snap), now) ==> Some(snap)->0.header@ == cookie_header(contents),
{
}

} // verus!
