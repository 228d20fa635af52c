//! The settings of the bot, as the environment gives them.
use vstd::prelude::*;

use crate::progress::text_of;
use crate::text::{law_numbers_read, parse_u64, u64_value, writes};

verus! {

/// The password where none is set.
pub const DEFAULT_PASSWORD: &'static str = "admin123";

/// The limit on file sizes, in megabytes, where none is set, or none that can be
/// read.
pub const DEFAULT_LIMIT_MB: u64 = 50;

/// The cookie file of the downloader.
pub const COOKIES_FILE: &'static str = "cookies.txt";

/// Why the bot cannot start.
pub enum ConfigError {
    MissingToken,
    InvalidApiUrl,
}

/// The address of the chat service.
pub enum ApiUrl {
    /// None is set.
    Usual,
    /// The one that is set, in the form that the URL parser gives it.
    Custom(String),
    /// The one that is set is no URL.
    Invalid,
}

/// The settings of the bot.
pub struct Settings {
    pub token: String,
    pub password: String,
    pub api_url: Option<String>,
    pub limit_mb: u64,
    pub cookies: Option<String>,
}

/// What `reqwest::Url::parse` makes of a text, written out again; nothing where
/// it is no absolute URL.
pub uninterp spec fn parsed_url(s: Seq<char>) -> Option<Seq<char>>;

/// `reqwest::Url::parse`, and the URL written out again. The result depends on
/// the text alone; which texts are URLs is left unsaid.
#[verifier::external_body]
fn parse_url(s: &str) -> (r: Option<String>)
    ensures
        text_of(r) == parsed_url(s@),
{
    reqwest::Url::parse(s).ok().map(|url| url.as_str().to_string())
}

/// The limit in megabytes that a setting gives.
pub open spec fn limit_from(raw: Option<Seq<char>>) -> u64 {
    match raw {
        Some(raw) => match u64_value(raw) {
            Some(mb) => mb,
            None => DEFAULT_LIMIT_MB,
        },
        None => DEFAULT_LIMIT_MB,
    }
}

/// The address that a setting gives.
pub open spec fn address_is(raw: Option<Seq<char>>, api_url: ApiUrl) -> bool {
    match raw {
        None => api_url is Usual,
        Some(raw) => match parsed_url(raw) {
            Some(url) => api_url matches ApiUrl::Custom(given) && given@ == url,
            None => api_url is Invalid,
        },
    }
}

impl ConfigError {
    /// The error in words.
    pub open spec fn spec_text(self) -> Seq<char> {
        match self {
            ConfigError::MissingToken => "TELEGRAM_BOT_TOKEN missing"@,
            ConfigError::InvalidApiUrl => "Invalid TELEGRAM_API_URL"@,
        }
    }

    /// The error in words.
    pub fn text(&self) -> (r: String)
        ensures
            r@ == self.spec_text(),
    {
        match self {
            ConfigError::MissingToken => "TELEGRAM_BOT_TOKEN missing".to_owned(),
            ConfigError::InvalidApiUrl => "Invalid TELEGRAM_API_URL".to_owned(),
        }
    }
}

/// The address that a setting gives.
pub fn read_api_url(raw: Option<&str>) -> (r: ApiUrl)
    ensures
        address_is(
            match raw {
                Some(raw) => Some(raw@),
                None => None,
            },
            r,
        ),
{
    match raw {
        None => ApiUrl::Usual,
        Some(raw) => match parse_url(raw) {
            Some(url) => ApiUrl::Custom(url),
            None => ApiUrl::Invalid,
        },
    }
}

/// The limit in bytes for a limit in megabytes.
pub fn size_limit_bytes(limit_mb: u64) -> (r: u64)
    requires
        limit_mb * 1_048_576 <= u64::MAX,
    ensures
        r == limit_mb * 1_048_576,
{
    limit_mb * 1_048_576
}

impl Settings {
    /// The settings from what the environment holds, and from whether there is a
    /// cookie file. A token is needed, and an address that is set has to be a
    /// URL; the rest has defaults.
    pub fn read(
        token: Option<String>,
        password: Option<String>,
        api_url: ApiUrl,
        max_file_size_mb: Option<String>,
        cookies_present: bool,
    ) -> (r: Result<Settings, ConfigError>)
        ensures
            match (token, api_url) {
                (None, _) => r == Err::<Settings, _>(ConfigError::MissingToken),
                (Some(_), ApiUrl::Invalid) => r == Err::<Settings, _>(ConfigError::InvalidApiUrl),
                (Some(token), _) => {
                    &&& r matches Ok(settings)
                    &&& settings.token == token
                    &&& settings.password@ == (match password {
                        Some(password) => password@,
                        None => DEFAULT_PASSWORD@,
                    })
                    &&& settings.api_url == (match api_url {
                        ApiUrl::Custom(url) => Some(url),
                        _ => None,
                    })
                    &&& settings.limit_mb == limit_from(text_of(max_file_size_mb))
                    &&& text_of(settings.cookies) == (if cookies_present {
                        Some(COOKIES_FILE@)
                    } else {
                        None
                    })
                },
            },
    {
        let token = match token {
            Some(token) => token,
            None => {
                return Err(ConfigError::MissingToken);
            },
        };
        let api_url = match api_url {
            ApiUrl::Usual => None,
            ApiUrl::Custom(url) => Some(url),
            ApiUrl::Invalid => {
                return Err(ConfigError::InvalidApiUrl);
            },
        };
        let password = match password {
            Some(password) => password,
            None => DEFAULT_PASSWORD.to_owned(),
        };
        let limit_mb: u64 = match max_file_size_mb {
            Some(raw) => match parse_u64(raw.as_str()) {
                Some(mb) => mb,
                None => DEFAULT_LIMIT_MB,
            },
            None => DEFAULT_LIMIT_MB,
        };
        let cookies = if cookies_present {
            Some(COOKIES_FILE.to_owned())
        } else {
            None
        };
        Ok(Settings { token, password, api_url, limit_mb, cookies })
    }
}

/// The limit is the number that the setting writes, wherever it writes one that
/// fits; anything else, and nothing, leaves fifty megabytes.
pub proof fn law_limit(raw: Seq<char>, n: u64)
    ensures
        writes(raw, n as nat) ==> limit_from(Some(raw)) == n,
        (forall|m: u64| !#[trigger] writes(raw, m as nat)) ==> limit_from(Some(raw)) == 50,
        limit_from(None) == 50,
{
    law_numbers_read(raw, n);
    if let Some(m) = u64_value(raw) {
        law_numbers_read(raw, m);
    }
}

/// An address that is set is taken as the URL parser gives it, or is no address;
/// none is made up where none is set.
pub proof fn law_address(raw: Seq<char>, url: String)
    ensures
        address_is(Some(raw), ApiUrl::Custom(url)) <==> parsed_url(raw) == Some(url@),
        address_is(Some(raw), ApiUrl::Invalid) <==> parsed_url(raw) is None,
        !address_is(Some(raw), ApiUrl::Usual),
        address_is(None, ApiUrl::Usual),
        !address_is(None, ApiUrl::Custom(url)),
        !address_is(None, ApiUrl::Invalid),
{
}

/// What is taken where nothing is set, and what a start that fails says.
pub proof fn law_defaults()
    ensures
        DEFAULT_PASSWORD@ == "admin123"@,
        COOKIES_FILE@ == "cookies.txt"@,
        ConfigError::MissingToken.spec_text() == "TELEGRAM_BOT_TOKEN missing"@,
        ConfigError::InvalidApiUrl.spec_text() == "Invalid TELEGRAM_API_URL"@,
{
}

} // verus!
