//! The settings file: what it holds and how `set` changes it.
use vstd::prelude::*;
use crate::text::{
    chars_of, eq_chars, parse_bounded, parse_decimal, spec_to_lowercase, str_to_lowercase,
    string_of,
};

verus! {

/// How many downloads run at once when nothing else says.
pub const DEFAULT_JOBS: usize = 4;

/// The saved settings; a missing entry is `None`.
#[derive(Debug)]
pub struct Config {
    pub user_id: Option<String>,
    pub api_key: Option<String>,
    pub jobs: Option<u32>,
    pub desu_session: Option<String>,
    pub patreon_session: Option<String>,
    pub patreon_proxy: Option<String>,
    pub desu_proxy: Option<String>,
}

impl Default for Config {
    fn default() -> (c: Self)
        ensures
            c.user_id is None,
            c.api_key is None,
            c.jobs is None,
            c.desu_session is None,
            c.patreon_session is None,
            c.patreon_proxy is None,
            c.desu_proxy is None,
    {
        Config {
            user_id: None,
            api_key: None,
            jobs: None,
            desu_session: None,
            patreon_session: None,
            patreon_proxy: None,
            desu_proxy: None,
        }
    }
}

/// The number of parallel downloads: the environment's value when it reads as
/// a positive number, else the saved positive `jobs`, else 4.
pub open spec fn spec_parallel_jobs(env_jobs: Option<Seq<char>>, config_jobs: Option<u32>) -> int {
    let from_env = match env_jobs {
        Some(v) => parse_bounded(v, usize::MAX as nat),
        None => None,
    };
    match from_env {
        Some(n) if n > 0 => n as int,
        _ => match config_jobs {
            Some(n) if n > 0 => n as int,
            _ => DEFAULT_JOBS as int,
        },
    }
}

/// The text of an optional string.
pub open spec fn opt_view(o: Option<&str>) -> Option<Seq<char>> {
    match o {
        Some(s) => Some(s@),
        None => None,
    }
}

/// The number of parallel downloads, from the value of the `BOORU_JOBS`
/// environment variable (if set) and the saved settings.
pub fn parallel_jobs(env_jobs: Option<&str>, config: &Config) -> (n: usize)
    ensures
        n == spec_parallel_jobs(opt_view(env_jobs), config.jobs),
{
    let from_env: Option<u64> = match env_jobs {
        Some(v) => {
            let c = chars_of(v);
            parse_decimal(c.as_slice(), usize::MAX as u64)
        },
        None => None,
    };
    match from_env {
        Some(n) if n > 0 => {
            return n as usize;
        },
        _ => {},
    }
    match config.jobs {
        Some(n) if n > 0 => n as usize,
        _ => DEFAULT_JOBS,
    }
}

/// Why `set` refused.
#[derive(Debug)]
pub enum SetError {
    /// Not exactly a variable and a value.
    Usage,
    /// `jobs` was not a positive number.
    InvalidJobs,
    /// No such variable (its lower-case name).
    UnknownVariable(String),
}

/// The settings after `set <key> <value>` with a known, lower-case key other
/// than `jobs`.
pub open spec fn with_setting(c: Config, key: Seq<char>, value: String) -> Option<Config> {
    if key == "user_id"@ {
        Some(Config { user_id: Some(value), ..c })
    } else if key == "api_key"@ {
        Some(Config { api_key: Some(value), ..c })
    } else if key == "desu_session"@ {
        Some(Config { desu_session: Some(value), ..c })
    } else if key == "patreon_session"@ {
        Some(Config { patreon_session: Some(value), ..c })
    } else if key == "patreon_proxy"@ {
        Some(Config { patreon_proxy: Some(value), ..c })
    } else if key == "desu_proxy"@ {
        Some(Config { desu_proxy: Some(value), ..c })
    } else {
        None
    }
}

/// What `set` does: the settings before and after, the arguments, and the
/// answer.
pub open spec fn set_outcome(
    before: Config,
    after: Config,
    rest: Seq<String>,
    r: Result<String, SetError>,
) -> bool {
    if rest.len() != 2 {
        r matches Err(SetError::Usage) && after == before
    } else {
        let key = spec_to_lowercase(rest[0]@);
        let value = rest[1];
        if key == "jobs"@ {
            let n = parse_bounded(value@, u32::MAX as nat);
            if n is Some && n->0 > 0 {
                r matches Ok(k) && k@ == key && after == (Config { jobs: Some(n->0 as u32), ..before })
            } else {
                r matches Err(SetError::InvalidJobs) && after == before
            }
        } else {
            match with_setting(before, key, value) {
                Some(c) => r matches Ok(k) && k@ == key && after == c,
                None => r matches Err(SetError::UnknownVariable(k)) && k@ == key && after == before,
            }
        }
    }
}

/// Applies `set <variable> <value>` to the settings. The variable name is
/// read in lower case; `jobs` takes a positive `u32`, the others any text.
/// On success the settings hold the new value and the lower-case name is
/// returned; on failure they are unchanged.
pub fn apply_setting(config: &mut Config, rest: &[String]) -> (r: Result<String, SetError>)
    ensures
        set_outcome(*old(config), *final(config), rest@, r),
{
    if rest.len() != 2 {
        return Err(SetError::Usage);
    }
    let key = str_to_lowercase(rest[0].as_str());
    let value = rest[1].clone();
    let k = chars_of(key.as_str());
    let ks = k.as_slice();
    if eq_chars(ks, chars_of("jobs").as_slice()) {
        let vc = chars_of(value.as_str());
        let parsed = parse_decimal(vc.as_slice(), u32::MAX as u64);
        let ok = match parsed {
            Some(n) => n > 0,
            None => false,
        };
        if !ok {
            return Err(SetError::InvalidJobs);
        }
        let n = match parsed {
            Some(n) => n,
            None => 0,
        };
        config.jobs = Some(n as u32);
    } else if eq_chars(ks, chars_of("user_id").as_slice()) {
        config.user_id = Some(value);
    } else if eq_chars(ks, chars_of("api_key").as_slice()) {
        config.api_key = Some(value);
    } else if eq_chars(ks, chars_of("desu_session").as_slice()) {
        config.desu_session = Some(value);
    } else if eq_chars(ks, chars_of("patreon_session").as_slice()) {
        config.patreon_session = Some(value);
    } else if eq_chars(ks, chars_of("patreon_proxy").as_slice()) {
        config.patreon_proxy = Some(value);
    } else if eq_chars(ks, chars_of("desu_proxy").as_slice()) {
        config.desu_proxy = Some(value);
    } else {
        return Err(SetError::UnknownVariable(key));
    }
    Ok(key)
}

} // verus!
