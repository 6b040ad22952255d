//! Settings: what is stored under which key, the defaults for keys never
//! written, and the worker-pool size derived from them.

use vstd::prelude::*;
use crate::numbers::{decimal, fmt_i64, lemma_parse_decimal, parse_i64, parse_i64_str, u64_digits, nat_digits};
use crate::text::{from_chars, to_chars, trim, trim_chars};
use crate::models::string_views;

verus! {

/// The user's settings.
#[derive(Debug, Clone)]
pub struct Settings {
    pub output_dir: String,
    pub default_format: String,
    pub default_quality: String,
    pub mb_user_agent: String,
    pub concurrency: i64,
}

/// The keys of the settings table, in the order `settings_from_stored`
/// takes their values.
pub open spec fn setting_key_list() -> Seq<Seq<char>> {
    seq!["output_dir"@, "default_format"@, "default_quality"@, "mb_user_agent"@, "concurrency"@]
}

/// The settings table's keys.
pub fn setting_keys() -> (r: Vec<&'static str>)
    ensures
        r@.map_values(|s: &str| s@) == setting_key_list(),
{
    let mut r: Vec<&'static str> = Vec::new();
    r.push("output_dir");
    r.push("default_format");
    r.push("default_quality");
    r.push("mb_user_agent");
    r.push("concurrency");
    assert(r@.map_values(|s: &str| s@) =~= setting_key_list());
    r
}

/// A stored value, or the default when the key is missing or empty.
pub open spec fn stored_or(v: Option<Seq<char>>, default: Seq<char>) -> Seq<char> {
    match v {
        Some(s) => if s.len() > 0 {
            s
        } else {
            default
        },
        None => default,
    }
}

/// The MusicBrainz User-Agent used when none is set.
pub open spec fn default_agent() -> Seq<char> {
    "Podforge/0.1.0 ( https://github.com/pranav-r13/podforge )"@
}

/// The concurrency setting: the stored value read as a number, else the
/// default; a value that does not read as a number also gives the default.
pub open spec fn concurrency_of(v: Option<Seq<char>>, default_concurrency: usize) -> i64 {
    match parse_i64(stored_or(v, decimal(default_concurrency as int))) {
        Some(n) => n,
        None => default_concurrency as i64,
    }
}

fn stored_or_exec(v: &Option<String>, default: &str) -> (r: String)
    ensures
        r@ == stored_or(crate::models::opt_view(*v), default@),
{
    match v {
        Some(s) => if s.as_str().is_empty() {
            String::from_str(default)
        } else {
            s.clone()
        },
        None => String::from_str(default),
    }
}

/// The stored MusicBrainz User-Agent as it was saved (a blank one too, so
/// that MusicBrainz lookups are refused until the user sets one), or the
/// app's own when the key was never written.
pub open spec fn stored_agent(v: Option<Seq<char>>) -> Seq<char> {
    match v {
        Some(a) => a,
        None => default_agent(),
    }
}

/// Settings from the stored values of `setting_keys()` (in that order),
/// falling back to hardcoded defaults for any key never written or (but
/// for the User-Agent) left empty: no output folder, MP3, quality 0, the
/// app's own MusicBrainz User-Agent, and `default_concurrency` workers. A
/// User-Agent the user cleared stays blank.
pub fn settings_from_stored(values: &Vec<Option<String>>, default_concurrency: usize) -> (s: Settings)
    requires
        values.len() == 5,
    ensures
        s.output_dir@ == stored_or(crate::models::opt_view(values@[0]), ""@),
        s.default_format@ == stored_or(crate::models::opt_view(values@[1]), "mp3"@),
        s.default_quality@ == stored_or(crate::models::opt_view(values@[2]), "0"@),
        s.mb_user_agent@ == stored_agent(crate::models::opt_view(values@[3])),
        s.concurrency == concurrency_of(crate::models::opt_view(values@[4]), default_concurrency),
{
    let dc = from_chars(&u64_digits(default_concurrency as u64));
    let c = stored_or_exec(&values[4], dc.as_str());
    let concurrency = match parse_i64_str(c.as_str()) {
        Some(n) => n,
        None => default_concurrency as i64,
    };
    Settings {
        output_dir: stored_or_exec(&values[0], ""),
        default_format: stored_or_exec(&values[1], "mp3"),
        default_quality: stored_or_exec(&values[2], "0"),
        mb_user_agent: match &values[3] {
            Some(a) => a.clone(),
            None => String::from_str(crate::musicbrainz::default_user_agent()),
        },
        concurrency,
    }
}

/// What saving settings writes under each key: every field as given, the
/// concurrency raised to at least 1.
pub open spec fn stored_values(s: Settings) -> Seq<Seq<char>> {
    seq![
        s.output_dir@,
        s.default_format@,
        s.default_quality@,
        s.mb_user_agent@,
        decimal(if s.concurrency < 1 {
            1
        } else {
            s.concurrency as int
        }),
    ]
}

/// The `(key, value)` pairs saving `s` writes, in key order.
pub fn settings_to_stored(s: &Settings) -> (r: Vec<(String, String)>)
    ensures
        r@.map_values(|p: (String, String)| p.0@) == setting_key_list(),
        r@.map_values(|p: (String, String)| p.1@) == stored_values(*s),
{
    let c = if s.concurrency < 1 {
        1
    } else {
        s.concurrency
    };
    let mut r: Vec<(String, String)> = Vec::new();
    r.push((String::from_str("output_dir"), s.output_dir.clone()));
    r.push((String::from_str("default_format"), s.default_format.clone()));
    r.push((String::from_str("default_quality"), s.default_quality.clone()));
    r.push((String::from_str("mb_user_agent"), s.mb_user_agent.clone()));
    r.push((String::from_str("concurrency"), from_chars(&fmt_i64(c))));
    assert(r@.map_values(|p: (String, String)| p.0@) =~= setting_key_list());
    assert(r@.map_values(|p: (String, String)| p.1@) =~= stored_values(*s));
    r
}

/// Saving settings and loading them back gives the same settings, except
/// that an empty output folder, format or quality reads back as its
/// default and the concurrency as at least 1; the User-Agent reads back as
/// saved, blank included.
pub proof fn law_settings_round_trip(s: Settings, dc: usize)
    ensures
        ({
            let v = stored_values(s);
            &&& stored_or(Some(v[0]), ""@) == s.output_dir@
            &&& stored_or(Some(v[1]), "mp3"@) == (if s.default_format@.len() > 0 {
                s.default_format@
            } else {
                "mp3"@
            })
            &&& stored_or(Some(v[2]), "0"@) == (if s.default_quality@.len() > 0 {
                s.default_quality@
            } else {
                "0"@
            })
            &&& stored_agent(Some(v[3])) == s.mb_user_agent@
            &&& concurrency_of(Some(v[4]), dc) == (if s.concurrency < 1 {
                1
            } else {
                s.concurrency
            })
        }),
{
    let c: i64 = if s.concurrency < 1 {
        1
    } else {
        s.concurrency
    };
    lemma_parse_decimal(c);
    crate::numbers::lemma_nat_digits(c as nat);
    reveal_strlit("");
    assert(s.output_dir@.len() == 0 ==> s.output_dir@ == ""@);
}

/// The error when MusicBrainz is searched without a User-Agent.
pub open spec fn missing_agent_message() -> Seq<char> {
    "Set a MusicBrainz User-Agent in Settings before searching MusicBrainz."@
}

/// The User-Agent for MusicBrainz requests: refused when it is blank
/// (empty or only whitespace), since MusicBrainz requires one.
pub fn require_mb_user_agent(s: &Settings) -> (r: Result<String, String>)
    ensures
        trim(s.mb_user_agent@).len() == 0 ==> (r matches Err(m) && m@ == missing_agent_message()),
        trim(s.mb_user_agent@).len() > 0 ==> r == Ok::<String, String>(s.mb_user_agent),
{
    let t = trim_chars(&to_chars(s.mb_user_agent.as_str()));
    if t.len() == 0 {
        Err(String::from_str("Set a MusicBrainz User-Agent in Settings before searching MusicBrainz."))
    } else {
        Ok(s.mb_user_agent.clone())
    }
}

/// Half the available CPUs, rounded down and at least 1 (4 CPUs assumed
/// when the count is unknown): the default worker-pool size, leaving room
/// for ripping and the UI while CPU-heavy ffmpeg jobs run.
pub open spec fn concurrency_for(cpus: Option<usize>) -> usize {
    let n = match cpus {
        Some(c) => c,
        None => 4,
    };
    if n / 2 < 1 {
        1
    } else {
        (n / 2) as usize
    }
}

/// The default worker-pool size for `cpus` available CPUs.
pub fn default_concurrency(cpus: Option<usize>) -> (r: usize)
    ensures
        r == concurrency_for(cpus),
        r >= 1,
{
    let n = match cpus {
        Some(c) => c,
        None => 4,
    };
    if n / 2 < 1 {
        1
    } else {
        n / 2
    }
}

/// The number of workers the job queue runs with: the concurrency
/// setting raised to at least 1, as a `usize` (and at least 1 again).
pub open spec fn workers_for(concurrency: i64) -> usize {
    let c = if concurrency < 1 {
        1
    } else {
        concurrency
    };
    let u = c as usize;
    if u < 1 {
        1
    } else {
        u
    }
}

/// The number of workers the job queue runs with.
pub fn worker_count(concurrency: i64) -> (r: usize)
    ensures
        r == workers_for(concurrency),
        r >= 1,
{
    let c = if concurrency < 1 {
        1
    } else {
        concurrency
    };
    let u = #[verifier::truncate] (c as usize);
    if u < 1 {
        1
    } else {
        u
    }
}

} // verus!
