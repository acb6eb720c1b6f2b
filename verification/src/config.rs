//! The settings that the service runs with.

use crate::error::{Error, ErrorView};
use crate::text::{
    chars_of, join, copy_of, ends_with, first_position, lemma_first_position, parse_bool,
    parse_flag, parse_u16, parse_u64, parse_unsigned, trim_bounds, trimmed,
};
use vstd::prelude::*;

verus! {

/// The settings of one run of the service.
#[derive(Debug, Clone, PartialEq, Eq)]
pub struct Config {
    pub njalla_api_token: String,
    pub webhook_host: String,
    pub webhook_port: u16,
    pub domain_filter: Option<Vec<String>>,
    pub dry_run: bool,
    pub cache_ttl_seconds: u64,
}

/// A [`Config`] as plain values.
pub struct ConfigView {
    pub njalla_api_token: Seq<char>,
    pub webhook_host: Seq<char>,
    pub webhook_port: u16,
    pub domain_filter: Option<Seq<Seq<char>>>,
    pub dry_run: bool,
    pub cache_ttl_seconds: u64,
}

impl View for Config {
    type V = ConfigView;

    open spec fn view(&self) -> ConfigView {
        ConfigView {
            njalla_api_token: self.njalla_api_token@,
            webhook_host: self.webhook_host@,
            webhook_port: self.webhook_port,
            domain_filter: self.domain_filter.deep_view(),
            dry_run: self.dry_run,
            cache_ttl_seconds: self.cache_ttl_seconds,
        }
    }
}

impl DeepView for Config {
    type V = ConfigView;

    open spec fn deep_view(&self) -> ConfigView {
        self@
    }
}

/// Whether the allow-list `filter` lets `domain` through: every domain
/// where there is no list, and otherwise each domain that ends with one of
/// the listed suffixes.  The test is on characters, not on labels.
pub open spec fn domain_allowed(filter: Option<Seq<Seq<char>>>, domain: Seq<char>) -> bool {
    match filter {
        Some(suffixes) => ends_with_any(domain, suffixes),
        None => true,
    }
}

/// Whether `domain` ends with one of `suffixes`.
pub open spec fn ends_with_any(domain: Seq<char>, suffixes: Seq<Seq<char>>) -> bool {
    exists|i: int| 0 <= i < suffixes.len() && (#[trigger] suffixes[i]).is_suffix_of(domain)
}

/// A copy of a list of strings.
pub fn copy_strings(list: &Vec<String>) -> (copy: Vec<String>)
    ensures
        copy.deep_view() == list.deep_view(),
{
    let mut copy: Vec<String> = Vec::new();
    let mut i: usize = 0;
    while i < list.len()
        invariant
            i <= list.len(),
            copy.len() == i,
            forall|j: int| 0 <= j < i ==> copy[j]@ == list[j]@,
        decreases list.len() - i,
    {
        copy.push(list[i].clone());
        i += 1;
    }
    assert(copy.deep_view() =~= list.deep_view());
    copy
}

impl Config {
    /// Whether the allow-list lets `domain` through.
    pub fn is_domain_allowed(&self, domain: &str) -> (allowed: bool)
        ensures
            allowed == domain_allowed(self@.domain_filter, domain@),
    {
        match &self.domain_filter {
            Some(filter) => {
                let ghost suffixes = filter.deep_view();
                let mut i: usize = 0;
                while i < filter.len()
                    invariant
                        i <= filter.len(),
                        suffixes == filter.deep_view(),
                        self@.domain_filter == Some(suffixes),
                        forall|j: int|
                            0 <= j < i ==> !(#[trigger] suffixes[j]).is_suffix_of(domain@),
                    decreases filter.len() - i,
                {
                    if ends_with(domain, filter[i].as_str()) {
                        assert(suffixes[i as int] == filter[i as int]@);
                        assert(suffixes[i as int].is_suffix_of(domain@));
                        return true;
                    }
                    i += 1;
                }
                false
            },
            None => true,
        }
    }

    /// The same settings in a value of their own.
    pub fn duplicate(&self) -> (copy: Config)
        ensures
            copy@ == self@,
    {
        Config {
            njalla_api_token: self.njalla_api_token.clone(),
            webhook_host: self.webhook_host.clone(),
            webhook_port: self.webhook_port,
            domain_filter: match &self.domain_filter {
                Some(filter) => Some(copy_strings(filter)),
                None => None,
            },
            dry_run: self.dry_run,
            cache_ttl_seconds: self.cache_ttl_seconds,
        }
    }
}

/// The host that the service listens on where none is named.
pub const DEFAULT_HOST: &'static str = "127.0.0.1";

/// The port that the service listens on where none is named.
pub const DEFAULT_PORT: u16 = 8888;

/// The time that answers of the provider may be kept where none is named,
/// in seconds.
pub const DEFAULT_CACHE_TTL: u64 = 60;

/// The settings as the environment holds them: the token, and each of the
/// others as its text, if it is set.
#[derive(Debug, Clone, PartialEq, Eq)]
pub struct Environment {
    pub njalla_api_token: String,
    pub webhook_host: Option<String>,
    pub webhook_port: Option<String>,
    pub domain_filter: Option<String>,
    pub dry_run: Option<String>,
    pub cache_ttl_seconds: Option<String>,
}

/// An [`Environment`] as plain values.
pub struct EnvironmentView {
    pub njalla_api_token: Seq<char>,
    pub webhook_host: Option<Seq<char>>,
    pub webhook_port: Option<Seq<char>>,
    pub domain_filter: Option<Seq<char>>,
    pub dry_run: Option<Seq<char>>,
    pub cache_ttl_seconds: Option<Seq<char>>,
}

impl View for Environment {
    type V = EnvironmentView;

    open spec fn view(&self) -> EnvironmentView {
        EnvironmentView {
            njalla_api_token: self.njalla_api_token@,
            webhook_host: self.webhook_host.deep_view(),
            webhook_port: self.webhook_port.deep_view(),
            domain_filter: self.domain_filter.deep_view(),
            dry_run: self.dry_run.deep_view(),
            cache_ttl_seconds: self.cache_ttl_seconds.deep_view(),
        }
    }
}

impl DeepView for Environment {
    type V = EnvironmentView;

    open spec fn deep_view(&self) -> EnvironmentView {
        self@
    }
}

/// The domains that the text `s` lists: what stands between its commas,
/// each without the white space around it, and without those of which
/// nothing is left.
pub open spec fn listed_domains(s: Seq<char>) -> Seq<Seq<char>>
    decreases s.len(),
{
    let comma = first_position(s, ',');
    let name = trimmed(s.take(comma));
    let rest = if 0 <= comma < s.len() {
        listed_domains(s.skip(comma + 1))
    } else {
        Seq::empty()
    };
    if name.len() > 0 {
        seq![name] + rest
    } else {
        rest
    }
}

/// The failure that reports the text `value` of the setting `name` as
/// unusable.
pub open spec fn unusable(name: Seq<char>, value: Seq<char>) -> ErrorView {
    ErrorView::Configuration("invalid "@ + name + ": "@ + value)
}

/// The settings that the environment `env` stands for.  What is not set
/// has its default; a port, a dry-run flag or a cache time that cannot be
/// read is a failure, the first of them in this order.
pub open spec fn settings_of(env: EnvironmentView) -> Result<ConfigView, ErrorView> {
    let port = match env.webhook_port {
        Some(text) => parse_unsigned(text, u16::MAX as nat),
        None => Some(DEFAULT_PORT as nat),
    };
    let dry_run = match env.dry_run {
        Some(text) => parse_flag(text),
        None => Some(false),
    };
    let cache = match env.cache_ttl_seconds {
        Some(text) => parse_unsigned(text, u64::MAX as nat),
        None => Some(DEFAULT_CACHE_TTL as nat),
    };
    if port is None {
        Err(unusable("WEBHOOK_PORT"@, env.webhook_port->0))
    } else if dry_run is None {
        Err(unusable("DRY_RUN"@, env.dry_run->0))
    } else if cache is None {
        Err(unusable("CACHE_TTL_SECONDS"@, env.cache_ttl_seconds->0))
    } else {
        Ok(
            ConfigView {
                njalla_api_token: env.njalla_api_token,
                webhook_host: match env.webhook_host {
                    Some(host) => host,
                    None => DEFAULT_HOST@,
                },
                webhook_port: port->0 as u16,
                domain_filter: match env.domain_filter {
                    Some(text) => Some(listed_domains(text)),
                    None => None,
                },
                dry_run: dry_run->0,
                cache_ttl_seconds: cache->0 as u64,
            },
        )
    }
}

/// Settings or a failure as plain values.
pub open spec fn settings_view(r: Result<Config, Error>) -> Result<ConfigView, ErrorView> {
    match r {
        Ok(config) => Ok(config@),
        Err(e) => Err(e@),
    }
}

/// The failure that reports the text `value` of the setting `name` as
/// unusable.
fn report_unusable(name: &str, value: &str) -> (e: Error)
    ensures
        e@ == unusable(name@, value@),
{
    let text = join("invalid ", name);
    let text = join(text.as_str(), ": ");
    Error::Configuration(join(text.as_str(), value))
}

/// The domains that the text `s` lists.
pub fn parse_domain_filter(s: &str) -> (domains: Vec<String>)
    ensures
        domains.deep_view() == listed_domains(s@),
{
    let chars = chars_of(s);
    let ghost text = s@;
    let mut domains: Vec<String> = Vec::new();
    let mut start: usize = 0;
    let mut i: usize = 0;
    proof {
        assert(text.skip(0) =~= text);
        assert(domains.deep_view() + listed_domains(text) =~= listed_domains(text));
    }
    while i < chars.len()
        invariant
            start <= i <= chars.len(),
            chars@ == text,
            text == s@,
            forall|j: int| start <= j < i ==> chars[j] != ',',
            listed_domains(text) == domains.deep_view() + listed_domains(text.skip(start as int)),
        decreases chars.len() - i,
    {
        if chars[i] == ',' {
            let ghost before = domains.deep_view();
            let ghost left = text.skip(start as int);
            let (from, to) = trim_bounds(&chars, start, i);
            proof {
                lemma_first_position(left, ',', i - start);
                assert(left.take(i - start) =~= text.subrange(start as int, i as int));
                assert(left.skip(i - start + 1) =~= text.skip(i + 1));
            }
            if from < to {
                domains.push(s.substring_char(from, to).to_owned());
                proof {
                    let name = text.subrange(from as int, to as int);
                    assert(domains.deep_view() =~= before.push(name));
                    assert(before + (seq![name] + listed_domains(text.skip(i + 1)))
                        =~= domains.deep_view() + listed_domains(text.skip(i + 1)));
                }
            }
            start = i + 1;
        }
        i += 1;
    }
    let ghost before = domains.deep_view();
    let ghost left = text.skip(start as int);
    let (from, to) = trim_bounds(&chars, start, chars.len());
    proof {
        lemma_first_position(left, ',', left.len() as int);
        assert(left.take(left.len() as int) =~= text.subrange(start as int, text.len() as int));
    }
    if from < to {
        domains.push(s.substring_char(from, to).to_owned());
        proof {
            let name = text.subrange(from as int, to as int);
            assert(domains.deep_view() =~= before.push(name));
            assert(before + (seq![name] + Seq::<Seq<char>>::empty()) =~= domains.deep_view());
        }
    } else {
        assert(before + Seq::<Seq<char>>::empty() =~= before);
    }
    domains
}

impl Config {
    /// The settings that the environment `env` stands for.
    pub fn from_env(env: Environment) -> (settings: Result<Config, Error>)
        ensures
            settings_view(settings) == settings_of(env@),
    {
        let webhook_port = match &env.webhook_port {
            Some(text) => match parse_u16(text.as_str()) {
                Some(port) => port,
                None => {
                    return Err(report_unusable("WEBHOOK_PORT", text.as_str()));
                },
            },
            None => DEFAULT_PORT,
        };
        let dry_run = match &env.dry_run {
            Some(text) => match parse_bool(text.as_str()) {
                Some(flag) => flag,
                None => {
                    return Err(report_unusable("DRY_RUN", text.as_str()));
                },
            },
            None => false,
        };
        let cache_ttl_seconds = match &env.cache_ttl_seconds {
            Some(text) => match parse_u64(text.as_str()) {
                Some(seconds) => seconds,
                None => {
                    return Err(report_unusable("CACHE_TTL_SECONDS", text.as_str()));
                },
            },
            None => DEFAULT_CACHE_TTL,
        };
        let domain_filter = match &env.domain_filter {
            Some(text) => Some(parse_domain_filter(text.as_str())),
            None => None,
        };
        let webhook_host = match env.webhook_host {
            Some(host) => host,
            None => copy_of(DEFAULT_HOST),
        };
        Ok(
            Config {
                njalla_api_token: env.njalla_api_token,
                webhook_host,
                webhook_port,
                domain_filter,
                dry_run,
                cache_ttl_seconds,
            },
        )
    }
}

} // verus!
