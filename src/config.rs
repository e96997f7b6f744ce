use vstd::prelude::*;
use vstd::string::*;

use crate::text::{parse_i32, parsed_i32};

verus! {

/// The service's settings.
#[derive(Debug)]
pub struct Environment {
    pub server_port: String,
    pub server_url: String,
    pub api_key: String,
    pub aws_region: String,
    pub aws_ses_from_email: String,
    pub max_send_per_second: i32,
    pub sentry_dsn: String,
}

/// The raw values of the settings' variables, as found (`None` when unset).
#[derive(Debug)]
pub struct EnvValues {
    pub server_port: Option<String>,
    pub server_url: Option<String>,
    pub api_key: Option<String>,
    pub aws_region: Option<String>,
    pub aws_ses_from_email: Option<String>,
    pub max_send_per_second: Option<String>,
    pub sentry_dsn: Option<String>,
}

pub open spec fn or_default(v: Option<String>, d: Seq<char>) -> Seq<char> {
    match v {
        Some(s) => s@,
        None => d,
    }
}

fn value_or(v: &Option<String>, d: &str) -> (r: String)
    ensures
        r@ == or_default(*v, d@),
{
    match v {
        Some(s) => s.clone(),
        None => String::from_str(d),
    }
}

/// The settings for the given variables: port 8080, region ap-northeast-2
/// and 24 submissions per second unless set (an unreadable rate counts as
/// unset), empty text for the others.
pub fn get_environments(vars: &EnvValues) -> (r: Environment)
    ensures
        r.server_port@ == or_default(vars.server_port, "8080"@),
        r.server_url@ == or_default(vars.server_url, ""@),
        r.api_key@ == or_default(vars.api_key, ""@),
        r.aws_region@ == or_default(vars.aws_region, "ap-northeast-2"@),
        r.aws_ses_from_email@ == or_default(vars.aws_ses_from_email, ""@),
        r.max_send_per_second == match vars.max_send_per_second {
            Some(s) => match parsed_i32(s@) {
                Some(n) => n,
                None => 24,
            },
            None => 24,
        },
        r.sentry_dsn@ == or_default(vars.sentry_dsn, ""@),
{
    let rate = match &vars.max_send_per_second {
        Some(s) => match parse_i32(s.as_str()) {
            Some(n) => n,
            None => 24,
        },
        None => 24,
    };
    Environment {
        server_port: value_or(&vars.server_port, "8080"),
        server_url: value_or(&vars.server_url, ""),
        api_key: value_or(&vars.api_key, ""),
        aws_region: value_or(&vars.aws_region, "ap-northeast-2"),
        aws_ses_from_email: value_or(&vars.aws_ses_from_email, ""),
        max_send_per_second: rate,
        sentry_dsn: value_or(&vars.sentry_dsn, ""),
    }
}

} // verus!
