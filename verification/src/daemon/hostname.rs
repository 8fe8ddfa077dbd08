//! Resolving the local machine's name from its candidate sources.
use vstd::prelude::*;

use crate::text::{chars_of, string_from, string_of, trim, trim_spec};
use crate::types::{Hostname, valid_hostname};

verus! {

/// The text a resolution settles on: the first non-empty of `BAO_HOST`,
/// the `hostname` command's trimmed output and `HOSTNAME` (a source that
/// did not answer is skipped), else `localhost`.
pub open spec fn resolved_raw(
    env_host: Option<Seq<char>>,
    command_output: Option<Seq<char>>,
    env_hostname: Option<Seq<char>>,
) -> Seq<char> {
    if env_host matches Some(h) && h.len() > 0 {
        env_host.unwrap()
    } else if command_output matches Some(o) && trim_spec(o).len() > 0 {
        trim_spec(command_output.unwrap())
    } else if env_hostname matches Some(h) && h.len() > 0 {
        env_hostname.unwrap()
    } else {
        "localhost"@
    }
}

/// The machine's hostname: the resolved text when it names a machine,
/// else `localhost`.
pub open spec fn resolve_spec(
    env_host: Option<Seq<char>>,
    command_output: Option<Seq<char>>,
    env_hostname: Option<Seq<char>>,
) -> Seq<char> {
    let raw = resolved_raw(env_host, command_output, env_hostname);
    if valid_hostname(trim_spec(raw)) {
        trim_spec(raw)
    } else {
        "localhost"@
    }
}

/// `BAO_HOST` overrides: when it is set and non-empty, the other sources
/// do not matter, and the result is its trimmed text when that names a
/// machine (else `localhost`).
pub proof fn law_bao_host_overrides(
    h: Seq<char>,
    command_output: Option<Seq<char>>,
    env_hostname: Option<Seq<char>>,
)
    requires
        h.len() > 0,
    ensures
        resolve_spec(Some(h), command_output, env_hostname) == resolve_spec(Some(h), None, None),
        resolve_spec(Some(h), command_output, env_hostname) == if valid_hostname(trim_spec(h)) {
            trim_spec(h)
        } else {
            "localhost"@
        },
{
}

/// An empty or absent `BAO_HOST` defers to the `hostname` command: when it
/// answers with non-blank text, its trimmed output decides, whatever
/// `HOSTNAME` says.
pub proof fn law_command_before_hostname_env(
    env_host: Option<Seq<char>>,
    o: Seq<char>,
    env_hostname: Option<Seq<char>>,
)
    requires
        env_host is None || env_host->0.len() == 0,
        trim_spec(o).len() > 0,
    ensures
        resolve_spec(env_host, Some(o), env_hostname) == resolve_spec(None, Some(o), None),
{
}

/// `HOSTNAME` is the last source: with `BAO_HOST` and the command both
/// silent (absent or blank), a non-empty `HOSTNAME` decides; with all three
/// silent the machine is `localhost`.
pub proof fn law_hostname_env_then_localhost(
    env_host: Option<Seq<char>>,
    command_output: Option<Seq<char>>,
    env_hostname: Option<Seq<char>>,
)
    requires
        env_host is None || env_host->0.len() == 0,
        command_output is None || trim_spec(command_output->0).len() == 0,
    ensures
        env_hostname matches Some(h) ==> (h.len() > 0 ==> resolve_spec(
            env_host,
            command_output,
            env_hostname,
        ) == (if valid_hostname(trim_spec(h)) {
            trim_spec(h)
        } else {
            "localhost"@
        })),
        (env_hostname is None || env_hostname->0.len() == 0) ==> resolve_spec(
            env_host,
            command_output,
            env_hostname,
        ) == resolve_spec(None, None, None),
{
}

pub open spec fn opt_view(o: Option<String>) -> Option<Seq<char>> {
    match o {
        Some(s) => Some(s@),
        None => None,
    }
}

/// Resolve the local hostname from what each source reported (`None` when
/// the source did not answer): the first non-empty source wins, an empty
/// one is skipped. Never empty: a machine with no name is still
/// `localhost`.
pub fn resolve(
    env_host: Option<String>,
    command_output: Option<String>,
    env_hostname: Option<String>,
) -> (r: Hostname)
    ensures
        r@ == resolve_spec(opt_view(env_host), opt_view(command_output), opt_view(env_hostname)),
        r@.len() > 0,
{
    let raw: String = match env_host {
        Some(h) if h.as_str().unicode_len() > 0 => h,
        _ => {
            let from_command = match command_output {
                Some(out) => {
                    let t = trim(&chars_of(out.as_str()));
                    if t.len() > 0 {
                        Some(string_of(&t))
                    } else {
                        None
                    }
                },
                None => None,
            };
            match from_command {
                Some(t) => t,
                None => match env_hostname {
                    Some(h) if h.as_str().unicode_len() > 0 => h,
                    _ => string_from("localhost"),
                },
            }
        },
    };
    match Hostname::parse(raw.as_str()) {
        Ok(h) => h,
        Err(_) => {
            let l = "localhost";
            proof {
                reveal_strlit("localhost");
            }
            Hostname(string_from(l))
        },
    }
}

} // verus!
