use vstd::prelude::*;

use crate::text::{
    begins_with, concat, decimal, first_position, is_blank, lemma_unsigned, number_digits,
    number_text, opt_string, opt_text, parse_signed, parts_around, pieces, same_text, split_on,
    text_or, texts, trim, trimmed,
};
use crate::text_map::{string_table, TextMap};

verus! {

/// The names of the models on offer.
pub open spec fn model_names() -> Seq<Seq<char>> {
    seq![
        "gpt-5.3-codex"@,
        "gpt-5.4"@,
        "gpt-5.4-mini"@,
        "gpt-5.2-codex"@,
        "gpt-5.1-codex-max"@,
        "gpt-5.2"@,
        "gpt-5.1-codex-mini"@,
        "gpt-5.3-codex-spark"@,
    ]
}

/// The names of the models on offer.
pub fn supported_models() -> (models: Vec<String>)
    ensures
        texts(models@) == model_names(),
{
    let mut models: Vec<String> = Vec::new();
    models.push("gpt-5.3-codex".to_owned());
    models.push("gpt-5.4".to_owned());
    models.push("gpt-5.4-mini".to_owned());
    models.push("gpt-5.2-codex".to_owned());
    models.push("gpt-5.1-codex-max".to_owned());
    models.push("gpt-5.2".to_owned());
    models.push("gpt-5.1-codex-mini".to_owned());
    models.push("gpt-5.3-codex-spark".to_owned());
    proof {
        assert(texts(models@) =~= model_names());
    }
    models
}

/// The alias and the model that one entry `alias=model` of a list names.
pub open spec fn alias_entry(pair: Seq<char>) -> Option<(Seq<char>, Seq<char>)> {
    let at = first_position(pair, '=');
    let alias = trim(pair.take(at));
    let model = trim(pair.skip(at + 1));
    if pair.contains('=') && alias.len() > 0 && model.len() > 0 {
        Some((alias, model))
    } else {
        None
    }
}

/// The table that a list of entries makes: of two entries for one alias the later counts.
pub open spec fn alias_table(pairs: Seq<Seq<char>>) -> Map<Seq<char>, Seq<char>>
    decreases pairs.len(),
{
    if pairs.len() == 0 {
        Map::empty()
    } else {
        match alias_entry(pairs.last()) {
            Some((alias, model)) => alias_table(pairs.drop_last()).insert(alias, model),
            None => alias_table(pairs.drop_last()),
        }
    }
}

/// Reads a list of model aliases, `alias=model` entries with commas between them.
pub fn parse_alias_list(raw: &str) -> (aliases: TextMap<String>)
    ensures
        string_table(aliases) == alias_table(split_on(raw@, ',')),
{
    let pairs = pieces(raw, ',');
    let ghost all = split_on(raw@, ',');
    let mut aliases: TextMap<String> = TextMap::new();
    proof {
        assert(string_table(aliases) =~= alias_table(all.take(0)));
    }
    for i in 0..pairs.len()
        invariant
            all == texts(pairs@),
            string_table(aliases) == alias_table(all.take(i as int)),
    {
        let ghost before = string_table(aliases);
        proof {
            assert(all.take(i + 1).drop_last() =~= all.take(i as int));
        }
        if let Some((alias, model)) = parts_around(pairs[i].as_str(), '=') {
            let alias = trimmed(alias.as_str());
            let model = trimmed(model.as_str());
            if !alias.as_str().is_empty() && !model.as_str().is_empty() {
                let ghost value = model@;
                aliases.insert(alias.as_str(), model);
                proof {
                    assert(string_table(aliases) =~= before.insert(alias@, value));
                }
            }
        }
    }
    proof {
        assert(all.take(all.len() as int) =~= all);
    }
    aliases
}

/// The aliases where none are configured.
pub open spec fn default_aliases() -> Map<Seq<char>, Seq<char>> {
    Map::empty().insert("gpt-5.3-codex-spark-preview"@, "gpt-5.3-codex-spark"@)
}

/// A setting that is there and is not blank.
pub open spec fn nonblank(value: Option<Seq<char>>) -> Option<Seq<char>> {
    match value {
        Some(value) => if trim(value).len() > 0 {
            Some(value)
        } else {
            None
        },
        None => None,
    }
}

fn keep_nonblank(value: Option<String>) -> (kept: Option<String>)
    ensures
        opt_string(kept) == nonblank(opt_string(value)),
{
    match value {
        Some(value) => if is_blank(value.as_str()) {
            None
        } else {
            Some(value)
        },
        None => None,
    }
}

/// The model aliases that are configured: a list, or else the default.
pub fn load_model_aliases(configured: Option<String>) -> (aliases: TextMap<String>)
    ensures
        string_table(aliases) == (match nonblank(opt_string(configured)) {
            Some(list) => alias_table(split_on(list, ',')),
            None => default_aliases(),
        }),
{
    match keep_nonblank(configured) {
        Some(list) => parse_alias_list(list.as_str()),
        None => {
            let mut aliases: TextMap<String> = TextMap::new();
            aliases.insert("gpt-5.3-codex-spark-preview", "gpt-5.3-codex-spark".to_owned());
            proof {
                assert(string_table(aliases) =~= default_aliases());
            }
            aliases
        },
    }
}

/// Whether a setting is switched on.
pub open spec fn switched_on(value: Option<Seq<char>>) -> bool {
    match value {
        Some(value) => trim(value) == "1"@,
        None => false,
    }
}

/// Whether a setting is switched on.
pub fn env_flag(value: Option<&str>) -> (on: bool)
    ensures
        on == switched_on(opt_text(value)),
{
    match value {
        Some(value) => {
            let value = trimmed(value);
            same_text(value.as_str(), "1")
        },
        None => false,
    }
}

/// The port that a text names.
pub open spec fn port_of(text: Seq<char>) -> Option<u16> {
    match decimal(text) {
        Some(number) => if number <= 65535 && text[0] != '-' {
            Some(number as u16)
        } else {
            None
        },
        None => None,
    }
}

/// Reads a port.
pub fn parse_port(text: &str) -> (port: Option<u16>)
    ensures
        port == port_of(text@),
{
    proof {
        reveal_strlit("-");
        if text@.len() > 0 {
            assert(text@.subrange(0, 1) =~= seq![text@[0]]);
            assert(text@[0] == '-' ==> seq![text@[0]] =~= "-"@);
            assert(seq![text@[0]] == "-"@ ==> seq![text@[0]][0] == "-"@[0]);
        }
    }
    if begins_with(text, "-") {
        return None;
    }
    proof {
        lemma_unsigned(text@);
    }
    match parse_signed(text) {
        Some(number) => if number <= 65535 {
            Some(number as u16)
        } else {
            None
        },
        None => None,
    }
}

/// The values of the settings, as the environment gives them.
pub struct Environment {
    pub bind_addr: Option<String>,
    pub port: Option<String>,
    pub listen_addr: Option<String>,
    pub state_root: Option<String>,
    pub cursor_proxy_api_key: Option<String>,
    pub codex_cursor_proxy_api_key: Option<String>,
    pub upstream_url: Option<String>,
    pub upstream_identity_encoding: Option<String>,
    pub upstream_transport_tuning: Option<String>,
    pub log_full_body: Option<String>,
    pub is_debug: Option<String>,
    pub model_aliases: Option<String>,
}

/// The settings of the proxy.
pub struct Settings {
    /// Where to listen, if this is an address.
    pub listen_addr: Option<String>,
    /// Where else to listen, if this is an address.
    pub bind_addr: String,
    /// On which port to listen, whatever else there is.
    pub port: u16,
    pub state_root: String,
    pub upstream_url: String,
    pub upstream_identity_encoding: bool,
    pub tune_upstream_transport: bool,
    pub static_api_key: Option<String>,
    pub log_full_body: bool,
    pub model_aliases: TextMap<String>,
}

/// The port that is configured, or else the default one.
pub open spec fn configured_port(value: Option<Seq<char>>) -> u16 {
    match value {
        Some(value) => match port_of(value) {
            Some(port) => port,
            None => 3000,
        },
        None => 3000,
    }
}

/// The key that is configured: under the first name, or else under the second.
pub open spec fn configured_key(first: Option<Seq<char>>, second: Option<Seq<char>>) -> Option<
    Seq<char>,
> {
    nonblank(
        if first is Some {
            first
        } else {
            second
        },
    )
}

fn or_default(value: Option<String>, default: &str) -> (out: String)
    ensures
        out@ == text_or(opt_string(value), default@),
{
    match value {
        Some(value) => value,
        None => default.to_owned(),
    }
}

fn flag(value: &Option<String>) -> (on: bool)
    ensures
        on == switched_on(opt_string(*value)),
{
    match value {
        Some(value) => env_flag(Some(value.as_str())),
        None => env_flag(None),
    }
}

impl Settings {
    /// The settings that an environment asks for.
    pub fn from_env(environment: Environment) -> (settings: Settings)
        ensures
            opt_string(settings.listen_addr) == nonblank(opt_string(environment.listen_addr)),
            settings.port == configured_port(opt_string(environment.port)),
            settings.bind_addr@ == text_or(
                nonblank(opt_string(environment.bind_addr)),
                "0.0.0.0"@,
            ) + ":"@ + number_digits(settings.port as nat),
            settings.state_root@ == text_or(
                nonblank(opt_string(environment.state_root)),
                ".state"@,
            ),
            settings.upstream_url@ == text_or(
                opt_string(environment.upstream_url),
                "https://chatgpt.com/backend-api/codex/responses"@,
            ),
            settings.upstream_identity_encoding == switched_on(
                opt_string(environment.upstream_identity_encoding),
            ),
            settings.tune_upstream_transport == switched_on(
                opt_string(environment.upstream_transport_tuning),
            ),
            opt_string(settings.static_api_key) == configured_key(
                opt_string(environment.cursor_proxy_api_key),
                opt_string(environment.codex_cursor_proxy_api_key),
            ),
            settings.log_full_body == (switched_on(opt_string(environment.log_full_body))
                || switched_on(opt_string(environment.is_debug))),
            string_table(settings.model_aliases) == (match nonblank(
                opt_string(environment.model_aliases),
            ) {
                Some(list) => alias_table(split_on(list, ',')),
                None => default_aliases(),
            }),
    {
        let port: u16 = match &environment.port {
            Some(value) => match parse_port(value.as_str()) {
                Some(port) => port,
                None => 3000,
            },
            None => 3000,
        };
        let host = or_default(keep_nonblank(environment.bind_addr), "0.0.0.0");
        let start = concat(host.as_str(), ":");
        let digits = number_text(port as u64);
        let bind_addr = concat(start.as_str(), digits.as_str());
        let log_full_body = flag(&environment.log_full_body) || flag(&environment.is_debug);
        let key = match environment.cursor_proxy_api_key {
            Some(key) => Some(key),
            None => environment.codex_cursor_proxy_api_key,
        };
        Settings {
            listen_addr: keep_nonblank(environment.listen_addr),
            bind_addr,
            port,
            state_root: or_default(keep_nonblank(environment.state_root), ".state"),
            upstream_url: or_default(
                environment.upstream_url,
                "https://chatgpt.com/backend-api/codex/responses",
            ),
            upstream_identity_encoding: flag(&environment.upstream_identity_encoding),
            tune_upstream_transport: flag(&environment.upstream_transport_tuning),
            static_api_key: keep_nonblank(key),
            log_full_body,
            model_aliases: load_model_aliases(environment.model_aliases),
        }
    }
}

/// What the program logs of itself, unless that is configured.
pub fn default_log_filter(is_debug: Option<&str>) -> (filter: &'static str)
    ensures
        filter@ == (if switched_on(opt_text(is_debug)) {
            "codex_proxy=debug,info"@
        } else {
            "codex_proxy=info,info"@
        }),
{
    if env_flag(is_debug) {
        "codex_proxy=debug,info"
    } else {
        "codex_proxy=info,info"
    }
}

} // verus!
