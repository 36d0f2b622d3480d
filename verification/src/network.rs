//! Session network defaults and resolution.
//!
//! Persistent sessions default to outbound network enabled so agents can reach
//! LLM APIs, OAuth endpoints and package registries. A request may override
//! the default; the environment (`BLINK_NETWORK`, `BLINK_ALLOW_NET`) sets it.

use vstd::prelude::*;

use crate::text::{
    join_seq, lemma_nonempty_trimmed_fixed, lemma_nonempty_trimmed_pieces, lemma_split_join,
    lemma_split_lacks_sep, ascii_lowercase_seq, eq_ascii_lowercase, nonempty_trimmed, split_seq, split_trim_nonempty,
    str_to_chars, strs_view, trim_end_seq, trim_seq, trim_start_seq, trim_str,
};

verus! {

/// Whether the sandbox has outbound network.
#[derive(Clone, Copy, Debug, PartialEq, Eq, Structural)]
pub enum NetworkMode {
    Enabled,
    Disabled,
}

/// Network configuration of a new sandbox: the mode and the hosts egress is
/// limited to (empty: no limit).
#[derive(Clone, Debug, PartialEq, Eq)]
pub struct NetworkConfig {
    pub mode: NetworkMode,
    pub allow_net: Vec<String>,
}

/// A network configuration, as values.
pub struct NetworkConfigView {
    pub mode: NetworkMode,
    pub allow_net: Seq<Seq<char>>,
}

impl View for NetworkConfig {
    type V = NetworkConfigView;

    open spec fn view(&self) -> NetworkConfigView {
        NetworkConfigView { mode: self.mode, allow_net: strs_view(self.allow_net@) }
    }
}

/// A network value that is neither enabled nor disabled; it holds the
/// trimmed text (the message shows it in lower case).
#[derive(Clone, Debug, PartialEq, Eq)]
pub enum NetworkError {
    InvalidMode(String),
}

/// The mode a (trimmed, lower-cased) word selects.
pub open spec fn network_mode_of(raw: Seq<char>) -> Option<NetworkMode> {
    let w = ascii_lowercase_seq(trim_seq(raw));
    if w == "enabled"@ || w == "1"@ || w == "true"@ || w == "on"@ {
        Some(NetworkMode::Enabled)
    } else if w == "disabled"@ || w == "0"@ || w == "false"@ || w == "off"@ {
        Some(NetworkMode::Disabled)
    } else {
        None
    }
}

/// Parse a network mode: `enabled|1|true|on` or `disabled|0|false|off`, any
/// ASCII case, surrounding whitespace ignored.
pub fn parse_network_mode(raw: &str) -> (r: Result<NetworkMode, NetworkError>)
    ensures
        match r {
            Ok(m) => network_mode_of(raw@) == Some(m),
            Err(NetworkError::InvalidMode(t)) => network_mode_of(raw@) is None && t@ == trim_seq(
                raw@,
            ),
        },
{
    let trimmed = trim_str(raw);
    let w = str_to_chars(trimmed.as_str());
    if eq_ascii_lowercase(&w, "enabled") || eq_ascii_lowercase(&w, "1") || eq_ascii_lowercase(
        &w,
        "true",
    ) || eq_ascii_lowercase(&w, "on") {
        Ok(NetworkMode::Enabled)
    } else if eq_ascii_lowercase(&w, "disabled") || eq_ascii_lowercase(&w, "0")
        || eq_ascii_lowercase(&w, "false") || eq_ascii_lowercase(&w, "off") {
        Ok(NetworkMode::Disabled)
    } else {
        Err(NetworkError::InvalidMode(trimmed))
    }
}

/// The allow-list a comma-separated value names: trimmed, empty entries
/// dropped.
pub open spec fn allow_net_of(raw: Seq<char>) -> Seq<Seq<char>> {
    nonempty_trimmed(split_seq(raw, ','))
}

/// Parse a comma-separated host allow-list.
pub fn parse_allow_net(raw: &str) -> (r: Result<Vec<String>, NetworkError>)
    ensures
        r matches Ok(list) && strs_view(list@) == allow_net_of(raw@),
{
    Ok(split_trim_nonempty(raw, ','))
}

/// Every host of a parsed allow-list is non-empty, trimmed and free of
/// commas, and parsing the list joined with commas gives the same list.
pub proof fn lemma_allow_net_pieces_reparse(raw: Seq<char>)
    ensures
        forall|i: int|
            0 <= i < allow_net_of(raw).len() ==> (#[trigger] allow_net_of(raw)[i]).len() > 0
                && trim_seq(allow_net_of(raw)[i]) == allow_net_of(raw)[i] && !allow_net_of(
                raw,
            )[i].contains(','),
        allow_net_of(join_seq(allow_net_of(raw), ',')) == allow_net_of(raw),
{
    let v = allow_net_of(raw);
    lemma_split_lacks_sep(raw, ',');
    lemma_nonempty_trimmed_pieces(split_seq(raw, ','), ',');
    assert forall|i: int| 0 <= i < v.len() implies (#[trigger] v[i]).len() > 0 && trim_seq(v[i])
        == v[i] && !v[i].contains(',') by {
        if v[i].contains(',') {
            let j = choose|j: int| 0 <= j < v[i].len() && v[i][j] == ',';
            assert(v[i][j] != ',');
        }
    }
    if v.len() == 0 {
        let e = Seq::<char>::empty();
        assert(join_seq(v, ',') == e);
        assert(split_seq(e, ',') == seq![e]);
        assert(trim_start_seq(e) == e);
        assert(trim_end_seq(e) == e);
        assert(seq![e].drop_last() =~= Seq::<Seq<char>>::empty());
        assert(nonempty_trimmed(Seq::<Seq<char>>::empty()) == Seq::<Seq<char>>::empty());
        assert(seq![e].last() == e);
        assert(trim_seq(e) == e);
        assert(nonempty_trimmed(seq![e]) =~= v);
    } else {
        lemma_split_join(v, ',');
        lemma_nonempty_trimmed_fixed(v);
    }
}

/// The default configuration the environment selects: the mode from
/// `BLINK_NETWORK` when it parses, else enabled; the allow-list from
/// `BLINK_ALLOW_NET`, else empty.
pub open spec fn default_network_config_of(
    network_env: Option<Seq<char>>,
    allow_net_env: Option<Seq<char>>,
) -> NetworkConfigView {
    NetworkConfigView {
        mode: match network_env {
            Some(raw) => match network_mode_of(raw) {
                Some(m) => m,
                None => NetworkMode::Enabled,
            },
            None => NetworkMode::Enabled,
        },
        allow_net: match allow_net_env {
            Some(raw) => allow_net_of(raw),
            None => Seq::empty(),
        },
    }
}

/// Default network configuration from the values of `BLINK_NETWORK` and
/// `BLINK_ALLOW_NET` (enabled with full egress unless opted out).
pub fn default_network_config(network_env: Option<&str>, allow_net_env: Option<&str>) -> (r:
    NetworkConfig)
    ensures
        r@ == default_network_config_of(
            match network_env {
                Some(s) => Some(s@),
                None => None,
            },
            match allow_net_env {
                Some(s) => Some(s@),
                None => None,
            },
        ),
{
    let mode = match network_env {
        Some(raw) => match parse_network_mode(raw) {
            Ok(m) => m,
            Err(_) => NetworkMode::Enabled,
        },
        None => NetworkMode::Enabled,
    };
    let allow_net = match allow_net_env {
        Some(raw) => match parse_allow_net(raw) {
            Ok(list) => list,
            Err(_) => Vec::new(),
        },
        None => Vec::new(),
    };
    let r = NetworkConfig { mode, allow_net };
    proof {
        if allow_net_env is None {
            assert(strs_view(r.allow_net@) =~= Seq::<Seq<char>>::empty());
        }
    }
    r
}

/// The configuration a new session gets: the request's, else the default.
pub fn resolve_network_config(request: Option<NetworkConfig>, default: NetworkConfig) -> (r:
    NetworkConfig)
    ensures
        r == match request {
            Some(c) => c,
            None => default,
        },
{
    match request {
        Some(c) => c,
        None => default,
    }
}

} // verus!
