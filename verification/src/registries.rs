//! Image registries from `BLINK_IMAGE_REGISTRIES`: comma-separated entries
//! `host[@modifier+modifier...]` with modifiers `http`, `https`, `search`,
//! `skip_verify` (transport defaults to HTTPS).

use vstd::prelude::*;

use crate::text::{
    chars_eq_str, find_char, find_char_in, nonempty_trimmed, split_ranges, split_seq,
    split_trim_nonempty, str_to_chars, strs_view, trim_bounds, trim_seq, lemma_find_char_bounds,
    lemma_split_append_plain, trim_end_seq, trim_start_seq,
};

verus! {

broadcast use vstd::string::group_string_axioms;

/// How images are pulled from a registry.
#[derive(Clone, Copy, Debug, PartialEq, Eq, Structural)]
pub enum RegistryTransport {
    Http,
    Https,
}

/// One configured image registry.
#[derive(Clone, Debug, PartialEq, Eq)]
pub struct ImageRegistry {
    pub host: String,
    pub transport: RegistryTransport,
    pub skip_verify: bool,
    pub search: bool,
}

/// A registry, as values.
pub struct ImageRegistryView {
    pub host: Seq<char>,
    pub transport: RegistryTransport,
    pub skip_verify: bool,
    pub search: bool,
}

impl View for ImageRegistry {
    type V = ImageRegistryView;

    open spec fn view(&self) -> ImageRegistryView {
        ImageRegistryView {
            host: self.host@,
            transport: self.transport,
            skip_verify: self.skip_verify,
            search: self.search,
        }
    }
}

/// Why a registry entry was refused.
#[derive(Clone, Debug, PartialEq, Eq)]
pub enum RegistryError {
    /// The host part of the entry is empty.
    EmptyHost { entry: String },
    /// A modifier that is none of the known ones.
    UnknownModifier { modifier: String, entry: String },
}

/// A refusal, as values.
pub enum RegistryErrorView {
    EmptyHost { entry: Seq<char> },
    UnknownModifier { modifier: Seq<char>, entry: Seq<char> },
}

impl View for RegistryError {
    type V = RegistryErrorView;

    open spec fn view(&self) -> RegistryErrorView {
        match self {
            RegistryError::EmptyHost { entry } => RegistryErrorView::EmptyHost { entry: entry@ },
            RegistryError::UnknownModifier { modifier, entry } => RegistryErrorView::UnknownModifier {
                modifier: modifier@,
                entry: entry@,
            },
        }
    }
}

/// Apply modifiers in order to `(transport, search, skip_verify)`; the first
/// unknown (trimmed) modifier is refused.
pub open spec fn apply_modifiers(
    tokens: Seq<Seq<char>>,
    transport: RegistryTransport,
    search: bool,
    skip_verify: bool,
) -> Result<(RegistryTransport, bool, bool), Seq<char>>
    decreases tokens.len(),
{
    if tokens.len() == 0 {
        Ok((transport, search, skip_verify))
    } else {
        let t = trim_seq(tokens[0]);
        let rest = tokens.drop_first();
        if t == "http"@ {
            apply_modifiers(rest, RegistryTransport::Http, search, skip_verify)
        } else if t == "https"@ {
            apply_modifiers(rest, RegistryTransport::Https, search, skip_verify)
        } else if t == "search"@ {
            apply_modifiers(rest, transport, true, skip_verify)
        } else if t == "skip_verify"@ {
            apply_modifiers(rest, transport, search, true)
        } else if t.len() == 0 {
            apply_modifiers(rest, transport, search, skip_verify)
        } else {
            Err(t)
        }
    }
}

/// The host part and the modifier part of an entry, split at the first `@`.
pub open spec fn registry_entry_parts(entry: Seq<char>) -> (Seq<char>, Seq<char>) {
    let at = find_char(entry, '@');
    if at < entry.len() {
        (
            trim_seq(entry.subrange(0, at as int)),
            trim_seq(entry.subrange(at as int + 1, entry.len() as int)),
        )
    } else {
        (trim_seq(entry), "https"@)
    }
}

/// What one entry parses to.
pub open spec fn registry_entry_of(entry: Seq<char>) -> Result<
    ImageRegistryView,
    RegistryErrorView,
> {
    let (host, modifier) = registry_entry_parts(entry);
    if host.len() == 0 {
        Err(RegistryErrorView::EmptyHost { entry })
    } else {
        match apply_modifiers(split_seq(modifier, '+'), RegistryTransport::Https, false, false) {
            Ok((transport, search, skip_verify)) => Ok(
                ImageRegistryView { host, transport, skip_verify, search },
            ),
            Err(m) => Err(RegistryErrorView::UnknownModifier { modifier: m, entry }),
        }
    }
}

/// Parse one registry entry.
pub fn parse_registry_entry(entry: &str) -> (r: Result<ImageRegistry, RegistryError>)
    ensures
        match r {
            Ok(reg) => registry_entry_of(entry@) == Ok::<ImageRegistryView, RegistryErrorView>(
                reg@,
            ),
            Err(e) => registry_entry_of(entry@) == Err::<ImageRegistryView, RegistryErrorView>(
                e@,
            ),
        },
{
    let chars = str_to_chars(entry);
    let n = chars.len();
    let at = find_char_in(&chars, 0, n, '@');
    proof {
        assert(chars@.subrange(0, n as int) =~= entry@);
    }
    let (host, modifier) = if at < n {
        let (hl, hh) = trim_bounds(&chars, 0, at);
        let (ml, mh) = trim_bounds(&chars, at + 1, n);
        (entry.substring_char(hl, hh).to_owned(), entry.substring_char(ml, mh).to_owned())
    } else {
        let (hl, hh) = trim_bounds(&chars, 0, n);
        (entry.substring_char(hl, hh).to_owned(), String::from_str("https"))
    };
    if host.unicode_len() == 0 {
        return Err(RegistryError::EmptyHost { entry: entry.to_owned() });
    }
    let mchars = str_to_chars(modifier.as_str());
    let ranges = split_ranges(&mchars, 0, mchars.len(), '+');
    let ghost tokens = split_seq(modifier@, '+');
    proof {
        assert(mchars@.subrange(0, mchars@.len() as int) =~= modifier@);
    }
    let mut transport = RegistryTransport::Https;
    let mut search = false;
    let mut skip_verify = false;
    let mut i: usize = 0;
    proof {
        assert(tokens.subrange(0, tokens.len() as int) =~= tokens);
        assert(host@ == registry_entry_parts(entry@).0);
        assert(modifier@ == registry_entry_parts(entry@).1);
    }
    while i < ranges.len()
        invariant
            mchars@ == modifier@,
            tokens == split_seq(modifier@, '+'),
            modifier@ == registry_entry_parts(entry@).1,
            host@ == registry_entry_parts(entry@).0,
            host@.len() > 0,
            ranges@.len() == tokens.len(),
            forall|j: int|
                0 <= j < ranges@.len() ==> 0 <= (#[trigger] ranges@[j]).0 <= ranges@[j].1
                    <= mchars@.len() && mchars@.subrange(ranges@[j].0 as int, ranges@[j].1 as int)
                    == tokens[j],
            i <= ranges@.len(),
            apply_modifiers(tokens, RegistryTransport::Https, false, false) == apply_modifiers(
                tokens.subrange(i as int, tokens.len() as int),
                transport,
                search,
                skip_verify,
            ),
        decreases ranges@.len() - i,
    {
        let (a, b) = ranges[i];
        let (ta, tb) = trim_bounds(&mchars, a, b);
        let ghost rest = tokens.subrange(i as int, tokens.len() as int);
        proof {
            assert(rest[0] == tokens[i as int]);
            assert(rest.drop_first() =~= tokens.subrange(i + 1, tokens.len() as int));
        }
        if chars_eq_str(&mchars, ta, tb, "http") {
            transport = RegistryTransport::Http;
        } else if chars_eq_str(&mchars, ta, tb, "https") {
            transport = RegistryTransport::Https;
        } else if chars_eq_str(&mchars, ta, tb, "search") {
            search = true;
        } else if chars_eq_str(&mchars, ta, tb, "skip_verify") {
            skip_verify = true;
        } else if ta == tb {
        } else {
            let m = modifier.as_str().substring_char(ta, tb).to_owned();
            proof {
                assert(m@ == trim_seq(tokens[i as int]));
                assert(apply_modifiers(rest, transport, search, skip_verify) == Err::<
                    (RegistryTransport, bool, bool),
                    Seq<char>,
                >(m@));
            }
            return Err(RegistryError::UnknownModifier { modifier: m, entry: entry.to_owned() });
        }
        i = i + 1;
    }
    proof {
        assert(tokens.subrange(ranges@.len() as int, tokens.len() as int) =~= Seq::<
            Seq<char>,
        >::empty());
    }
    Ok(ImageRegistry { host, transport, skip_verify, search })
}

/// What a whole `BLINK_IMAGE_REGISTRIES` value parses to: every non-empty
/// trimmed entry in order, or the first refusal.
pub open spec fn registries_of(entries: Seq<Seq<char>>) -> Result<
    Seq<ImageRegistryView>,
    RegistryErrorView,
>
    decreases entries.len(),
{
    if entries.len() == 0 {
        Ok(Seq::empty())
    } else {
        match registries_of(entries.drop_last()) {
            Err(e) => Err(e),
            Ok(rs) => match registry_entry_of(entries.last()) {
                Ok(r) => Ok(rs.push(r)),
                Err(e) => Err(e),
            },
        }
    }
}

/// Parse a comma-separated list of registry entries.
pub fn parse_image_registries(raw: &str) -> (r: Result<Vec<ImageRegistry>, RegistryError>)
    ensures
        match r {
            Ok(regs) => registries_of(nonempty_trimmed(split_seq(raw@, ','))) == Ok::<
                Seq<ImageRegistryView>,
                RegistryErrorView,
            >(regs@.map_values(|g: ImageRegistry| g@)),
            Err(e) => registries_of(nonempty_trimmed(split_seq(raw@, ','))) == Err::<
                Seq<ImageRegistryView>,
                RegistryErrorView,
            >(e@),
        },
{
    let entries = split_trim_nonempty(raw, ',');
    let ghost ev = strs_view(entries@);
    let mut out: Vec<ImageRegistry> = Vec::new();
    let mut i: usize = 0;
    proof {
        assert(ev.take(0) =~= Seq::<Seq<char>>::empty());
        assert(out@.map_values(|g: ImageRegistry| g@) =~= Seq::<ImageRegistryView>::empty());
    }
    while i < entries.len()
        invariant
            ev == strs_view(entries@),
            ev == nonempty_trimmed(split_seq(raw@, ',')),
            i <= entries@.len(),
            registries_of(ev.take(i as int)) == Ok::<Seq<ImageRegistryView>, RegistryErrorView>(
                out@.map_values(|g: ImageRegistry| g@),
            ),
        decreases entries@.len() - i,
    {
        proof {
            assert(ev.take(i + 1).drop_last() =~= ev.take(i as int));
            assert(ev.take(i + 1).last() == entries@[i as int]@);
        }
        match parse_registry_entry(entries[i].as_str()) {
            Ok(reg) => {
                let ghost before = out@;
                out.push(reg);
                assert(out@.map_values(|g: ImageRegistry| g@) =~= before.map_values(
                    |g: ImageRegistry| g@,
                ).push(reg@));
            },
            Err(e) => {
                proof {
                    assert(registries_of(ev.take(i as int)) is Ok);
                    assert(registry_entry_of(ev.take(i + 1).last()) == Err::<
                        ImageRegistryView,
                        RegistryErrorView,
                    >(e@));
                    assert(registries_of(ev.take(i + 1)) == Err::<
                        Seq<ImageRegistryView>,
                        RegistryErrorView,
                    >(e@));
                    lemma_registries_error_sticks(ev, i + 1);
                }
                return Err(e);
            },
        }
        i = i + 1;
    }
    assert(ev.take(entries@.len() as int) =~= ev);
    Ok(out)
}

/// Once a prefix of the entries is refused, the whole list is refused with
/// the same error.
proof fn lemma_registries_error_sticks(entries: Seq<Seq<char>>, k: int)
    requires
        0 <= k <= entries.len(),
        registries_of(entries.take(k)) is Err,
    ensures
        registries_of(entries) == registries_of(entries.take(k)),
    decreases entries.len() - k,
{
    if k < entries.len() {
        assert(entries.take(k + 1).drop_last() =~= entries.take(k));
        lemma_registries_error_sticks(entries, k + 1);
    } else {
        assert(entries.take(k) =~= entries);
    }
}

/// Some modifier token, trimmed, is `w`.
pub open spec fn has_modifier(tokens: Seq<Seq<char>>, w: Seq<char>) -> bool {
    exists|i: int| 0 <= i < tokens.len() && #[trigger] trim_seq(tokens[i]) == w
}

/// The transport ends up HTTP: some `http` token comes after every `https`
/// token, or the starting transport is HTTP and no `https` token appears.
pub open spec fn ends_on_http(tokens: Seq<Seq<char>>, start: RegistryTransport) -> bool {
    ||| exists|i: int|
        0 <= i < tokens.len() && #[trigger] trim_seq(tokens[i]) == "http"@ && forall|j: int|
            i < j < tokens.len() ==> trim_seq(tokens[j]) != "https"@
    ||| start == RegistryTransport::Http && forall|j: int|
        0 <= j < tokens.len() ==> #[trigger] trim_seq(tokens[j]) != "https"@
}

/// Accepted modifiers set `search` and `skip_verify` exactly when a token
/// names them, and the last of `http` and `https` picks the transport.
proof fn lemma_modifier_effects(
    tokens: Seq<Seq<char>>,
    transport: RegistryTransport,
    search: bool,
    skip_verify: bool,
)
    ensures
        apply_modifiers(tokens, transport, search, skip_verify) matches Ok((t, s, k)) ==> {
            &&& k == (skip_verify || has_modifier(tokens, "skip_verify"@))
            &&& s == (search || has_modifier(tokens, "search"@))
            &&& (t == RegistryTransport::Http) == ends_on_http(tokens, transport)
        },
    decreases tokens.len(),
{
    reveal_strlit("http");
    reveal_strlit("https");
    reveal_strlit("search");
    reveal_strlit("skip_verify");
    assert("http"@.len() == 4 && "https"@.len() == 5 && "search"@.len() == 6 && "skip_verify"@.len()
        == 11);
    if tokens.len() > 0 {
        let t0 = trim_seq(tokens[0]);
        let rest = tokens.drop_first();
        let (t1, s1, k1) = if t0 == "http"@ {
            (RegistryTransport::Http, search, skip_verify)
        } else if t0 == "https"@ {
            (RegistryTransport::Https, search, skip_verify)
        } else if t0 == "search"@ {
            (transport, true, skip_verify)
        } else if t0 == "skip_verify"@ {
            (transport, search, true)
        } else {
            (transport, search, skip_verify)
        };
        lemma_modifier_effects(rest, t1, s1, k1);
        assert forall|w: Seq<char>| #![auto] has_modifier(tokens, w) == (t0 == w || has_modifier(rest, w)) by {
            if has_modifier(tokens, w) {
                let i = choose|i: int| 0 <= i < tokens.len() && #[trigger] trim_seq(tokens[i]) == w;
                if i > 0 {
                    assert(rest[i - 1] == tokens[i]);
                }
            }
            if has_modifier(rest, w) {
                let i = choose|i: int| 0 <= i < rest.len() && #[trigger] trim_seq(rest[i]) == w;
                assert(rest[i] == tokens[i + 1]);
            }
        }
        if apply_modifiers(tokens, transport, search, skip_verify) is Ok {
            assert(t0 == "http"@ || t0 == "https"@ || t0 == "search"@ || t0 == "skip_verify"@ || t0.len()
                == 0);
            assert(apply_modifiers(tokens, transport, search, skip_verify) == apply_modifiers(
                rest,
                t1,
                s1,
                k1,
            ));
            let r = apply_modifiers(tokens, transport, search, skip_verify);
            let tup = r->Ok_0;
            assert(tup.2 == (k1 || has_modifier(rest, "skip_verify"@)));
            assert(k1 == (skip_verify || t0 == "skip_verify"@));
            assert(s1 == (search || t0 == "search"@));
            assert(has_modifier(tokens, "skip_verify"@) == (t0 == "skip_verify"@ || has_modifier(
                rest,
                "skip_verify"@,
            )));
            assert(has_modifier(tokens, "search"@) == (t0 == "search"@ || has_modifier(
                rest,
                "search"@,
            )));
            // the transport: shift the witnesses between `tokens` and `rest`
            if ends_on_http(tokens, transport) {
                if exists|i: int|
                    0 <= i < tokens.len() && #[trigger] trim_seq(tokens[i]) == "http"@ && forall|j: int|
                        i < j < tokens.len() ==> trim_seq(tokens[j]) != "https"@ {
                    let i = choose|i: int|
                        0 <= i < tokens.len() && #[trigger] trim_seq(tokens[i]) == "http"@ && forall|
                            j: int,
                        |
                            i < j < tokens.len() ==> trim_seq(tokens[j]) != "https"@;
                    if i == 0 {
                        assert forall|j: int| 0 <= j < rest.len() implies #[trigger] trim_seq(rest[j])
                            != "https"@ by {
                            assert(rest[j] == tokens[j + 1]);
                        }
                    } else {
                        assert(rest[i - 1] == tokens[i]);
                        assert forall|j: int| i - 1 < j < rest.len() implies trim_seq(rest[j])
                            != "https"@ by {
                            assert(rest[j] == tokens[j + 1]);
                        }
                    }
                } else {
                    assert(trim_seq(tokens[0]) != "https"@);
                    assert forall|j: int| 0 <= j < rest.len() implies #[trigger] trim_seq(rest[j])
                        != "https"@ by {
                        assert(rest[j] == tokens[j + 1]);
                    }
                }
                assert(ends_on_http(rest, t1));
            }
            if ends_on_http(rest, t1) {
                if exists|i: int|
                    0 <= i < rest.len() && #[trigger] trim_seq(rest[i]) == "http"@ && forall|j: int|
                        i < j < rest.len() ==> trim_seq(rest[j]) != "https"@ {
                    let i = choose|i: int|
                        0 <= i < rest.len() && #[trigger] trim_seq(rest[i]) == "http"@ && forall|
                            j: int,
                        |
                            i < j < rest.len() ==> trim_seq(rest[j]) != "https"@;
                    assert(rest[i] == tokens[i + 1]);
                    assert forall|j: int| i + 1 < j < tokens.len() implies trim_seq(tokens[j])
                        != "https"@ by {
                        assert(rest[j - 1] == tokens[j]);
                    }
                } else {
                    assert(t1 == RegistryTransport::Http);
                    if t0 == "http"@ {
                        assert forall|j: int| 0 < j < tokens.len() implies trim_seq(tokens[j])
                            != "https"@ by {
                            assert(rest[j - 1] == tokens[j]);
                            assert(trim_seq(rest[j - 1]) != "https"@);
                        }
                    } else {
                        assert forall|j: int| 0 <= j < tokens.len() implies #[trigger] trim_seq(
                            tokens[j],
                        ) != "https"@ by {
                            if j > 0 {
                                assert(rest[j - 1] == tokens[j]);
                                assert(trim_seq(rest[j - 1]) != "https"@);
                            }
                        }
                    }
                }
                assert(ends_on_http(tokens, transport));
            }
        }
    }
}

/// What an entry means: split at its first `@` into a trimmed host and
/// `+`-separated modifiers, `search` and `skip_verify` are on exactly when a
/// trimmed modifier names them, and the transport is HTTPS unless an `http`
/// modifier comes after every `https` one. An entry without `@` is its
/// trimmed host over HTTPS with neither flag.
pub proof fn lemma_registry_entry_meaning(entry: Seq<char>)
    ensures
        registry_entry_of(entry) matches Ok(r) ==> {
            &&& forall|k: int|
                0 <= k < entry.len() && #[trigger] entry[k] == '@' && (forall|j: int|
                    0 <= j < k ==> entry[j] != '@') ==> ({
                    let tokens = split_seq(
                        trim_seq(entry.subrange(k + 1, entry.len() as int)),
                        '+',
                    );
                    &&& r.host == trim_seq(entry.subrange(0, k))
                    &&& r.skip_verify == has_modifier(tokens, "skip_verify"@)
                    &&& r.search == has_modifier(tokens, "search"@)
                    &&& (r.transport == RegistryTransport::Http) == ends_on_http(
                        tokens,
                        RegistryTransport::Https,
                    )
                })
            &&& (forall|j: int| 0 <= j < entry.len() ==> entry[j] != '@') ==> {
                &&& r.host == trim_seq(entry)
                &&& r.transport == RegistryTransport::Https
                &&& !r.search
                &&& !r.skip_verify
            }
        },
{
    lemma_find_char_bounds(entry, '@');
    let at = find_char(entry, '@');
    let (host, modifier) = registry_entry_parts(entry);
    let tokens = split_seq(modifier, '+');
    lemma_modifier_effects(tokens, RegistryTransport::Https, false, false);
    if registry_entry_of(entry) is Ok {
        assert forall|k: int|
            0 <= k < entry.len() && #[trigger] entry[k] == '@' && (forall|j: int|
                0 <= j < k ==> entry[j] != '@') implies at == k by {
            if at < k {
                assert(entry[at as int] == '@');
            }
        }
        if forall|j: int| 0 <= j < entry.len() ==> entry[j] != '@' {
            if at < entry.len() {
                assert(entry[at as int] == '@');
            }
            reveal_strlit("https");
            reveal_strlit("http");
            reveal_strlit("search");
            reveal_strlit("skip_verify");
            let h = "https"@;
            let e = Seq::<char>::empty();
            lemma_split_append_plain(e, h, '+');
            assert(e + h =~= h);
            assert(split_seq(e, '+') == seq![e]);
            assert(tokens =~= seq![h]);
            assert(trim_start_seq(h) == h);
            assert(trim_end_seq(h) == h);
            assert(trim_seq(tokens[0]) == h);
            assert(!has_modifier(tokens, "skip_verify"@));
            assert(!has_modifier(tokens, "search"@));
            assert(!ends_on_http(tokens, RegistryTransport::Https));
        }
    }
}

} // verus!
