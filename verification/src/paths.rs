//! Where things are kept on disk.
//!
//! The environment is handed in, so that the player and every client agree on
//! these paths whatever reads them.
use vstd::prelude::*;

use crate::provider::Provider;
use crate::text;

verus! {

/// The variables that decide the paths, as far as they are set.
#[derive(Debug)]
pub struct Env {
    pub cache_home: Option<String>,
    pub state_home: Option<String>,
    pub config_home: Option<String>,
    pub home: Option<String>,
}

/// `rel` under `base`. An absolute `rel` stands for itself.
pub open spec fn under(base: Seq<char>, rel: Seq<char>) -> Seq<char> {
    if rel.len() > 0 && rel[0] == '/' {
        rel
    } else if base.len() == 0 || base.last() == '/' {
        base + rel
    } else {
        base + "/"@ + rel
    }
}

/// `rel` under `base`.
pub fn join(base: &str, rel: &str) -> (r: String)
    ensures
        r@ == under(base@, rel@),
{
    let b = text::chars(base);
    let s = text::chars(rel);
    if s.len() > 0 && s[0] == '/' {
        return rel.to_owned();
    }
    let mut out = base.to_owned();
    if b.len() > 0 && b[b.len() - 1] != '/' {
        out.append("/");
    }
    out.append(rel);
    out
}

/// The directory a variable names, else `fallback` in the home directory.
pub open spec fn base_dir(
    value: Option<Seq<char>>,
    home: Option<Seq<char>>,
    fallback: Seq<char>,
) -> Option<Seq<char>> {
    match value {
        Some(v) if v.len() > 0 => Some(v),
        _ => match home {
            Some(h) => Some(under(h, fallback)),
            None => None,
        },
    }
}

/// The directory a variable names, else `fallback` in the home directory.
pub fn xdg(value: &Option<String>, home: &Option<String>, fallback: &str) -> (r: Option<String>)
    ensures
        text::opt_view(r) == base_dir(text::opt_view(*value), text::opt_view(*home), fallback@),
{
    if let Some(v) = value {
        if !v.as_str().is_empty() {
            return Some(v.clone());
        }
    }
    match home {
        Some(h) => Some(join(h.as_str(), fallback)),
        None => None,
    }
}

/// `rel` under a directory, if there is one.
pub open spec fn under_opt(base: Option<Seq<char>>, rel: Seq<char>) -> Option<Seq<char>> {
    match base {
        Some(b) => Some(under(b, rel)),
        None => None,
    }
}

/// `rel` under a directory, if there is one.
pub fn join_opt(base: Option<String>, rel: &str) -> (r: Option<String>)
    ensures
        text::opt_view(r) == under_opt(text::opt_view(base), rel@),
{
    match base {
        Some(b) => Some(join(b.as_str(), rel)),
        None => None,
    }
}

impl Env {
    pub open spec fn spec_cache_dir(self) -> Option<Seq<char>> {
        under_opt(
            base_dir(text::opt_view(self.cache_home), text::opt_view(self.home), ".cache"@),
            "vinilo"@,
        )
    }

    pub open spec fn spec_state_dir(self) -> Option<Seq<char>> {
        under_opt(
            base_dir(text::opt_view(self.state_home), text::opt_view(self.home), ".local/state"@),
            "vinilo"@,
        )
    }

    pub open spec fn spec_config_dir(self) -> Option<Seq<char>> {
        under_opt(
            base_dir(text::opt_view(self.config_home), text::opt_view(self.home), ".config"@),
            "vinilo"@,
        )
    }
}

/// `vinilo` in the cache directory, which is `~/.cache` by default.
pub fn cache_dir(env: &Env) -> (r: Option<String>)
    ensures
        text::opt_view(r) == env.spec_cache_dir(),
{
    join_opt(xdg(&env.cache_home, &env.home, ".cache"), "vinilo")
}

/// The name of a source's own cache file. Apple Music's is the bare one.
pub open spec fn spec_cache_name(base: Seq<char>, provider: Provider) -> Seq<char> {
    match provider.spec_cache_stem() {
        None => base + ".json"@,
        Some(stem) => base + "-"@ + stem + ".json"@,
    }
}

/// The name of a source's own cache file.
pub fn cache_name(base: &str, provider: Provider) -> (r: String)
    ensures
        r@ == spec_cache_name(base@, provider),
{
    let mut out = base.to_owned();
    if let Some(stem) = provider.cache_stem() {
        out.append("-");
        out.append(stem);
    }
    out.append(".json");
    out
}

/// A cache file of a source; Apple Music's where none is chosen.
pub fn cache_file(env: &Env, base: &str, chosen: Option<Provider>) -> (r: Option<String>)
    ensures
        text::opt_view(r) == under_opt(
            env.spec_cache_dir(),
            spec_cache_name(
                base@,
                match chosen {
                    Some(p) => p,
                    None => Provider::AppleMusic,
                },
            ),
        ),
{
    let provider = match chosen {
        Some(p) => p,
        None => Provider::AppleMusic,
    };
    join_opt(cache_dir(env), cache_name(base, provider).as_str())
}

/// The cache file from before sources had their own.
pub fn legacy_cache_file(env: &Env, base: &str) -> (r: Option<String>)
    ensures
        text::opt_view(r) == under_opt(env.spec_cache_dir(), base@ + ".json"@),
{
    let mut name = base.to_owned();
    name.append(".json");
    join_opt(cache_dir(env), name.as_str())
}

/// Where covers are kept: beside the other caches, so that they can be cleared
/// on their own.
pub fn artwork_dir(env: &Env) -> (r: Option<String>)
    ensures
        text::opt_view(r) == under_opt(env.spec_cache_dir(), "artwork"@),
{
    join_opt(cache_dir(env), "artwork")
}

/// `vinilo` in the state directory, which is `~/.local/state` by default.
pub fn state_dir(env: &Env) -> (r: Option<String>)
    ensures
        text::opt_view(r) == env.spec_state_dir(),
{
    join_opt(xdg(&env.state_home, &env.home, ".local/state"), "vinilo")
}

/// `vinilo` in the configuration directory, which is `~/.config` by default.
pub fn config_dir(env: &Env) -> (r: Option<String>)
    ensures
        text::opt_view(r) == env.spec_config_dir(),
{
    join_opt(xdg(&env.config_home, &env.home, ".config"), "vinilo")
}

/// No two sources share a cache file.
pub proof fn cache_files_are_not_shared(base: Seq<char>, a: Provider, b: Provider)
    requires
        spec_cache_name(base, a) == spec_cache_name(base, b),
    ensures
        a == b,
{
    reveal_strlit(".json");
    reveal_strlit("-");
    let x = spec_cache_name(base, a);
    let y = spec_cache_name(base, b);
    let n = base.len() as int;
    assert(a is AppleMusic ==> x[n] == '.');
    assert(!(a is AppleMusic) ==> x[n] == '-');
    assert(b is AppleMusic ==> y[n] == '.');
    assert(!(b is AppleMusic) ==> y[n] == '-');
    if !(a is AppleMusic) {
        assert(x.subrange(n + 1, x.len() - 5) =~= a.spec_str());
        assert(y.subrange(n + 1, y.len() - 5) =~= b.spec_str());
        crate::provider::sources_do_not_share_files(a, b);
    }
}

/// What is below a directory begins with it.
pub proof fn what_is_under_begins_with_it(base: Seq<char>, rel: Seq<char>)
    requires
        rel.len() == 0 || rel[0] != '/',
    ensures
        base.is_prefix_of(under(base, rel)),
        rel.is_suffix_of(under(base, rel)),
{
    let u = under(base, rel);
    assert(base =~= u.subrange(0, base.len() as int));
    assert(rel =~= u.subrange(u.len() - rel.len(), u.len() as int));
}

/// A directory is what its variable names, and otherwise the usual one in the
/// home directory; an empty variable names none.
pub proof fn a_variable_names_its_directory(value: Seq<char>, home: Seq<char>, fallback: Seq<char>)
    requires
        value.len() > 0,
        home.len() > 0,
        home.last() != '/',
        fallback.len() == 0 || fallback[0] != '/',
    ensures
        base_dir(Some(value), Some(home), fallback) == Some(value),
        base_dir(None, Some(home), fallback) == Some(home + "/"@ + fallback),
        base_dir(Some(Seq::empty()), Some(home), fallback) == Some(home + "/"@ + fallback),
        base_dir(None, None, fallback) is None,
{
}

/// The program keeps its files in its own directory below the one for caches,
/// for state or for configuration.
pub proof fn each_kind_of_file_has_its_directory(env: Env, dir: Seq<char>)
    requires
        dir.len() > 0,
        dir.last() != '/',
    ensures
        text::opt_view(env.cache_home) == Some(dir) ==> env.spec_cache_dir() == Some(
            dir + "/"@ + "vinilo"@,
        ),
        text::opt_view(env.state_home) == Some(dir) ==> env.spec_state_dir() == Some(
            dir + "/"@ + "vinilo"@,
        ),
        text::opt_view(env.config_home) == Some(dir) ==> env.spec_config_dir() == Some(
            dir + "/"@ + "vinilo"@,
        ),
        env.cache_home is None && text::opt_view(env.home) == Some(dir) ==> env.spec_cache_dir()
            == Some(dir + "/"@ + ".cache"@ + "/"@ + "vinilo"@),
        env.config_home is None && text::opt_view(env.home) == Some(dir) ==> env.spec_config_dir()
            == Some(dir + "/"@ + ".config"@ + "/"@ + "vinilo"@),
        env.state_home is None && text::opt_view(env.home) == Some(dir) ==> env.spec_state_dir()
            == Some(dir + "/"@ + ".local/state"@ + "/"@ + "vinilo"@),
{
    reveal_strlit("vinilo");
    reveal_strlit(".cache");
    reveal_strlit(".config");
    reveal_strlit(".local/state");
    assert("vinilo"@[0] == 'v');
    assert(".cache"@[0] == '.' && ".config"@[0] == '.' && ".local/state"@[0] == '.');
    assert((dir + "/"@ + ".cache"@).last() == 'e') by {
        assert(".cache"@[5] == 'e');
    }
    assert((dir + "/"@ + ".config"@).last() == 'g') by {
        assert(".config"@[6] == 'g');
    }
    assert((dir + "/"@ + ".local/state"@).last() == 'e') by {
        assert(".local/state"@[11] == 'e');
    }
}

} // verus!
