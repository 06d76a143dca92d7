//! Whether a catalogue source has been set up, and the cookies of its login.
//!
//! Apple Music keeps its session in the engine. The other catalogues are signed
//! in to in a window whose cookies are kept in a file of the form that other
//! tools read.
use vstd::prelude::*;

use crate::order;
use crate::paths::{self, Env};
use crate::provider::Provider;
use crate::text::{self, Rank};

verus! {

/// Where the sources that are set up are listed.
pub fn configured_path(env: &Env) -> (r: Option<String>)
    ensures
        text::opt_view(r) == paths::under_opt(env.spec_config_dir(), "configured"@),
{
    paths::join_opt(paths::config_dir(env), "configured")
}

/// A file or a directory that only catalogues have.
pub open spec fn catalog_path(
    dir: Option<Seq<char>>,
    provider: Provider,
    name: Seq<char>,
) -> Option<Seq<char>> {
    if provider.spec_is_catalog() {
        paths::under_opt(dir, name)
    } else {
        None
    }
}

/// Where a catalogue's cookies are kept.
pub fn cookies_path(env: &Env, provider: Provider) -> (r: Option<String>)
    ensures
        text::opt_view(r) == catalog_path(
            env.spec_config_dir(),
            provider,
            "cookies-"@ + provider.spec_str() + ".txt"@,
        ),
{
    if !provider.is_catalog() {
        return None;
    }
    let mut name = "cookies-".to_owned();
    name.append(provider.as_str());
    name.append(".txt");
    paths::join_opt(paths::config_dir(env), name.as_str())
}

fn webkit_name(provider: Provider) -> (r: String)
    ensures
        r@ == "webkit-"@ + provider.spec_str(),
{
    let mut name = "webkit-".to_owned();
    name.append(provider.as_str());
    name
}

/// The profile of a catalogue's login window.
pub fn webkit_data_dir(env: &Env, provider: Provider) -> (r: Option<String>)
    ensures
        text::opt_view(r) == catalog_path(
            env.spec_config_dir(),
            provider,
            "webkit-"@ + provider.spec_str(),
        ),
{
    if !provider.is_catalog() {
        return None;
    }
    paths::join_opt(paths::config_dir(env), webkit_name(provider).as_str())
}

/// The cache of a catalogue's login window.
pub fn webkit_cache_dir(env: &Env, provider: Provider) -> (r: Option<String>)
    ensures
        text::opt_view(r) == catalog_path(
            env.spec_cache_dir(),
            provider,
            "webkit-"@ + provider.spec_str(),
        ),
{
    if !provider.is_catalog() {
        return None;
    }
    paths::join_opt(paths::cache_dir(env), webkit_name(provider).as_str())
}

/// The page that a catalogue is signed in to on.
pub fn login_url(provider: Provider) -> (r: &'static str)
    ensures
        r@ == match provider {
            Provider::Spotify =>
                "https://accounts.spotify.com/en/login?continue=https%3A%2F%2Fopen.spotify.com%2F"@,
            Provider::YoutubeMusic =>
                "https://accounts.google.com/ServiceLogin?service=youtube&continue=https%3A%2F%2Fmusic.youtube.com%2F"@,
            Provider::Tidal => "https://listen.tidal.com/login"@,
            _ => ""@,
        },
{
    match provider {
        Provider::Spotify => {
            "https://accounts.spotify.com/en/login?continue=https%3A%2F%2Fopen.spotify.com%2F"
        },
        Provider::YoutubeMusic => {
            "https://accounts.google.com/ServiceLogin?service=youtube&continue=https%3A%2F%2Fmusic.youtube.com%2F"
        },
        Provider::Tidal => "https://listen.tidal.com/login",
        Provider::AppleMusic | Provider::Local => "",
    }
}

/// The addresses whose cookies are kept after a login.
pub open spec fn spec_cookie_uris(provider: Provider) -> Seq<Seq<char>> {
    match provider {
        Provider::Spotify => seq![
            "https://open.spotify.com/"@,
            "https://accounts.spotify.com/"@,
            "https://www.spotify.com/"@,
            "https://spotify.com/"@,
        ],
        Provider::YoutubeMusic => seq![
            "https://music.youtube.com/"@,
            "https://www.youtube.com/"@,
            "https://accounts.google.com/"@,
            "https://www.google.com/"@,
        ],
        Provider::Tidal => seq![
            "https://listen.tidal.com/"@,
            "https://tidal.com/"@,
            "https://login.tidal.com/"@,
            "https://auth.tidal.com/"@,
            "https://accounts.tidal.com/"@,
            "https://api.tidal.com/"@,
        ],
        _ => Seq::empty(),
    }
}

/// The addresses whose cookies are kept after a login.
pub fn cookie_uris(provider: Provider) -> (r: Vec<&'static str>)
    ensures
        r@.map_values(|s: &str| s@) == spec_cookie_uris(provider),
{
    let r: Vec<&'static str> = match provider {
        Provider::Spotify => vec![
            "https://open.spotify.com/",
            "https://accounts.spotify.com/",
            "https://www.spotify.com/",
            "https://spotify.com/",
        ],
        Provider::YoutubeMusic => vec![
            "https://music.youtube.com/",
            "https://www.youtube.com/",
            "https://accounts.google.com/",
            "https://www.google.com/",
        ],
        Provider::Tidal => vec![
            "https://listen.tidal.com/",
            "https://tidal.com/",
            "https://login.tidal.com/",
            "https://auth.tidal.com/",
            "https://accounts.tidal.com/",
            "https://api.tidal.com/",
        ],
        Provider::AppleMusic | Provider::Local => Vec::new(),
    };
    assert(r@.map_values(|s: &str| s@) =~= spec_cookie_uris(provider));
    r
}

/// Whether an address, its capitals made small, is one of the service's own
/// site and not of its login.
pub open spec fn is_home(provider: Provider, uri: Seq<char>) -> bool {
    match provider {
        Provider::Spotify => {
            &&& text::occurs(uri, "open.spotify.com"@)
            &&& !text::occurs(uri, "accounts.spotify.com"@)
            &&& !text::occurs(uri, "/login"@)
        },
        Provider::YoutubeMusic => {
            &&& text::occurs(uri, "music.youtube.com"@)
            &&& !text::occurs(uri, "accounts.google"@)
            &&& !text::occurs(uri, "servicelogin"@)
            &&& !text::occurs(uri, "/signin"@)
        },
        Provider::Tidal => {
            &&& text::occurs(uri, "listen.tidal.com"@) || text::occurs(uri, "tidal.com/browse"@)
            &&& !text::occurs(uri, "/login"@)
            &&& !text::occurs(uri, "login.tidal"@)
            &&& !text::occurs(uri, "accounts.tidal"@)
        },
        _ => false,
    }
}

/// Whether the login window has got to the service's own site.
pub fn uri_looks_signed_in(provider: Provider, uri: &str) -> (r: bool)
    ensures
        r == is_home(provider, text::ascii_lower(uri@)),
{
    let low = text::to_ascii_lower(uri);
    let s = low.as_str();
    match provider {
        Provider::Spotify => {
            text::contains(s, "open.spotify.com") && !text::contains(s, "accounts.spotify.com")
                && !text::contains(s, "/login")
        },
        Provider::YoutubeMusic => {
            text::contains(s, "music.youtube.com") && !text::contains(s, "accounts.google")
                && !text::contains(s, "servicelogin") && !text::contains(s, "/signin")
        },
        Provider::Tidal => {
            (text::contains(s, "listen.tidal.com") || text::contains(s, "tidal.com/browse"))
                && !text::contains(s, "/login") && !text::contains(s, "login.tidal")
                && !text::contains(s, "accounts.tidal")
        },
        Provider::AppleMusic | Provider::Local => false,
    }
}

/// Whether one of `names` is `want`, but for the case of ASCII letters.
pub open spec fn named(names: Seq<String>, want: Seq<char>) -> bool {
    exists|i: int|
        0 <= i < names.len() && text::ascii_lower((#[trigger] names[i])@) == text::ascii_lower(
            want,
        )
}

fn has(names: &[String], want: &str) -> (r: bool)
    ensures
        r == named(names@, want@),
{
    let low = text::to_ascii_lower(want);
    let mut i: usize = 0;
    while i < names.len()
        invariant
            i <= names@.len(),
            low@ == text::ascii_lower(want@),
            forall|j: int|
                0 <= j < i ==> text::ascii_lower((#[trigger] names@[j])@) != text::ascii_lower(
                    want@,
                ),
        decreases names@.len() - i,
    {
        if text::same(text::to_ascii_lower(names[i].as_str()).as_str(), low.as_str()) {
            return true;
        }
        i += 1;
    }
    false
}

/// Whether a name, its capitals made small, is one that Tidal gives to a
/// session and not to what counts visits or guards a form.
pub open spec fn is_tidal_session(name: Seq<char>) -> bool {
    &&& !text::occurs(name, "csrf"@)
    &&& !text::occurs(name, "xsrf"@)
    &&& !"_ga"@.is_prefix_of(name)
    &&& {
        ||| text::occurs(name, "tidal"@) && (text::occurs(name, "sid"@) || text::occurs(
            name,
            "token"@,
        ) || text::occurs(name, "auth"@))
        ||| "_token"@.is_suffix_of(name)
        ||| "-token"@.is_suffix_of(name)
    }
}

fn looks_like_tidal_session_cookie(name: &str) -> (r: bool)
    ensures
        r == is_tidal_session(text::ascii_lower(name@)),
{
    let low = text::to_ascii_lower(name);
    let s = low.as_str();
    if text::contains(s, "csrf") || text::contains(s, "xsrf") || text::starts_with(s, "_ga") {
        return false;
    }
    (text::contains(s, "tidal") && (text::contains(s, "sid") || text::contains(s, "token")
        || text::contains(s, "auth"))) || text::ends_with(s, "_token") || text::ends_with(
        s,
        "-token",
    )
}

/// Whether cookie names mean a session and not an anonymous visit.
pub open spec fn is_session(provider: Provider, names: Seq<String>) -> bool {
    match provider {
        Provider::Spotify => named(names, "sp_dc"@),
        Provider::YoutubeMusic => {
            ||| named(names, "SID"@)
            ||| named(names, "SAPISID"@)
            ||| named(names, "__Secure-1PSID"@)
            ||| named(names, "__Secure-3PSID"@)
            ||| named(names, "LOGIN_INFO"@)
        },
        Provider::Tidal => {
            ||| named(names, "sid"@)
            ||| named(names, "token"@)
            ||| named(names, "_token"@)
            ||| named(names, "refresh_token"@)
            ||| named(names, "tidal_sid"@)
            ||| named(names, "access_token"@)
            ||| named(names, "id_token"@)
            ||| named(names, "authorization"@)
            ||| named(names, "refresh"@)
            ||| named(names, "sessionid"@)
            ||| named(names, "userid"@)
            ||| named(names, "user_id"@)
            ||| named(names, "playback"@)
            ||| exists|i: int|
                0 <= i < names.len() && is_tidal_session(
                    text::ascii_lower((#[trigger] names[i])@),
                )
        },
        _ => false,
    }
}

/// Whether cookie names mean a session and not an anonymous visit.
pub fn looks_signed_in(provider: Provider, names: &[String]) -> (r: bool)
    ensures
        r == is_session(provider, names@),
{
    match provider {
        Provider::Spotify => has(names, "sp_dc"),
        Provider::YoutubeMusic => {
            has(names, "SID") || has(names, "SAPISID") || has(names, "__Secure-1PSID") || has(
                names,
                "__Secure-3PSID",
            ) || has(names, "LOGIN_INFO")
        },
        Provider::Tidal => {
            if has(names, "sid") || has(names, "token") || has(names, "_token") || has(
                names,
                "refresh_token",
            ) || has(names, "tidal_sid") || has(names, "access_token") || has(names, "id_token")
                || has(names, "authorization") || has(names, "refresh") || has(names, "sessionid")
                || has(names, "userid") || has(names, "user_id") || has(names, "playback") {
                return true;
            }
            let mut i: usize = 0;
            while i < names.len()
                invariant
                    i <= names@.len(),
                    provider is Tidal,
                    forall|j: int|
                        0 <= j < i ==> !is_tidal_session(
                            text::ascii_lower((#[trigger] names@[j])@),
                        ),
                decreases names@.len() - i,
            {
                if looks_like_tidal_session_cookie(names[i].as_str()) {
                    return true;
                }
                i += 1;
            }
            false
        },
        Provider::AppleMusic | Provider::Local => false,
    }
}

/// Whether one of `lines` names the source.
pub open spec fn listed(lines: Seq<Seq<char>>, provider: Provider) -> bool {
    exists|i: int|
        0 <= i < lines.len() && Provider::spec_parse(#[trigger] lines[i]) == Some(provider)
}

fn lists(lines: &Vec<String>, provider: Provider) -> (r: bool)
    ensures
        r == listed(text::views(lines@), provider),
{
    let ghost seen = text::views(lines@);
    let mut i: usize = 0;
    while i < lines.len()
        invariant
            i <= lines@.len(),
            seen == text::views(lines@),
            forall|j: int|
                0 <= j < i ==> Provider::spec_parse(#[trigger] seen[j]) != Some(provider),
        decreases lines@.len() - i,
    {
        assert(seen[i as int] == lines@[i as int]@);
        if let Some(p) = Provider::parse(lines[i].as_str()) {
            if p == provider {
                return true;
            }
        }
        i += 1;
    }
    false
}

/// Whether a source is set up, by the list of those that are. A source that is
/// no catalogue needs no setting up.
pub open spec fn spec_is_configured(list: Option<Seq<char>>, provider: Provider) -> bool {
    !provider.spec_is_catalog() || (list is Some && listed(text::lines(list->0), provider))
}

/// Whether a source is set up, by the list of those that are.
pub fn is_configured(list: Option<&str>, provider: Provider) -> (r: bool)
    ensures
        r == spec_is_configured(
            match list {
                Some(s) => Some(s@),
                None => None,
            },
            provider,
        ),
{
    if !provider.is_catalog() {
        return true;
    }
    match list {
        None => false,
        Some(s) => lists(&text::lines_of(s), provider),
    }
}

/// A source's word, if it is to be listed.
pub open spec fn word(keep: bool, provider: Provider) -> Seq<Seq<char>> {
    if keep {
        seq![provider.spec_str()]
    } else {
        Seq::empty()
    }
}

/// The list with one more source on it: each catalogue once, in the order of
/// their words.
pub open spec fn marked(list: Seq<char>, provider: Provider) -> Seq<char> {
    let lines = text::lines(list);
    text::joined(
        word(listed(lines, Provider::Spotify) || provider is Spotify, Provider::Spotify) + word(
            listed(lines, Provider::Tidal) || provider is Tidal,
            Provider::Tidal,
        ) + word(
            listed(lines, Provider::YoutubeMusic) || provider is YoutubeMusic,
            Provider::YoutubeMusic,
        ),
        "\n"@,
    ) + "\n"@
}

/// The list with one more source on it; nothing for a source that is no
/// catalogue.
pub fn mark_configured(list: &str, provider: Provider) -> (r: Option<String>)
    ensures
        text::opt_view(r) == if provider.spec_is_catalog() {
            Some(marked(list@, provider))
        } else {
            None
        },
{
    if !provider.is_catalog() {
        return None;
    }
    let lines = text::lines_of(list);
    let mut words: Vec<String> = Vec::new();
    let spotify = lists(&lines, Provider::Spotify) || provider == Provider::Spotify;
    let tidal = lists(&lines, Provider::Tidal) || provider == Provider::Tidal;
    let youtube = lists(&lines, Provider::YoutubeMusic) || provider == Provider::YoutubeMusic;
    if spotify {
        words.push(Provider::Spotify.as_str().to_owned());
    }
    let ghost one = text::views(words@);
    assert(one =~= word(spotify, Provider::Spotify));
    if tidal {
        words.push(Provider::Tidal.as_str().to_owned());
    }
    let ghost two = text::views(words@);
    assert(two =~= one + word(tidal, Provider::Tidal));
    if youtube {
        words.push(Provider::YoutubeMusic.as_str().to_owned());
    }
    assert(text::views(words@) =~= two + word(youtube, Provider::YoutubeMusic));
    let mut out = text::join(&words, "\n");
    out.append("\n");
    Some(out)
}

/// The words of the catalogues that lines name, but for one.
pub open spec fn others(lines: Seq<Seq<char>>, provider: Provider) -> Seq<Seq<char>>
    decreases lines.len(),
{
    if lines.len() == 0 {
        Seq::empty()
    } else {
        let r = others(lines.drop_last(), provider);
        match Provider::spec_parse(lines.last()) {
            Some(p) if p != provider && p.spec_is_catalog() => r.push(p.spec_str()),
            _ => r,
        }
    }
}

/// The list without a source.
pub open spec fn unmarked(list: Seq<char>, provider: Provider) -> Seq<char> {
    text::joined(others(text::lines(list), provider), "\n"@) + "\n"@
}

/// The list without a source; nothing for a source that is no catalogue.
pub fn clear(list: &str, provider: Provider) -> (r: Option<String>)
    ensures
        text::opt_view(r) == if provider.spec_is_catalog() {
            Some(unmarked(list@, provider))
        } else {
            None
        },
{
    if !provider.is_catalog() {
        return None;
    }
    let lines = text::lines_of(list);
    let ghost seen = text::views(lines@);
    let mut words: Vec<String> = Vec::new();
    let mut i: usize = 0;
    assert(seen.take(0) =~= Seq::<Seq<char>>::empty());
    while i < lines.len()
        invariant
            i <= lines@.len(),
            seen == text::views(lines@),
            text::views(words@) =~= others(seen.take(i as int), provider),
        decreases lines@.len() - i,
    {
        proof {
            text::take_step(seen, i as int);
            assert(seen.take(i + 1).drop_last() =~= seen.take(i as int));
            assert(seen.take(i + 1).last() == lines@[i as int]@);
        }
        if let Some(p) = Provider::parse(lines[i].as_str()) {
            if p != provider && p.is_catalog() {
                let ghost words0 = words@;
                words.push(p.as_str().to_owned());
                assert(text::views(words@) =~= text::views(words0).push(p.spec_str()));
            }
        }
        i += 1;
    }
    assert(seen.take(i as int) =~= seen);
    let mut out = text::join(&words, "\n");
    out.append("\n");
    Some(out)
}

/// One cookie, as the file keeps it.
#[derive(Debug)]
pub struct NetscapeCookie {
    pub domain: String,
    pub host_only: bool,
    pub path: String,
    pub secure: bool,
    pub http_only: bool,
    pub expires: i64,
    pub name: String,
    pub value: String,
}

impl Clone for NetscapeCookie {
    fn clone(&self) -> (r: Self)
        ensures
            r == *self,
    {
        NetscapeCookie {
            domain: self.domain.clone(),
            host_only: self.host_only,
            path: self.path.clone(),
            secure: self.secure,
            http_only: self.http_only,
            expires: self.expires,
            name: self.name.clone(),
            value: self.value.clone(),
        }
    }
}

/// `TRUE` or `FALSE`.
pub open spec fn truth(b: bool) -> Seq<char> {
    if b {
        "TRUE"@
    } else {
        "FALSE"@
    }
}

fn truth_word(b: bool) -> (r: &'static str)
    ensures
        r@ == truth(b),
{
    if b {
        "TRUE"
    } else {
        "FALSE"
    }
}

/// The mark before a cookie that scripts cannot read.
pub open spec fn mark(http_only: bool) -> Seq<char> {
    if http_only {
        "#HttpOnly_"@
    } else {
        Seq::empty()
    }
}

impl NetscapeCookie {
    /// Whether the cookie can be kept: it has a name and a domain.
    pub open spec fn is_kept(self) -> bool {
        self.name@.len() > 0 && self.domain@.len() > 0
    }

    /// The domain, with a dot before it where it stands for all below it.
    pub open spec fn spec_domain(self) -> Seq<char> {
        if !self.host_only && !(self.domain@.len() > 0 && self.domain@[0] == '.') {
            seq!['.'] + self.domain@
        } else {
            self.domain@
        }
    }

    pub open spec fn spec_path(self) -> Seq<char> {
        if self.path@.len() == 0 {
            "/"@
        } else {
            self.path@
        }
    }

    /// What a line of the file holds, column by column.
    pub open spec fn columns(self) -> Seq<Seq<char>> {
        seq![
            self.spec_domain(),
            truth(!self.host_only),
            self.spec_path(),
            truth(self.secure),
            text::signed_decimal(self.expires as int),
            self.name@,
            self.value@,
        ]
    }

    /// The line that the file keeps the cookie in.
    pub open spec fn line(self) -> Seq<char> {
        mark(self.http_only) + text::joined(self.columns(), seq!['\t'])
    }

    fn write(&self) -> (r: String)
        ensures
            r@ == self.line(),
    {
        let mut domain = String::new();
        if !self.host_only && !text::starts_with(self.domain.as_str(), ".") {
            domain.push('.');
        }
        domain.append(self.domain.as_str());
        proof {
            reveal_strlit(".");
            if self.domain@.len() > 0 {
                let head = self.domain@.subrange(0, 1);
                assert(head[0] == self.domain@[0]);
                assert(self.domain@[0] == '.' ==> "."@ =~= head);
            }
            assert(domain@ =~= self.spec_domain());
        }
        let path = if self.path.as_str().is_empty() {
            "/".to_owned()
        } else {
            self.path.clone()
        };
        let columns = vec![
            domain,
            truth_word(!self.host_only).to_owned(),
            path,
            truth_word(self.secure).to_owned(),
            text::integer(self.expires),
            self.name.clone(),
            self.value.clone(),
        ];
        assert(text::views(columns@) =~= self.columns());
        let mut out = String::new();
        if self.http_only {
            out.append("#HttpOnly_");
        }
        let tab = "\t";
        proof {
            reveal_strlit("\t");
            assert(tab@ =~= seq!['\t']);
        }
        out.append(text::join(&columns, tab).as_str());
        assert(out@ =~= self.line());
        out
    }
}

/// The lines for cookies, each ended.
pub open spec fn cookie_lines(cookies: Seq<NetscapeCookie>) -> Seq<char>
    decreases cookies.len(),
{
    if cookies.len() == 0 {
        Seq::empty()
    } else {
        let r = cookie_lines(cookies.drop_last());
        if cookies.last().is_kept() {
            r + cookies.last().line() + "\n"@
        } else {
            r
        }
    }
}

/// The file that keeps cookies.
pub open spec fn spec_netscape(cookies: Seq<NetscapeCookie>) -> Seq<char> {
    "# Netscape HTTP Cookie File\n# This file was generated by Vinilo.\n"@ + cookie_lines(cookies)
}

/// The file that keeps cookies. One without a name or a domain is left out.
pub fn netscape_text(cookies: &[NetscapeCookie]) -> (r: String)
    ensures
        r@ == spec_netscape(cookies@),
{
    let mut out = "# Netscape HTTP Cookie File\n# This file was generated by Vinilo.\n".to_owned();
    let ghost head = out@;
    let mut i: usize = 0;
    proof {
        assert(cookies@.take(0) =~= Seq::<NetscapeCookie>::empty());
        assert(head + Seq::<char>::empty() =~= head);
    }
    while i < cookies.len()
        invariant
            i <= cookies@.len(),
            out@ == head + cookie_lines(cookies@.take(i as int)),
        decreases cookies@.len() - i,
    {
        let c = &cookies[i];
        proof {
            text::take_step(cookies@, i as int);
            assert(cookies@.take(i + 1).drop_last() =~= cookies@.take(i as int));
        }
        let ghost out0 = out@;
        if !c.name.as_str().is_empty() && !c.domain.as_str().is_empty() {
            out.append(c.write().as_str());
            out.append("\n");
            assert(out@ =~= head + (cookie_lines(cookies@.take(i as int)) + c.line() + "\n"@));
        }
        i += 1;
    }
    assert(cookies@.take(i as int) =~= cookies@);
    out
}

/// The columns of a line that holds a cookie. A blank line and a comment hold
/// none.
pub open spec fn columns_of(line: Seq<char>) -> Option<Seq<Seq<char>>> {
    let s = text::trimmed(line);
    if s.len() == 0 {
        None
    } else {
        match text::after_prefix(s, "#HttpOnly_"@) {
            Some(rest) => Some(text::split(rest, '\t')),
            None => if s[0] == '#' {
                None
            } else {
                Some(text::split(s, '\t'))
            },
        }
    }
}

fn columns_in(line: &str) -> (r: Option<Vec<String>>)
    ensures
        match r {
            Some(v) => columns_of(line@) == Some(text::views(v@)),
            None => columns_of(line@) is None,
        },
{
    let s = text::trim(line);
    let v = text::chars(s.as_str());
    if v.len() == 0 {
        return None;
    }
    match text::strip_prefix(s.as_str(), "#HttpOnly_") {
        Some(rest) => Some(text::split_on(rest.as_str(), '\t')),
        None => if v[0] == '#' {
            None
        } else {
            Some(text::split_on(s.as_str(), '\t'))
        },
    }
}

/// What a line says of a cookie.
pub struct Seen {
    pub domain: Seq<char>,
    pub name: Seq<char>,
    pub value: Seq<char>,
}

/// What a line with all its columns says of a cookie.
pub open spec fn seen_in(line: Seq<char>) -> Option<Seen> {
    match columns_of(line) {
        Some(cols) => if cols.len() < 7 {
            None
        } else {
            Some(
                Seen {
                    domain: text::trimmed(cols[0]),
                    name: text::trimmed(cols[5]),
                    value: text::trimmed(cols[6]),
                },
            )
        },
        None => None,
    }
}

/// A cookie that was read from a line.
#[derive(Debug)]
pub struct Cookie {
    pub domain: String,
    pub name: String,
    pub value: String,
}

impl View for Cookie {
    type V = Seen;

    open spec fn view(&self) -> Seen {
        Seen { domain: self.domain@, name: self.name@, value: self.value@ }
    }
}

fn cookie_in(line: &str) -> (r: Option<Cookie>)
    ensures
        match r {
            Some(c) => seen_in(line@) == Some(c@),
            None => seen_in(line@) is None,
        },
{
    match columns_in(line) {
        None => None,
        Some(cols) => {
            assert(text::views(cols@).len() == cols@.len());
            if cols.len() < 7 {
                None
            } else {
                assert(text::views(cols@)[0] == cols@[0]@);
                assert(text::views(cols@)[5] == cols@[5]@);
                assert(text::views(cols@)[6] == cols@[6]@);
                Some(
                    Cookie {
                        domain: text::trim(cols[0].as_str()),
                        name: text::trim(cols[5].as_str()),
                        value: text::trim(cols[6].as_str()),
                    },
                )
            }
        },
    }
}

/// The cookies that lines hold.
pub open spec fn all_seen(lines: Seq<Seq<char>>) -> Seq<Seen>
    decreases lines.len(),
{
    if lines.len() == 0 {
        Seq::empty()
    } else {
        let r = all_seen(lines.drop_last());
        match seen_in(lines.last()) {
            Some(c) => r.push(c),
            None => r,
        }
    }
}

/// What cookies hold.
pub open spec fn cookie_views(v: Seq<Cookie>) -> Seq<Seen> {
    v.map_values(|c: Cookie| c@)
}

fn read_cookies(file: &str) -> (r: Vec<Cookie>)
    ensures
        cookie_views(r@) == all_seen(text::lines(file@)),
{
    let lines = text::lines_of(file);
    let ghost seen = text::views(lines@);
    let mut out: Vec<Cookie> = Vec::new();
    let mut i: usize = 0;
    assert(seen.take(0) =~= Seq::<Seq<char>>::empty());
    while i < lines.len()
        invariant
            i <= lines@.len(),
            seen == text::views(lines@),
            cookie_views(out@) =~= all_seen(seen.take(i as int)),
        decreases lines@.len() - i,
    {
        proof {
            text::take_step(seen, i as int);
            assert(seen.take(i + 1).drop_last() =~= seen.take(i as int));
            assert(seen.take(i + 1).last() == lines@[i as int]@);
        }
        if let Some(c) = cookie_in(lines[i].as_str()) {
            let ghost out0 = out@;
            out.push(c);
            assert(cookie_views(out@) =~= cookie_views(out0).push(c@));
        }
        i += 1;
    }
    assert(seen.take(i as int) =~= seen);
    out
}

/// A cookie as a request carries it.
pub open spec fn pair(c: Seen) -> Seq<char> {
    c.name + "="@ + c.value
}

fn write_pair(c: &Cookie) -> (r: String)
    ensures
        r@ == pair(c@),
{
    let mut out = c.name.clone();
    out.append("=");
    out.append(c.value.as_str());
    out
}

/// Cookies as a request carries them: none where there are none.
pub open spec fn header_of(cookies: Seq<Seen>) -> Option<Seq<char>> {
    if cookies.len() == 0 {
        None
    } else {
        Some(text::joined(cookies.map_values(|c: Seen| pair(c)), "; "@))
    }
}

fn write_header(cookies: &Vec<Cookie>) -> (r: Option<String>)
    ensures
        text::opt_view(r) == header_of(cookie_views(cookies@)),
{
    assert(cookie_views(cookies@).len() == cookies@.len());
    if cookies.len() == 0 {
        return None;
    }
    let ghost all = cookie_views(cookies@).map_values(|c: Seen| pair(c));
    let mut parts: Vec<String> = Vec::new();
    let mut i: usize = 0;
    while i < cookies.len()
        invariant
            i <= cookies@.len(),
            all == cookie_views(cookies@).map_values(|c: Seen| pair(c)),
            text::views(parts@) =~= all.take(i as int),
        decreases cookies@.len() - i,
    {
        let ghost parts0 = parts@;
        let p = write_pair(&cookies[i]);
        parts.push(p);
        proof {
            text::take_step(all, i as int);
            assert(all[i as int] == p@);
            assert(text::views(parts@) =~= text::views(parts0).push(p@));
        }
        i += 1;
    }
    assert(all.take(i as int) =~= all);
    Some(text::join(&parts, "; "))
}

/// Every cookie of a file that has a name, as a request carries them.
pub fn cookie_header(file: &str) -> (r: Option<String>)
    ensures
        text::opt_view(r) == header_of(
            all_seen(text::lines(file@)).filter(|c: Seen| c.name.len() > 0),
        ),
{
    let all = read_cookies(file);
    let ghost seen = cookie_views(all@);
    let ghost p = |c: Seen| c.name.len() > 0;
    let mut kept: Vec<Cookie> = Vec::new();
    let mut i: usize = 0;
    proof {
        reveal(Seq::filter);
        assert(seen.take(0) =~= Seq::<Seen>::empty());
    }
    while i < all.len()
        invariant
            i <= all@.len(),
            seen == cookie_views(all@),
            p == (|c: Seen| c.name.len() > 0),
            cookie_views(kept@) =~= seen.take(i as int).filter(p),
        decreases all@.len() - i,
    {
        proof {
            text::filter_step(seen, p, i as int);
            assert(seen[i as int] == all@[i as int]@);
        }
        if !all[i].name.as_str().is_empty() {
            let ghost kept0 = kept@;
            let c = copy_cookie(&all[i]);
            kept.push(c);
            assert(cookie_views(kept@) =~= cookie_views(kept0).push(c@));
        }
        i += 1;
    }
    assert(seen.take(i as int) =~= seen);
    write_header(&kept)
}

fn copy_cookie(c: &Cookie) -> (r: Cookie)
    ensures
        r@ == c@,
{
    Cookie { domain: c.domain.clone(), name: c.name.clone(), value: c.value.clone() }
}

/// How early a domain comes in a preference: the first preferred name that
/// stands in it, else behind all of them.
pub open spec fn preference(domain: Seq<char>, prefer: Seq<Seq<char>>) -> int
    decreases prefer.len(),
{
    if prefer.len() == 0 {
        0
    } else if text::occurs(domain, prefer[0]) {
        0
    } else {
        1 + preference(domain, prefer.skip(1))
    }
}

/// What preferred names hold.
pub open spec fn strs(v: Seq<&str>) -> Seq<Seq<char>> {
    v.map_values(|s: &str| s@)
}

fn place_of(domain: &str, prefer: &[&str]) -> (r: usize)
    ensures
        r == preference(domain@, strs(prefer@)),
{
    let ghost all = strs(prefer@);
    let mut i: usize = 0;
    assert(all.skip(0) =~= all);
    while i < prefer.len()
        invariant
            i <= prefer@.len(),
            all == strs(prefer@),
            preference(domain@, all) == i + preference(domain@, all.skip(i as int)),
        decreases prefer@.len() - i,
    {
        proof {
            assert(all.skip(i as int)[0] == prefer@[i as int]@);
            assert(all.skip(i as int).skip(1) =~= all.skip(i + 1));
        }
        if text::contains(domain, prefer[i]) {
            return i;
        }
        i += 1;
    }
    i
}

/// Whether `a` comes before `b`: by how early its domain is preferred, then by
/// its name.
pub open spec fn goes_before(prefer: Seq<Seq<char>>) -> spec_fn(Seen, Seen) -> bool {
    |a: Seen, b: Seen|
        {
            let x = preference(a.domain, prefer);
            let y = preference(b.domain, prefer);
            x < y || (x == y && text::rank_of(a.name, b.name) is Before)
        }
}

/// The first cookie of each name, whatever the case of its ASCII letters.
pub open spec fn firsts(cookies: Seq<Seen>) -> Seq<Seen>
    decreases cookies.len(),
{
    if cookies.len() == 0 {
        Seq::empty()
    } else {
        let r = firsts(cookies.drop_last());
        if holds_name(r, cookies.last().name) {
            r
        } else {
            r.push(cookies.last())
        }
    }
}

/// Whether a cookie has this name, whatever the case of its ASCII letters.
pub open spec fn holds_name(cookies: Seq<Seen>, name: Seq<char>) -> bool {
    exists|i: int|
        0 <= i < cookies.len() && text::ascii_lower((#[trigger] cookies[i]).name)
            == text::ascii_lower(name)
}

/// The cookies that a request carries, the preferred domain deciding where a
/// name comes more than once.
pub open spec fn ranked(file: Seq<char>, prefer: Seq<Seq<char>>) -> Seq<Seen> {
    firsts(
        order::sorted(
            all_seen(text::lines(file)).filter(
                |c: Seen| c.name.len() > 0 && c.value.len() > 0,
            ),
            goes_before(prefer),
        ),
    )
}

fn sort_cookies(cookies: &Vec<Cookie>, prefer: &[&str]) -> (r: Vec<Cookie>)
    ensures
        cookie_views(r@) == order::sorted(
            cookie_views(cookies@).filter(|c: Seen| c.name.len() > 0 && c.value.len() > 0),
            goes_before(strs(prefer@)),
        ),
{
    let ghost seen = cookie_views(cookies@);
    let ghost p = |c: Seen| c.name.len() > 0 && c.value.len() > 0;
    let ghost before = goes_before(strs(prefer@));
    let mut out: Vec<Cookie> = Vec::new();
    let mut i: usize = 0;
    proof {
        reveal(Seq::filter);
        assert(seen.take(0) =~= Seq::<Seen>::empty());
        assert(cookie_views(out@) =~= Seq::<Seen>::empty());
    }
    while i < cookies.len()
        invariant
            i <= cookies@.len(),
            seen == cookie_views(cookies@),
            p == (|c: Seen| c.name.len() > 0 && c.value.len() > 0),
            before == goes_before(strs(prefer@)),
            cookie_views(out@) == order::sorted(seen.take(i as int).filter(p), before),
            out@.len() <= i,
        decreases cookies@.len() - i,
    {
        proof {
            text::filter_step(seen, p, i as int);
            assert(seen[i as int] == cookies@[i as int]@);
        }
        let c = &cookies[i];
        if !c.name.as_str().is_empty() && !c.value.as_str().is_empty() {
            let mine = place_of(c.domain.as_str(), prefer);
            let ghost rows = cookie_views(out@);
            let mut k: usize = out.len();
            let mut go = true;
            while go && k > 0
                invariant
                    k <= out@.len(),
                    rows == cookie_views(out@),
                    before == goes_before(strs(prefer@)),
                    mine == preference(c.domain@, strs(prefer@)),
                    forall|j: int| k <= j < rows.len() ==> before(c@, #[trigger] rows[j]),
                    !go ==> k > 0 && !before(c@, rows[k - 1]),
                decreases k + (if go { 1int } else { 0int }),
            {
                assert(rows[k - 1] == out@[k - 1]@);
                let theirs = place_of(out[k - 1].domain.as_str(), prefer);
                let less = mine < theirs || (mine == theirs && matches!(
                    text::rank(c.name.as_str(), out[k - 1].name.as_str()),
                    Rank::Before
                ));
                if less {
                    k -= 1;
                } else {
                    go = false;
                }
            }
            proof {
                order::put_in_is_insert(rows, c@, before, k as int);
                let done = seen.take(i as int).filter(p);
                assert(done.push(c@).drop_last() =~= done);
            }
            let copy = copy_cookie(c);
            out.insert(k, copy);
            assert(cookie_views(out@) =~= rows.insert(k as int, c@));
        }
        i += 1;
    }
    assert(seen.take(i as int) =~= seen);
    out
}

fn first_of_each(cookies: &Vec<Cookie>) -> (r: Vec<Cookie>)
    ensures
        cookie_views(r@) == firsts(cookie_views(cookies@)),
{
    let ghost seen = cookie_views(cookies@);
    let mut out: Vec<Cookie> = Vec::new();
    let mut i: usize = 0;
    assert(seen.take(0) =~= Seq::<Seen>::empty());
    while i < cookies.len()
        invariant
            i <= cookies@.len(),
            seen == cookie_views(cookies@),
            cookie_views(out@) =~= firsts(seen.take(i as int)),
        decreases cookies@.len() - i,
    {
        proof {
            text::take_step(seen, i as int);
            assert(seen.take(i + 1).drop_last() =~= seen.take(i as int));
            assert(seen.take(i + 1).last() == cookies@[i as int]@);
        }
        if !has_cookie(&out, cookies[i].name.as_str()) {
            let ghost out0 = out@;
            let c = copy_cookie(&cookies[i]);
            out.push(c);
            assert(cookie_views(out@) =~= cookie_views(out0).push(c@));
        }
        i += 1;
    }
    assert(seen.take(i as int) =~= seen);
    out
}

fn has_cookie(cookies: &Vec<Cookie>, name: &str) -> (r: bool)
    ensures
        r == holds_name(cookie_views(cookies@), name@),
{
    let low = text::to_ascii_lower(name);
    let ghost seen = cookie_views(cookies@);
    let mut i: usize = 0;
    while i < cookies.len()
        invariant
            i <= cookies@.len(),
            seen == cookie_views(cookies@),
            low@ == text::ascii_lower(name@),
            forall|j: int|
                0 <= j < i ==> text::ascii_lower((#[trigger] seen[j]).name) != text::ascii_lower(
                    name@,
                ),
        decreases cookies@.len() - i,
    {
        assert(seen[i as int] == cookies@[i as int]@);
        if text::same(text::to_ascii_lower(cookies[i].name.as_str()).as_str(), low.as_str()) {
            return true;
        }
        i += 1;
    }
    false
}

/// The cookies of a file as a request carries them, one of each name: that of
/// the most preferred domain.
pub fn ranked_cookie_header_from(file: &str, prefer: &[&str]) -> (r: Option<String>)
    ensures
        text::opt_view(r) == header_of(ranked(file@, strs(prefer@))),
{
    let all = read_cookies(file);
    let sorted = sort_cookies(&all, prefer);
    let kept = first_of_each(&sorted);
    write_header(&kept)
}

/// Whether `name` is one of `names`, but for the case of ASCII letters.
pub open spec fn is_one_of(name: Seq<char>, names: Seq<Seq<char>>) -> bool {
    exists|i: int|
        0 <= i < names.len() && text::ascii_lower(name) == text::ascii_lower(#[trigger] names[i])
}

fn one_of(name: &str, names: &[&str]) -> (r: bool)
    ensures
        r == is_one_of(name@, strs(names@)),
{
    let ghost all = strs(names@);
    let low = text::to_ascii_lower(name);
    let mut i: usize = 0;
    while i < names.len()
        invariant
            i <= names@.len(),
            all == strs(names@),
            low@ == text::ascii_lower(name@),
            forall|j: int|
                0 <= j < i ==> text::ascii_lower(name@) != text::ascii_lower(#[trigger] all[j]),
        decreases names@.len() - i,
    {
        assert(all[i as int] == names@[i as int]@);
        if text::same(low.as_str(), text::to_ascii_lower(names[i]).as_str()) {
            return true;
        }
        i += 1;
    }
    false
}

/// Whether a cookie is one that is asked for: it has a value, one of the names,
/// and for Spotify a domain of Spotify's.
pub open spec fn is_wanted(c: Seen, provider: Provider, names: Seq<Seq<char>>) -> bool {
    &&& provider is Spotify ==> text::occurs(c.domain, "spotify.com"@)
    &&& is_one_of(c.name, names)
    &&& c.value.len() > 0
}

/// Whether a cookie has exactly this name.
pub open spec fn holds_exactly(cookies: Seq<Seen>, name: Seq<char>) -> bool {
    exists|i: int| 0 <= i < cookies.len() && (#[trigger] cookies[i]).name == name
}

fn has_exactly(cookies: &Vec<Cookie>, name: &str) -> (r: bool)
    ensures
        r == holds_exactly(cookie_views(cookies@), name@),
{
    let ghost seen = cookie_views(cookies@);
    let mut i: usize = 0;
    while i < cookies.len()
        invariant
            i <= cookies@.len(),
            seen == cookie_views(cookies@),
            forall|j: int| 0 <= j < i ==> (#[trigger] seen[j]).name != name@,
        decreases cookies@.len() - i,
    {
        assert(seen[i as int] == cookies@[i as int]@);
        if text::same(cookies[i].name.as_str(), name) {
            return true;
        }
        i += 1;
    }
    false
}

/// The cookies that are asked for, the first of each name.
pub open spec fn found(
    cookies: Seq<Seen>,
    provider: Provider,
    names: Seq<Seq<char>>,
) -> Seq<Seen>
    decreases cookies.len(),
{
    if cookies.len() == 0 {
        Seq::empty()
    } else {
        let r = found(cookies.drop_last(), provider, names);
        let c = cookies.last();
        if is_wanted(c, provider, names) && !holds_exactly(r, c.name) {
            r.push(c)
        } else {
            r
        }
    }
}

/// The cookies that are asked for, as a request carries them. Without `sp_dc`
/// there is no session with Spotify, whatever else is there.
pub open spec fn spec_named_cookies(
    file: Seq<char>,
    provider: Provider,
    names: Seq<Seq<char>>,
) -> Option<Seq<char>> {
    let kept = found(all_seen(text::lines(file)), provider, names);
    if provider is Spotify && !holds_exactly(kept, "sp_dc"@) {
        None
    } else {
        header_of(kept)
    }
}

fn named_cookies(file: &str, provider: Provider, names: &[&str]) -> (r: Option<String>)
    ensures
        text::opt_view(r) == spec_named_cookies(file@, provider, strs(names@)),
{
    let all = read_cookies(file);
    let ghost seen = cookie_views(all@);
    let ghost wanted = strs(names@);
    let mut kept: Vec<Cookie> = Vec::new();
    let mut i: usize = 0;
    assert(seen.take(0) =~= Seq::<Seen>::empty());
    while i < all.len()
        invariant
            i <= all@.len(),
            seen == cookie_views(all@),
            wanted == strs(names@),
            cookie_views(kept@) =~= found(seen.take(i as int), provider, wanted),
        decreases all@.len() - i,
    {
        proof {
            text::take_step(seen, i as int);
            assert(seen.take(i + 1).drop_last() =~= seen.take(i as int));
            assert(seen.take(i + 1).last() == all@[i as int]@);
        }
        let c = &all[i];
        let here = provider != Provider::Spotify || text::contains(
            c.domain.as_str(),
            "spotify.com",
        );
        if here && one_of(c.name.as_str(), names) && !c.value.as_str().is_empty() && !has_exactly(
            &kept,
            c.name.as_str(),
        ) {
            let ghost kept0 = kept@;
            let copy = copy_cookie(c);
            kept.push(copy);
            assert(cookie_views(kept@) =~= cookie_views(kept0).push(copy@));
        }
        i += 1;
    }
    assert(seen.take(i as int) =~= seen);
    if provider == Provider::Spotify && !has_exactly(&kept, "sp_dc") {
        return None;
    }
    write_header(&kept)
}

/// The cookies of a catalogue's login as its requests carry them: for Spotify
/// only those of its session, for YouTube Music one of each name, for any other
/// all of them.
pub open spec fn spec_session_cookie(provider: Provider, file: Seq<char>) -> Option<Seq<char>> {
    match provider {
        Provider::Spotify => spec_named_cookies(file, provider, seq!["sp_dc"@, "sp_key"@]),
        Provider::YoutubeMusic => header_of(
            ranked(file, seq!["music.youtube.com"@, "youtube.com"@, "google.com"@]),
        ),
        _ => header_of(all_seen(text::lines(file)).filter(|c: Seen| c.name.len() > 0)),
    }
}

/// The cookies of a catalogue's login as its requests carry them, from the file
/// that keeps them.
pub fn session_cookie(provider: Provider, file: &str) -> (r: Option<String>)
    ensures
        text::opt_view(r) == spec_session_cookie(provider, file@),
{
    match provider {
        Provider::Spotify => {
            let names = vec!["sp_dc", "sp_key"];
            assert(strs(names@) =~= seq!["sp_dc"@, "sp_key"@]);
            named_cookies(file, provider, names.as_slice())
        },
        Provider::YoutubeMusic => {
            let prefer = vec!["music.youtube.com", "youtube.com", "google.com"];
            assert(strs(prefer@) =~= seq!["music.youtube.com"@, "youtube.com"@, "google.com"@]);
            ranked_cookie_header_from(file, prefer.as_slice())
        },
        _ => cookie_header(file),
    }
}

/// The names of the cookies that lines hold, with or without a value.
pub open spec fn names_in(lines: Seq<Seq<char>>) -> Seq<Seq<char>>
    decreases lines.len(),
{
    if lines.len() == 0 {
        Seq::empty()
    } else {
        let r = names_in(lines.drop_last());
        match columns_of(lines.last()) {
            Some(cols) => if cols.len() >= 6 && text::trimmed(cols[5]).len() > 0 {
                r.push(text::trimmed(cols[5]))
            } else {
                r
            },
            None => r,
        }
    }
}

/// The names of the cookies in a file.
pub fn cookie_names(file: &str) -> (r: Vec<String>)
    ensures
        text::views(r@) == names_in(text::lines(file@)),
{
    let lines = text::lines_of(file);
    let ghost seen = text::views(lines@);
    let mut out: Vec<String> = Vec::new();
    let mut i: usize = 0;
    assert(seen.take(0) =~= Seq::<Seq<char>>::empty());
    while i < lines.len()
        invariant
            i <= lines@.len(),
            seen == text::views(lines@),
            text::views(out@) =~= names_in(seen.take(i as int)),
        decreases lines@.len() - i,
    {
        proof {
            text::take_step(seen, i as int);
            assert(seen.take(i + 1).drop_last() =~= seen.take(i as int));
            assert(seen.take(i + 1).last() == lines@[i as int]@);
        }
        if let Some(cols) = columns_in(lines[i].as_str()) {
            assert(text::views(cols@).len() == cols@.len());
            if cols.len() >= 6 {
                assert(text::views(cols@)[5] == cols@[5]@);
                let name = text::trim(cols[5].as_str());
                if !name.as_str().is_empty() {
                    let ghost out0 = out@;
                    out.push(name);
                    assert(text::views(out@) =~= text::views(out0).push(name@));
                }
            }
        }
        i += 1;
    }
    assert(seen.take(i as int) =~= seen);
    out
}

/// What tells the downloader where a catalogue's cookies are, if they are
/// there.
pub fn ytdlp_cookie_args(path: &Option<String>, is_file: bool) -> (r: Vec<String>)
    ensures
        text::views(r@) == match path {
            Some(p) => if is_file {
                seq!["--cookies"@, p@]
            } else {
                Seq::empty()
            },
            None => Seq::empty(),
        },
{
    match path {
        Some(p) => if is_file {
            let r = vec!["--cookies".to_owned(), p.clone()];
            assert(text::views(r@) =~= seq!["--cookies"@, p@]);
            r
        } else {
            let r: Vec<String> = Vec::new();
            assert(text::views(r@) =~= Seq::<Seq<char>>::empty());
            r
        },
        None => {
            let r: Vec<String> = Vec::new();
            assert(text::views(r@) =~= Seq::<Seq<char>>::empty());
            r
        },
    }
}

/// The order of cookies is an order.
proof fn cookies_are_ordered(prefer: Seq<Seq<char>>)
    ensures
        order::is_order(goes_before(prefer)),
{
    let before = goes_before(prefer);
    assert forall|x: Seen, y: Seen| #[trigger] before(x, y) implies !before(y, x) by {
        text::rank_is_antisymmetric(x.name, y.name);
    }
    assert forall|x: Seen, y: Seen, z: Seen|
        #![trigger before(x, z), before(x, y)]
        before(x, z) implies before(x, y) || before(y, z) by {
        if !before(x, y) && !before(y, z) {
            text::rank_is_antisymmetric(x.name, y.name);
            text::rank_is_antisymmetric(y.name, z.name);
            text::rank_is_antisymmetric(x.name, z.name);
            text::rank_is_transitive(z.name, y.name, x.name);
        }
    }
}

proof fn firsts_come_first(cookies: Seq<Seen>, before: spec_fn(Seen, Seen) -> bool)
    requires
        order::in_order(cookies, before),
    ensures
        forall|i: int, j: int|
            0 <= i < firsts(cookies).len() && 0 <= j < cookies.len() && text::ascii_lower(
                (#[trigger] firsts(cookies)[i]).name,
            ) == text::ascii_lower((#[trigger] cookies[j]).name) ==> firsts(cookies)[i]
                == cookies[j] || !before(cookies[j], firsts(cookies)[i]),
        forall|j: int|
            0 <= j < cookies.len() ==> holds_name(
                firsts(cookies),
                (#[trigger] cookies[j]).name,
            ),
        forall|i: int|
            0 <= i < firsts(cookies).len() ==> cookies.contains(#[trigger] firsts(cookies)[i]),
        forall|i: int, j: int|
            0 <= i < j < firsts(cookies).len() ==> text::ascii_lower(
                (#[trigger] firsts(cookies)[i]).name,
            ) != text::ascii_lower((#[trigger] firsts(cookies)[j]).name),
    decreases cookies.len(),
{
    if cookies.len() > 0 {
        let rest = cookies.drop_last();
        let last = cookies.last();
        let kept = firsts(rest);
        let all = firsts(cookies);
        firsts_come_first(rest, before);
        assert forall|j: int| 0 <= j < cookies.len() implies holds_name(
            all,
            (#[trigger] cookies[j]).name,
        ) by {
            if j < rest.len() {
                assert(rest[j] == cookies[j]);
                let k = choose|k: int|
                    0 <= k < kept.len() && text::ascii_lower((#[trigger] kept[k]).name)
                        == text::ascii_lower(rest[j].name);
                assert(all[k] == kept[k]);
            } else if holds_name(kept, last.name) {
                let k = choose|k: int|
                    0 <= k < kept.len() && text::ascii_lower((#[trigger] kept[k]).name)
                        == text::ascii_lower(last.name);
                assert(all[k] == kept[k]);
            } else {
                assert(all[kept.len() as int] == last);
            }
        }
        assert forall|i: int| 0 <= i < all.len() implies cookies.contains(#[trigger] all[i]) by {
            if i < kept.len() {
                assert(all[i] == kept[i]);
                let k = choose|k: int| 0 <= k < rest.len() && rest[k] == kept[i];
                assert(cookies[k] == all[i]);
            } else {
                assert(cookies[cookies.len() - 1] == all[i]);
            }
        }
        assert forall|i: int, j: int|
            0 <= i < all.len() && 0 <= j < cookies.len() && text::ascii_lower(
                (#[trigger] all[i]).name,
            ) == text::ascii_lower((#[trigger] cookies[j]).name) implies all[i] == cookies[j]
            || !before(cookies[j], all[i]) by {
            if i < kept.len() {
                assert(all[i] == kept[i]);
                if j < rest.len() {
                    assert(rest[j] == cookies[j]);
                } else {
                    let k = choose|k: int| 0 <= k < rest.len() && rest[k] == kept[i];
                    assert(cookies[k] == all[i]);
                }
            } else {
                assert(all[i] == last);
                if j < rest.len() {
                    assert(rest[j] == cookies[j]);
                    let k = choose|k: int|
                        0 <= k < kept.len() && text::ascii_lower((#[trigger] kept[k]).name)
                            == text::ascii_lower(rest[j].name);
                    assert(holds_name(kept, last.name));
                }
            }
        }
        assert forall|i: int, j: int| 0 <= i < j < all.len() implies text::ascii_lower(
            (#[trigger] all[i]).name,
        ) != text::ascii_lower((#[trigger] all[j]).name) by {
            assert(all[i] == kept[i]);
            if j < kept.len() {
                assert(all[j] == kept[j]);
            }
        }
    }
}

/// Each name is carried once, and no cookie of that name has a more preferred
/// domain than the one that is carried.
pub proof fn the_preferred_domain_wins(file: Seq<char>, prefer: Seq<Seq<char>>, i: int, c: Seen)
    requires
        0 <= i < ranked(file, prefer).len(),
        all_seen(text::lines(file)).contains(c),
        c.name.len() > 0,
        c.value.len() > 0,
        text::ascii_lower(c.name) == text::ascii_lower(ranked(file, prefer)[i].name),
    ensures
        preference(ranked(file, prefer)[i].domain, prefer) <= preference(c.domain, prefer),
        forall|j: int|
            0 <= j < ranked(file, prefer).len() && j != i ==> text::ascii_lower(
                (#[trigger] ranked(file, prefer)[j]).name,
            ) != text::ascii_lower(c.name),
{
    let before = goes_before(prefer);
    let p = |c: Seen| c.name.len() > 0 && c.value.len() > 0;
    let all = all_seen(text::lines(file));
    let rows = all.filter(p);
    let sorted = order::sorted(rows, before);
    cookies_are_ordered(prefer);
    order::sorting_is_stable(rows, before);
    broadcast use vstd::seq_lib::group_filter_ensures;

    let k = choose|k: int| 0 <= k < all.len() && all[k] == c;
    assert(p(all[k]));
    assert(rows.contains(c));
    order::sorted_holds_the_same(rows, before, c);
    firsts_come_first(sorted, before);
    let j = choose|j: int| 0 <= j < sorted.len() && sorted[j] == c;
    assert(firsts(sorted)[i] == sorted[j] || !before(sorted[j], firsts(sorted)[i]));
}

/// Every cookie that has a name and a value is carried under its name.
pub proof fn no_name_is_lost(file: Seq<char>, prefer: Seq<Seq<char>>, c: Seen)
    requires
        all_seen(text::lines(file)).contains(c),
        c.name.len() > 0,
        c.value.len() > 0,
    ensures
        holds_name(ranked(file, prefer), c.name),
{
    let before = goes_before(prefer);
    let p = |c: Seen| c.name.len() > 0 && c.value.len() > 0;
    let all = all_seen(text::lines(file));
    let rows = all.filter(p);
    let sorted = order::sorted(rows, before);
    cookies_are_ordered(prefer);
    order::sorting_is_stable(rows, before);
    broadcast use vstd::seq_lib::group_filter_ensures;

    let k = choose|k: int| 0 <= k < all.len() && all[k] == c;
    assert(p(all[k]));
    assert(rows.contains(c));
    order::sorted_holds_the_same(rows, before, c);
    firsts_come_first(sorted, before);
    let j = choose|j: int| 0 <= j < sorted.len() && sorted[j] == c;
    assert(holds_name(firsts(sorted), sorted[j].name));
}

/// Words of one line each, a line feed behind each of them, are its lines.
proof fn lines_of_words(words: Seq<Seq<char>>)
    requires
        forall|i: int|
            0 <= i < words.len() ==> one_line(#[trigger] words[i]) && words[i].len() > 0,
    ensures
        words.len() > 0 ==> text::lines(text::joined(words, "\n"@) + "\n"@) == words,
        words.len() == 0 ==> text::lines(text::joined(words, "\n"@) + "\n"@) == seq![
            Seq::<char>::empty(),
        ],
{
    reveal_strlit("\n");
    let body = text::joined(words, "\n"@);
    let whole = body + "\n"@;
    assert(whole.drop_last() =~= body);
    assert(whole.last() == '\n');
    if words.len() == 0 {
        assert(text::split(body, '\n') == seq![Seq::<char>::empty()]);
        let parts = text::split(whole, '\n');
        assert(parts.drop_last() =~= seq![Seq::<char>::empty()]);
        assert(text::lines(whole) =~= seq![Seq::<char>::empty()]);
    } else {
        split_of_joined(words);
        let parts = text::split(whole, '\n');
        assert(parts == words.push(Seq::empty()));
        assert(parts.drop_last() =~= words);
        assert forall|i: int| 0 <= i < words.len() implies text::without_return(
            #[trigger] words[i],
        ) == words[i] by {
            assert(one_line(words[i]));
        }
        assert(text::lines(whole) =~= words);
    }
}

/// Whether a word stays on one line.
pub open spec fn one_line(w: Seq<char>) -> bool {
    forall|k: int| 0 <= k < w.len() ==> #[trigger] w[k] != '\n' && w[k] != '\r'
}

/// A string with a word that holds no separator behind it is split as before,
/// with the word behind the last part.
pub proof fn split_with_tail(s: Seq<char>, w: Seq<char>, sep: char)
    requires
        forall|k: int| 0 <= k < w.len() ==> #[trigger] w[k] != sep,
    ensures
        text::split(s + w, sep) == text::split(s, sep).drop_last().push(
            text::split(s, sep).last() + w,
        ),
    decreases w.len(),
{
    text::split_is_not_empty(s, sep);
    let before = text::split(s, sep);
    if w.len() == 0 {
        assert(s + w =~= s);
        assert(before.last() + w =~= before.last());
        assert(before.drop_last().push(before.last()) =~= before);
    } else {
        let rest = w.drop_last();
        split_with_tail(s, rest, sep);
        let t = s + w;
        assert(t.drop_last() =~= s + rest);
        assert(t.last() == w.last());
        assert(w[w.len() - 1] != sep);
        let inner = text::split(s + rest, sep);
        assert(inner.drop_last() =~= before.drop_last());
        assert(inner.last() == before.last() + rest);
        assert((before.last() + rest).push(w.last()) =~= before.last() + w);
    }
}

proof fn split_of_joined(words: Seq<Seq<char>>)
    requires
        words.len() > 0,
        forall|i: int| 0 <= i < words.len() ==> one_line(#[trigger] words[i]),
    ensures
        text::split(text::joined(words, "\n"@), '\n') == words,
    decreases words.len(),
{
    reveal_strlit("\n");
    let last = words.last();
    assert(one_line(words[words.len() - 1]));
    assert forall|k: int| 0 <= k < last.len() implies #[trigger] last[k] != '\n' by {}
    if words.len() == 1 {
        let none = Seq::<char>::empty();
        split_with_tail(none, last, '\n');
        assert(none + last =~= last);
        assert(text::split(last, '\n') =~= words);
    } else {
        let rest = words.drop_last();
        assert forall|i: int| 0 <= i < rest.len() implies one_line(#[trigger] rest[i]) by {
            assert(rest[i] == words[i]);
        }
        split_of_joined(rest);
        let body = text::joined(rest, "\n"@);
        let head = body + "\n"@;
        assert(head.drop_last() =~= body);
        assert(head.last() == '\n');
        split_with_tail(head, last, '\n');
        let cut = text::split(head, '\n');
        assert(cut == rest.push(Seq::empty()));
        assert(cut.drop_last() =~= rest);
        assert(cut.last() + last =~= last);
        assert(rest.push(last) =~= words);
    }
}

proof fn words_stay_on_one_line(p: Provider)
    ensures
        one_line(p.spec_str()),
        p.spec_str().len() > 0,
{
    reveal_strlit("apple-music");
    reveal_strlit("local");
    reveal_strlit("spotify");
    reveal_strlit("youtube-music");
    reveal_strlit("tidal");
}

/// Once a source is marked it is set up, and every other is as it was.
pub proof fn a_marked_source_is_set_up(list: Seq<char>, provider: Provider, other: Provider)
    requires
        provider.spec_is_catalog(),
    ensures
        spec_is_configured(Some(marked(list, provider)), provider),
        other != provider ==> (spec_is_configured(Some(marked(list, provider)), other)
            == spec_is_configured(Some(list), other)),
{
    let lines = text::lines(list);
    let a = word(listed(lines, Provider::Spotify) || provider is Spotify, Provider::Spotify);
    let b = word(listed(lines, Provider::Tidal) || provider is Tidal, Provider::Tidal);
    let c = word(
        listed(lines, Provider::YoutubeMusic) || provider is YoutubeMusic,
        Provider::YoutubeMusic,
    );
    let words = a + b + c;
    words_stay_on_one_line(Provider::Spotify);
    words_stay_on_one_line(Provider::Tidal);
    words_stay_on_one_line(Provider::YoutubeMusic);
    assert forall|i: int| 0 <= i < words.len() implies one_line(#[trigger] words[i])
        && words[i].len() > 0 by {}
    lines_of_words(words);
    crate::provider::a_source_is_read_back(Provider::Spotify);
    crate::provider::a_source_is_read_back(Provider::Tidal);
    crate::provider::a_source_is_read_back(Provider::YoutubeMusic);
    assert(words.len() > 0);
    assert forall|p: Provider| p.spec_is_catalog() implies #[trigger] listed(words, p) == (listed(
        lines,
        p,
    ) || p == provider) by {
        if listed(lines, p) || p == provider {
            let at: int = if p is Spotify {
                0
            } else if p is Tidal {
                a.len() as int
            } else {
                (a.len() + b.len()) as int
            };
            assert(words[at] == p.spec_str());
        }
    }
}

proof fn others_are_words(lines: Seq<Seq<char>>, provider: Provider)
    ensures
        forall|i: int|
            0 <= i < others(lines, provider).len() ==> one_line(
                #[trigger] others(lines, provider)[i],
            ) && others(lines, provider)[i].len() > 0,
        forall|p: Provider|
            p.spec_is_catalog() ==> #[trigger] listed(others(lines, provider), p) == (p != provider
                && listed(lines, p)),
    decreases lines.len(),
{
    if lines.len() > 0 {
        let rest = lines.drop_last();
        let last = lines.last();
        let before = others(rest, provider);
        let all = others(lines, provider);
        others_are_words(rest, provider);
        words_stay_on_one_line(Provider::Spotify);
        words_stay_on_one_line(Provider::Tidal);
        words_stay_on_one_line(Provider::YoutubeMusic);
        crate::provider::a_source_is_read_back(Provider::Spotify);
        crate::provider::a_source_is_read_back(Provider::Tidal);
        crate::provider::a_source_is_read_back(Provider::YoutubeMusic);
        assert forall|i: int| 0 <= i < all.len() implies one_line(#[trigger] all[i])
            && all[i].len() > 0 by {
            if i < before.len() {
                assert(all[i] == before[i]);
            }
        }
        assert forall|p: Provider| p.spec_is_catalog() implies #[trigger] listed(all, p) == (p
            != provider && listed(lines, p)) by {
            assert(listed(before, p) == (p != provider && listed(rest, p)));
            if listed(before, p) {
                let k = choose|k: int|
                    0 <= k < before.len() && Provider::spec_parse(#[trigger] before[k]) == Some(p);
                assert(all[k] == before[k]);
            }
            if listed(rest, p) {
                let k = choose|k: int|
                    0 <= k < rest.len() && Provider::spec_parse(#[trigger] rest[k]) == Some(p);
                assert(lines[k] == rest[k]);
            }
            if listed(all, p) {
                let k = choose|k: int|
                    0 <= k < all.len() && Provider::spec_parse(#[trigger] all[k]) == Some(p);
                if k < before.len() {
                    assert(all[k] == before[k]);
                } else {
                    assert(lines[lines.len() - 1] == last);
                }
            }
            if p != provider && listed(lines, p) {
                let k = choose|k: int|
                    0 <= k < lines.len() && Provider::spec_parse(#[trigger] lines[k]) == Some(p);
                if k < rest.len() {
                    assert(rest[k] == lines[k]);
                } else {
                    assert(all[all.len() - 1] == p.spec_str());
                }
            }
        }
    }
}

/// Once a source is cleared it is not set up, and every other is as it was.
pub proof fn a_cleared_source_is_not_set_up(list: Seq<char>, provider: Provider, other: Provider)
    requires
        provider.spec_is_catalog(),
    ensures
        !spec_is_configured(Some(unmarked(list, provider)), provider),
        other != provider ==> (spec_is_configured(Some(unmarked(list, provider)), other)
            == spec_is_configured(Some(list), other)),
{
    let lines = text::lines(list);
    let words = others(lines, provider);
    others_are_words(lines, provider);
    lines_of_words(words);
    let kept = text::lines(unmarked(list, provider));
    if words.len() == 0 {
        let none = Seq::<char>::empty();
        assert(text::trimmed(none) == none);
        reveal_strlit("apple-music");
        reveal_strlit("apple");
        reveal_strlit("local");
        reveal_strlit("files");
        reveal_strlit("spotify");
        reveal_strlit("youtube-music");
        reveal_strlit("youtube");
        reveal_strlit("ytmusic");
        reveal_strlit("tidal");
        assert(Provider::spec_parse(none) is None);
        assert forall|p: Provider| p.spec_is_catalog() implies !#[trigger] listed(kept, p) by {
            if listed(kept, p) {
                let k = choose|k: int|
                    0 <= k < kept.len() && Provider::spec_parse(#[trigger] kept[k]) == Some(p);
                assert(kept[k] == none);
            }
        }
        assert(!listed(words, provider));
        if other.spec_is_catalog() {
            assert(!listed(words, other));
        }
    }
    if other.spec_is_catalog() {
        assert(listed(words, other) == (other != provider && listed(lines, other)));
    }
    assert(listed(words, provider) == false);
}

/// Whether a cookie can be read back from its line: nothing in it ends a column
/// or a line, its value is there and ends in no white space, and its domain
/// begins with none and is no comment.
pub open spec fn fits_a_line(c: NetscapeCookie) -> bool {
    &&& c.is_kept()
    &&& c.value@.len() > 0
    &&& forall|i: int| 0 <= i < c.columns().len() ==> one_column(#[trigger] c.columns()[i])
    &&& !text::is_space(c.value@.last())
    &&& !text::is_space(c.spec_domain()[0])
    &&& c.spec_domain()[0] != '#'
}

/// Whether a word stays in one column.
pub open spec fn one_column(w: Seq<char>) -> bool {
    forall|k: int| 0 <= k < w.len() ==> #[trigger] w[k] != '\t'
}

proof fn split_of_columns(columns: Seq<Seq<char>>)
    requires
        columns.len() > 0,
        forall|i: int| 0 <= i < columns.len() ==> one_column(#[trigger] columns[i]),
    ensures
        text::split(text::joined(columns, seq!['\t']), '\t') == columns,
    decreases columns.len(),
{
    let last = columns.last();
    assert(one_column(columns[columns.len() - 1]));
    if columns.len() == 1 {
        let none = Seq::<char>::empty();
        split_with_tail(none, last, '\t');
        assert(none + last =~= last);
        assert(text::split(last, '\t') =~= columns);
    } else {
        let rest = columns.drop_last();
        assert forall|i: int| 0 <= i < rest.len() implies one_column(#[trigger] rest[i]) by {
            assert(rest[i] == columns[i]);
        }
        split_of_columns(rest);
        let body = text::joined(rest, seq!['\t']);
        let head = body + seq!['\t'];
        assert(head.drop_last() =~= body);
        split_with_tail(head, last, '\t');
        let cut = text::split(head, '\t');
        assert(cut == rest.push(Seq::empty()));
        assert(cut.drop_last() =~= rest);
        assert(cut.last() + last =~= last);
        assert(rest.push(last) =~= columns);
    }
}

proof fn ends_of_joined(columns: Seq<Seq<char>>, sep: Seq<char>)
    requires
        columns.len() > 0,
        columns[0].len() > 0,
    ensures
        text::joined(columns, sep).len() > 0,
        text::joined(columns, sep)[0] == columns[0][0],
        columns.last().len() > 0 ==> text::joined(columns, sep).last() == columns.last().last(),
    decreases columns.len(),
{
    if columns.len() > 1 {
        ends_of_joined(columns.drop_last(), sep);
    }
}

/// A cookie that fits a line is read back from it, column by column, whether or
/// not it is hidden from scripts.
pub proof fn a_written_cookie_is_read_back(c: NetscapeCookie)
    requires
        fits_a_line(c),
    ensures
        columns_of(c.line()) == Some(c.columns()),
        seen_in(c.line()) == Some(
            Seen {
                domain: text::trimmed(c.spec_domain()),
                name: text::trimmed(c.name@),
                value: text::trimmed(c.value@),
            },
        ),
{
    reveal_strlit("#HttpOnly_");
    let body = text::joined(c.columns(), seq!['\t']);
    let line = c.line();
    ends_of_joined(c.columns(), seq!['\t']);
    split_of_columns(c.columns());
    assert(body[0] == c.spec_domain()[0]);
    assert(body.last() == c.value@.last());
    if c.http_only {
        assert(line == "#HttpOnly_"@ + body);
        assert(line[0] == '#');
        assert(line.last() == body.last());
        assert(line.subrange(0, 10) =~= "#HttpOnly_"@);
        assert(line.skip(10) =~= body);
    } else {
        assert(line =~= body);
        if "#HttpOnly_"@.is_prefix_of(line) {
            assert(line.subrange(0, 10)[0] == line[0]);
        }
    }
    assert(text::trim_start(line) == line);
    assert(text::trim_end(line) == line);
}

/// A session with Spotify is one with its cookie, whatever the case of the name;
/// other cookies alone are a visit.
pub proof fn a_session_has_its_cookie(names: Seq<String>, i: int)
    requires
        0 <= i < names.len(),
    ensures
        text::ascii_lower(names[i]@) == text::ascii_lower("sp_dc"@) ==> is_session(
            Provider::Spotify,
            names,
        ),
        (forall|j: int|
            0 <= j < names.len() ==> text::ascii_lower((#[trigger] names[j])@)
                != text::ascii_lower("sp_dc"@)) ==> !is_session(Provider::Spotify, names),
        text::ascii_lower(names[i]@) == text::ascii_lower("SID"@) ==> is_session(
            Provider::YoutubeMusic,
            names,
        ),
        text::ascii_lower(names[i]@) == text::ascii_lower("SAPISID"@) ==> is_session(
            Provider::YoutubeMusic,
            names,
        ),
        text::ascii_lower(names[i]@) == text::ascii_lower("__Secure-1PSID"@) ==> is_session(
            Provider::YoutubeMusic,
            names,
        ),
        text::ascii_lower(names[i]@) == text::ascii_lower("__Secure-3PSID"@) ==> is_session(
            Provider::YoutubeMusic,
            names,
        ),
        text::ascii_lower(names[i]@) == text::ascii_lower("LOGIN_INFO"@) ==> is_session(
            Provider::YoutubeMusic,
            names,
        ),
        text::ascii_lower(names[i]@) == text::ascii_lower("sid"@) ==> is_session(
            Provider::Tidal,
            names,
        ),
        text::ascii_lower(names[i]@) == text::ascii_lower("token"@) ==> is_session(
            Provider::Tidal,
            names,
        ),
        text::ascii_lower(names[i]@) == text::ascii_lower("_token"@) ==> is_session(
            Provider::Tidal,
            names,
        ),
        text::ascii_lower(names[i]@) == text::ascii_lower("refresh_token"@) ==> is_session(
            Provider::Tidal,
            names,
        ),
        text::ascii_lower(names[i]@) == text::ascii_lower("tidal_sid"@) ==> is_session(
            Provider::Tidal,
            names,
        ),
        text::ascii_lower(names[i]@) == text::ascii_lower("access_token"@) ==> is_session(
            Provider::Tidal,
            names,
        ),
        text::ascii_lower(names[i]@) == text::ascii_lower("id_token"@) ==> is_session(
            Provider::Tidal,
            names,
        ),
        text::ascii_lower(names[i]@) == text::ascii_lower("authorization"@) ==> is_session(
            Provider::Tidal,
            names,
        ),
        text::ascii_lower(names[i]@) == text::ascii_lower("refresh"@) ==> is_session(
            Provider::Tidal,
            names,
        ),
        text::ascii_lower(names[i]@) == text::ascii_lower("sessionid"@) ==> is_session(
            Provider::Tidal,
            names,
        ),
        text::ascii_lower(names[i]@) == text::ascii_lower("userid"@) ==> is_session(
            Provider::Tidal,
            names,
        ),
        text::ascii_lower(names[i]@) == text::ascii_lower("user_id"@) ==> is_session(
            Provider::Tidal,
            names,
        ),
        text::ascii_lower(names[i]@) == text::ascii_lower("playback"@) ==> is_session(
            Provider::Tidal,
            names,
        ),
        !is_session(Provider::AppleMusic, names),
        !is_session(Provider::Local, names),
{
}

/// A login window that is still at a login is not home, and one that has got to
/// the service's own site is.
pub proof fn a_login_page_is_not_home(uri: Seq<char>)
    ensures
        text::occurs(uri, "accounts.spotify.com"@) ==> !is_home(Provider::Spotify, uri),
        text::occurs(uri, "/login"@) ==> !is_home(Provider::Spotify, uri) && !is_home(
            Provider::Tidal,
            uri,
        ),
        text::occurs(uri, "accounts.google"@) ==> !is_home(Provider::YoutubeMusic, uri),
        text::occurs(uri, "/signin"@) ==> !is_home(Provider::YoutubeMusic, uri),
        text::occurs(uri, "login.tidal"@) ==> !is_home(Provider::Tidal, uri),
        !text::occurs(uri, "open.spotify.com"@) ==> !is_home(Provider::Spotify, uri),
        !text::occurs(uri, "music.youtube.com"@) ==> !is_home(Provider::YoutubeMusic, uri),
        text::occurs(uri, "open.spotify.com"@) && !text::occurs(uri, "accounts.spotify.com"@)
            && !text::occurs(uri, "/login"@) ==> is_home(Provider::Spotify, uri),
        !is_home(Provider::AppleMusic, uri) && !is_home(Provider::Local, uri),
{
}

/// A line of the file says the domain, whether it stands for all below it, the
/// path, whether it is secure, when it runs out, the name and the value, in this
/// order.
pub proof fn a_line_says_the_cookie(c: NetscapeCookie)
    ensures
        c.columns().len() == 7,
        c.host_only ==> c.columns()[0] == c.domain@ && c.columns()[1] == "FALSE"@,
        !c.host_only ==> c.columns()[1] == "TRUE"@,
        !c.host_only && c.domain@.len() > 0 && c.domain@[0] == '.' ==> c.columns()[0] == c.domain@,
        !c.host_only && c.domain@.len() > 0 && c.domain@[0] != '.' ==> c.columns()[0] == seq!['.']
            + c.domain@,
        c.path@.len() > 0 ==> c.columns()[2] == c.path@,
        c.path@.len() == 0 ==> c.columns()[2] == "/"@,
        c.secure ==> c.columns()[3] == "TRUE"@,
        !c.secure ==> c.columns()[3] == "FALSE"@,
        c.columns()[4] == text::signed_decimal(c.expires as int),
        c.columns()[5] == c.name@,
        c.columns()[6] == c.value@,
        c.http_only ==> "#HttpOnly_"@.is_prefix_of(c.line()),
        !c.http_only ==> c.line() == text::joined(c.columns(), seq!['\t']),
{
    let rest = text::joined(c.columns(), seq!['\t']);
    if c.http_only {
        assert(("#HttpOnly_"@ + rest).take("#HttpOnly_"@.len() as int) =~= "#HttpOnly_"@);
    } else {
        assert(Seq::<char>::empty() + rest =~= rest);
    }
}

/// The file keeps every cookie with a name and a domain, in their order, each in
/// a line of its own, and no other.
pub proof fn every_cookie_has_its_line(cookies: Seq<NetscapeCookie>, c: NetscapeCookie)
    ensures
        c.name@.len() > 0 && c.domain@.len() > 0 ==> cookie_lines(cookies.push(c)) == cookie_lines(
            cookies,
        ) + c.line() + "\n"@,
        c.name@.len() == 0 || c.domain@.len() == 0 ==> cookie_lines(cookies.push(c))
            == cookie_lines(cookies),
        cookie_lines(Seq::empty()).len() == 0,
{
    assert(cookies.push(c).drop_last() =~= cookies);
}

/// A request carries cookies as names and values, one behind the other, and
/// nothing where there are none.
pub proof fn a_request_carries_its_cookies(cookies: Seq<Seen>, c: Seen)
    ensures
        header_of(Seq::empty()) is None,
        header_of(seq![c]) == Some(c.name + "="@ + c.value),
        header_of(cookies) matches Some(h) ==> header_of(cookies.push(c)) == Some(
            h + "; "@ + c.name + "="@ + c.value,
        ),
{
    let f = |x: Seen| pair(x);
    let parts = cookies.map_values(f);
    assert(seq![c].map_values(f) =~= seq![pair(c)]);
    text::joining_one_more(parts, "; "@, pair(c));
    assert(cookies.push(c).map_values(f) =~= parts.push(pair(c)));
    if cookies.len() > 0 {
        let h = text::joined(parts, "; "@);
        assert(h + "; "@ + pair(c) =~= h + "; "@ + c.name + "="@ + c.value);
    }
}

/// What a request to Spotify carries are the cookies of its session from
/// Spotify's own domains, and nothing at all without the one that makes it.
pub proof fn spotify_is_sent_its_session_alone(file: Seq<char>, c: Seen, i: int)
    ensures
        ({
            let all = all_seen(text::lines(file));
            let kept = found(all, Provider::Spotify, seq!["sp_dc"@, "sp_key"@]);
            &&& 0 <= i < kept.len() ==> (text::ascii_lower(kept[i].name) == text::ascii_lower(
                "sp_dc"@,
            ) || text::ascii_lower(kept[i].name) == text::ascii_lower("sp_key"@)) && text::occurs(
                kept[i].domain,
                "spotify.com"@,
            ) && kept[i].value.len() > 0 && all.contains(kept[i])
            &&& all.contains(c) && c.name == "sp_dc"@ && text::occurs(c.domain, "spotify.com"@)
                && c.value.len() > 0 ==> spec_session_cookie(Provider::Spotify, file) is Some
            &&& (forall|j: int|
                0 <= j < all.len() ==> (#[trigger] all[j]).name != "sp_dc"@)
                ==> spec_session_cookie(Provider::Spotify, file) is None
        }),
{
    let all = all_seen(text::lines(file));
    let names = seq!["sp_dc"@, "sp_key"@];
    let kept = found(all, Provider::Spotify, names);
    what_is_found_was_wanted(all, Provider::Spotify, names);
    if 0 <= i < kept.len() {
        assert(is_wanted(kept[i], Provider::Spotify, names));
        let k = choose|k: int|
            0 <= k < names.len() && text::ascii_lower(kept[i].name) == text::ascii_lower(
                #[trigger] names[k],
            );
        assert(k == 0 || k == 1);
    }
    if all.contains(c) && c.name == "sp_dc"@ && text::occurs(c.domain, "spotify.com"@)
        && c.value.len() > 0 {
        assert(text::ascii_lower(c.name) == text::ascii_lower(names[0]));
        assert(is_wanted(c, Provider::Spotify, names));
        what_is_wanted_is_found(all, Provider::Spotify, names, c);
    }
    if (forall|j: int| 0 <= j < all.len() ==> (#[trigger] all[j]).name != "sp_dc"@) {
        if holds_exactly(kept, "sp_dc"@) {
            let k = choose|k: int| 0 <= k < kept.len() && (#[trigger] kept[k]).name == "sp_dc"@;
            assert(all.contains(kept[k]));
            let j = choose|j: int| 0 <= j < all.len() && all[j] == kept[k];
            assert(all[j].name == "sp_dc"@);
            assert(false);
        }
    }
}

proof fn what_is_found_was_wanted(cookies: Seq<Seen>, provider: Provider, names: Seq<Seq<char>>)
    ensures
        forall|i: int|
            0 <= i < found(cookies, provider, names).len() ==> is_wanted(
                #[trigger] found(cookies, provider, names)[i],
                provider,
                names,
            ) && cookies.contains(found(cookies, provider, names)[i]),
    decreases cookies.len(),
{
    if cookies.len() > 0 {
        let rest = cookies.drop_last();
        what_is_found_was_wanted(rest, provider, names);
        let before = found(rest, provider, names);
        let r = found(cookies, provider, names);
        assert forall|i: int| 0 <= i < r.len() implies is_wanted(#[trigger] r[i], provider, names)
            && cookies.contains(r[i]) by {
            if i < before.len() {
                assert(r[i] == before[i]);
                let k = choose|k: int| 0 <= k < rest.len() && rest[k] == before[i];
                assert(cookies[k] == r[i]);
            } else {
                assert(cookies[cookies.len() - 1] == r[i]);
            }
        }
    }
}

proof fn what_is_wanted_is_found(
    cookies: Seq<Seen>,
    provider: Provider,
    names: Seq<Seq<char>>,
    c: Seen,
)
    requires
        cookies.contains(c),
        is_wanted(c, provider, names),
    ensures
        holds_exactly(found(cookies, provider, names), c.name),
    decreases cookies.len(),
{
    let rest = cookies.drop_last();
    let before = found(rest, provider, names);
    let r = found(cookies, provider, names);
    if cookies.last() == c {
        if !holds_exactly(before, c.name) {
            assert(r == before.push(c));
            assert(r[before.len() as int].name == c.name);
        }
    } else {
        let k = choose|k: int| 0 <= k < cookies.len() && cookies[k] == c;
        assert(rest[k] == c);
        what_is_wanted_is_found(rest, provider, names, c);
        let j = choose|j: int| 0 <= j < before.len() && (#[trigger] before[j]).name == c.name;
        assert(r[j] == before[j]);
    }
}

/// A domain is preferred by the first name that stands in it.
pub proof fn the_first_name_decides(domain: Seq<char>, a: Seq<char>, b: Seq<char>)
    ensures
        text::occurs(domain, a) ==> preference(domain, seq![a, b]) == 0,
        !text::occurs(domain, a) && text::occurs(domain, b) ==> preference(domain, seq![a, b]) == 1,
        !text::occurs(domain, a) && !text::occurs(domain, b) ==> preference(domain, seq![a, b])
            == 2,
{
    reveal_with_fuel(preference, 3);
    assert(seq![a, b].skip(1) =~= seq![b]);
    assert(seq![b].skip(1) =~= Seq::<Seq<char>>::empty());
}

/// The names of a file's cookies are those of the lines that hold one, in their
/// order.
pub proof fn a_line_adds_its_name(lines: Seq<Seq<char>>, line: Seq<char>)
    ensures
        columns_of(line) is None ==> names_in(lines.push(line)) == names_in(lines),
        columns_of(line) matches Some(cols) ==> (cols.len() >= 6 && text::trimmed(cols[5]).len() > 0
            ==> names_in(lines.push(line)) == names_in(lines).push(text::trimmed(cols[5]))),
        names_in(Seq::empty()).len() == 0,
{
    assert(lines.push(line).drop_last() =~= lines);
}

/// A catalogue has files of its own, and no other source has any.
pub proof fn only_catalogues_have_files(dir: Seq<char>, provider: Provider, name: Seq<char>)
    ensures
        provider is Spotify || provider is YoutubeMusic || provider is Tidal ==> catalog_path(
            Some(dir),
            provider,
            name,
        ) == Some(paths::under(dir, name)),
        provider is AppleMusic || provider is Local ==> catalog_path(
            Some(dir),
            provider,
            name,
        ) is None,
{
}

/// What guards a form and what counts visits is no session with Tidal, whatever
/// else its name says; a token, and what Tidal names by a session, is one.
pub proof fn a_guard_is_no_session(name: Seq<char>)
    ensures
        text::occurs(name, "csrf"@) ==> !is_tidal_session(name),
        text::occurs(name, "xsrf"@) ==> !is_tidal_session(name),
        "_ga"@.is_prefix_of(name) ==> !is_tidal_session(name),
        !text::occurs(name, "csrf"@) && !text::occurs(name, "xsrf"@) && !"_ga"@.is_prefix_of(name)
            && text::occurs(name, "tidal"@) && text::occurs(name, "auth"@) ==> is_tidal_session(
            name,
        ),
        !text::occurs(name, "csrf"@) && !text::occurs(name, "xsrf"@) && !"_ga"@.is_prefix_of(name)
            && text::occurs(name, "tidal"@) && text::occurs(name, "sid"@) ==> is_tidal_session(
            name,
        ),
        !text::occurs(name, "csrf"@) && !text::occurs(name, "xsrf"@) && !"_ga"@.is_prefix_of(name)
            && "_token"@.is_suffix_of(name) ==> is_tidal_session(name),
        !text::occurs(name, "csrf"@) && !text::occurs(name, "xsrf"@) && !"_ga"@.is_prefix_of(name)
            && "-token"@.is_suffix_of(name) ==> is_tidal_session(name),
        !text::occurs(name, "tidal"@) && !"_token"@.is_suffix_of(name) && !"-token"@.is_suffix_of(
            name,
        ) ==> !is_tidal_session(name),
{
}

/// The cookies of a file are those of its lines, in their order, each with its
/// domain, its name and its value from their columns.
pub proof fn every_line_is_read(lines: Seq<Seq<char>>, line: Seq<char>)
    ensures
        all_seen(Seq::empty()).len() == 0,
        seen_in(line) matches Some(c) ==> all_seen(lines.push(line)) == all_seen(lines).push(c),
        seen_in(line) is None ==> all_seen(lines.push(line)) == all_seen(lines),
        columns_of(line) matches Some(cols) ==> (cols.len() >= 7 ==> (seen_in(line) matches Some(c)
            && c.domain == text::trimmed(cols[0]) && c.name == text::trimmed(cols[5]) && c.value
            == text::trimmed(cols[6]))),
        columns_of(line) is None ==> seen_in(line) is None,
{
    assert(lines.push(line).drop_last() =~= lines);
}

/// A service's own site and the page that signs in to it are among the addresses
/// whose cookies are kept, and no other service's are.
pub proof fn the_cookies_of_a_services_own_sites_are_kept()
    ensures
        spec_cookie_uris(Provider::Spotify).contains("https://open.spotify.com/"@),
        spec_cookie_uris(Provider::Spotify).contains("https://accounts.spotify.com/"@),
        spec_cookie_uris(Provider::YoutubeMusic).contains("https://music.youtube.com/"@),
        spec_cookie_uris(Provider::YoutubeMusic).contains("https://www.youtube.com/"@),
        spec_cookie_uris(Provider::YoutubeMusic).contains("https://accounts.google.com/"@),
        spec_cookie_uris(Provider::Tidal).contains("https://listen.tidal.com/"@),
        spec_cookie_uris(Provider::Tidal).contains("https://login.tidal.com/"@),
        spec_cookie_uris(Provider::Tidal).contains("https://auth.tidal.com/"@),
        spec_cookie_uris(Provider::Spotify).len() == 4,
        spec_cookie_uris(Provider::YoutubeMusic).len() == 4,
        spec_cookie_uris(Provider::Tidal).len() == 6,
        spec_cookie_uris(Provider::AppleMusic).len() == 0,
        spec_cookie_uris(Provider::Local).len() == 0,
{
    let s = spec_cookie_uris(Provider::Spotify);
    assert(s[0] == "https://open.spotify.com/"@ && s[1] == "https://accounts.spotify.com/"@);
    let y = spec_cookie_uris(Provider::YoutubeMusic);
    assert(y[0] == "https://music.youtube.com/"@ && y[1] == "https://www.youtube.com/"@ && y[2]
        == "https://accounts.google.com/"@);
    let t = spec_cookie_uris(Provider::Tidal);
    assert(t[0] == "https://listen.tidal.com/"@ && t[2] == "https://login.tidal.com/"@ && t[3]
        == "https://auth.tidal.com/"@);
}

} // verus!
