//! Which service the music comes from.
use vstd::prelude::*;

use crate::text;

verus! {

/// How finished a source is.
#[derive(Debug, Clone, Copy, PartialEq, Eq, Structural)]
pub enum Maturity {
    Ready,
    Beta,
    Alpha,
}

/// Where the music comes from.
#[derive(Debug, Clone, Copy, PartialEq, Eq, Structural)]
pub enum Provider {
    AppleMusic,
    Local,
    Spotify,
    YoutubeMusic,
    Tidal,
}

impl Default for Provider {
    fn default() -> (r: Self)
        ensures
            r == Provider::AppleMusic,
    {
        Provider::AppleMusic
    }
}

impl Provider {
    pub open spec fn spec_str(self) -> Seq<char> {
        match self {
            Provider::AppleMusic => "apple-music"@,
            Provider::Local => "local"@,
            Provider::Spotify => "spotify"@,
            Provider::YoutubeMusic => "youtube-music"@,
            Provider::Tidal => "tidal"@,
        }
    }

    /// The word that stands for the source in a file.
    pub fn as_str(self) -> (r: &'static str)
        ensures
            r@ == self.spec_str(),
    {
        match self {
            Provider::AppleMusic => "apple-music",
            Provider::Local => "local",
            Provider::Spotify => "spotify",
            Provider::YoutubeMusic => "youtube-music",
            Provider::Tidal => "tidal",
        }
    }

    /// The source that a word stands for, white space around it forgiven.
    pub open spec fn spec_parse(s: Seq<char>) -> Option<Provider> {
        let w = text::trimmed(s);
        if w == "apple-music"@ || w == "apple"@ {
            Some(Provider::AppleMusic)
        } else if w == "local"@ || w == "files"@ {
            Some(Provider::Local)
        } else if w == "spotify"@ {
            Some(Provider::Spotify)
        } else if w == "youtube-music"@ || w == "youtube"@ || w == "ytmusic"@ {
            Some(Provider::YoutubeMusic)
        } else if w == "tidal"@ {
            Some(Provider::Tidal)
        } else {
            None
        }
    }

    /// The source that a word stands for.
    pub fn parse(s: &str) -> (r: Option<Self>)
        ensures
            r == Provider::spec_parse(s@),
    {
        let word = text::trim(s);
        let w = word.as_str();
        if text::same(w, "apple-music") || text::same(w, "apple") {
            Some(Provider::AppleMusic)
        } else if text::same(w, "local") || text::same(w, "files") {
            Some(Provider::Local)
        } else if text::same(w, "spotify") {
            Some(Provider::Spotify)
        } else if text::same(w, "youtube-music") || text::same(w, "youtube") || text::same(
            w,
            "ytmusic",
        ) {
            Some(Provider::YoutubeMusic)
        } else if text::same(w, "tidal") {
            Some(Provider::Tidal)
        } else {
            None
        }
    }

    pub open spec fn spec_from_index(index: int) -> Provider {
        if index == 1 {
            Provider::Local
        } else if index == 2 {
            Provider::Spotify
        } else if index == 3 {
            Provider::YoutubeMusic
        } else if index == 4 {
            Provider::Tidal
        } else {
            Provider::AppleMusic
        }
    }

    /// The source at a place in the picker; Apple Music past its end.
    pub fn from_index(index: u32) -> (r: Self)
        ensures
            r == Provider::spec_from_index(index as int),
    {
        match index {
            1 => Provider::Local,
            2 => Provider::Spotify,
            3 => Provider::YoutubeMusic,
            4 => Provider::Tidal,
            _ => Provider::AppleMusic,
        }
    }

    pub open spec fn spec_index(self) -> int {
        match self {
            Provider::AppleMusic => 0,
            Provider::Local => 1,
            Provider::Spotify => 2,
            Provider::YoutubeMusic => 3,
            Provider::Tidal => 4,
        }
    }

    /// The source's place in the picker.
    pub fn index(self) -> (r: u32)
        ensures
            r == self.spec_index(),
    {
        match self {
            Provider::AppleMusic => 0,
            Provider::Local => 1,
            Provider::Spotify => 2,
            Provider::YoutubeMusic => 3,
            Provider::Tidal => 4,
        }
    }

    /// Every source can be chosen.
    pub fn is_available(self) -> (r: bool)
        ensures
            r,
    {
        true
    }

    /// Whether the source plays through the engine process.
    pub fn needs_sidecar(self) -> (r: bool)
        ensures
            r == (self is AppleMusic),
    {
        matches!(self, Provider::AppleMusic)
    }

    /// Whether Apple's own sign-in has to run before anything can play.
    pub fn needs_apple(self) -> (r: bool)
        ensures
            r == (self is AppleMusic),
    {
        matches!(self, Provider::AppleMusic)
    }

    pub open spec fn spec_is_catalog(self) -> bool {
        self is Spotify || self is YoutubeMusic || self is Tidal
    }

    /// Whether the source is a catalogue other than Apple Music.
    pub fn is_catalog(self) -> (r: bool)
        ensures
            r == self.spec_is_catalog(),
    {
        matches!(self, Provider::Spotify | Provider::YoutubeMusic | Provider::Tidal)
    }

    /// How finished the source is.
    pub fn maturity(self) -> (r: Maturity)
        ensures
            r == match self {
                Provider::Local | Provider::AppleMusic => Maturity::Ready,
                Provider::Spotify | Provider::YoutubeMusic => Maturity::Beta,
                Provider::Tidal => Maturity::Alpha,
            },
    {
        match self {
            Provider::Local | Provider::AppleMusic => Maturity::Ready,
            Provider::Spotify | Provider::YoutubeMusic => Maturity::Beta,
            Provider::Tidal => Maturity::Alpha,
        }
    }

    /// The word that sets a source's files apart. Apple Music's have none.
    pub open spec fn spec_cache_stem(self) -> Option<Seq<char>> {
        match self {
            Provider::AppleMusic => None,
            p => Some(p.spec_str()),
        }
    }

    /// The word that sets a source's files apart.
    pub fn cache_stem(self) -> (r: Option<&'static str>)
        ensures
            match r {
                Some(s) => self.spec_cache_stem() == Some(s@),
                None => self.spec_cache_stem() is None,
            },
    {
        match self {
            Provider::AppleMusic => None,
            p => Some(p.as_str()),
        }
    }

    /// What is kept on disk of the choice.
    pub fn file_text(self) -> (r: String)
        ensures
            r@ == self.spec_str() + "\n"@,
    {
        let mut out = self.as_str().to_owned();
        out.append("\n");
        out
    }
}

/// No word that stands for a source has white space at its ends, with or
/// without a line end behind it.
proof fn words_are_trimmed(p: Provider)
    ensures
        text::trimmed(p.spec_str()) == p.spec_str(),
        text::trimmed(p.spec_str() + "\n"@) == p.spec_str(),
{
    reveal_strlit("apple-music");
    reveal_strlit("local");
    reveal_strlit("spotify");
    reveal_strlit("youtube-music");
    reveal_strlit("tidal");
    text::trim_of_word_and_line_end(p.spec_str());
}

/// A source is read back from the word it is written as, and from the file it
/// is kept in.
pub proof fn a_source_is_read_back(p: Provider)
    ensures
        Provider::spec_parse(p.spec_str()) == Some(p),
        Provider::spec_parse(p.spec_str() + "\n"@) == Some(p),
{
    words_are_trimmed(p);
    reveal_strlit("apple-music");
    reveal_strlit("apple");
    reveal_strlit("local");
    reveal_strlit("files");
    reveal_strlit("spotify");
    reveal_strlit("youtube-music");
    reveal_strlit("youtube");
    reveal_strlit("ytmusic");
    reveal_strlit("tidal");
    let w = p.spec_str();
    assert(w.len() == "apple-music"@.len() || w.len() != 11);
    assert(p is Local ==> w[0] == 'l');
    assert(p is Tidal ==> w[0] == 't');
    assert(p is Spotify ==> w[0] == 's');
    assert(p is YoutubeMusic ==> w[0] == 'y');
    assert("apple-music"@[0] == 'a' && "apple"@[0] == 'a' && "local"@[0] == 'l' && "files"@[0]
        == 'f' && "spotify"@[0] == 's' && "youtube-music"@[0] == 'y' && "youtube"@[0] == 'y'
        && "ytmusic"@[0] == 'y' && "tidal"@[0] == 't');
}

/// A source is found at its own place in the picker.
pub proof fn a_source_is_at_its_index(p: Provider)
    ensures
        Provider::spec_from_index(p.spec_index()) == p,
{
}

/// No two sources share their files.
pub proof fn sources_do_not_share_files(a: Provider, b: Provider)
    requires
        a.spec_cache_stem() == b.spec_cache_stem(),
    ensures
        a == b,
{
    if a.spec_cache_stem() is Some {
        a_source_is_read_back(a);
        a_source_is_read_back(b);
    }
}

/// A source is read from each of its words, white space around it forgiven, and
/// from no other.
pub proof fn a_source_is_read_from_its_words(w: Seq<char>)
    requires
        text::trimmed(w) == w,
    ensures
        w == "apple"@ || w == "apple-music"@ ==> Provider::spec_parse(w) == Some(
            Provider::AppleMusic,
        ),
        w == "files"@ || w == "local"@ ==> Provider::spec_parse(w) == Some(Provider::Local),
        w == "youtube"@ || w == "ytmusic"@ || w == "youtube-music"@ ==> Provider::spec_parse(w)
            == Some(Provider::YoutubeMusic),
        w == "spotify"@ ==> Provider::spec_parse(w) == Some(Provider::Spotify),
        w == "tidal"@ ==> Provider::spec_parse(w) == Some(Provider::Tidal),
        w.len() == 0 ==> Provider::spec_parse(w) is None,
{
    reveal_strlit("apple-music");
    reveal_strlit("apple");
    reveal_strlit("local");
    reveal_strlit("files");
    reveal_strlit("spotify");
    reveal_strlit("youtube-music");
    reveal_strlit("youtube");
    reveal_strlit("ytmusic");
    reveal_strlit("tidal");
    assert("apple"@[0] == 'a' && "local"@[0] == 'l' && "files"@[0] == 'f' && "spotify"@[0] == 's'
        && "youtube"@[0] == 'y' && "ytmusic"@[0] == 'y' && "tidal"@[0] == 't' && "apple-music"@[0]
        == 'a' && "youtube-music"@[0] == 'y');
}

} // verus!
