//! Changes to a library, whichever source it belongs to.
use vstd::prelude::*;

use crate::i18n::{self, Key, Language};
use crate::provider::Provider;
use crate::streams::{self, StreamHit};
use crate::text;

verus! {

/// Whether an id belongs to a source. No id at all belongs to any of them.
pub open spec fn belongs(provider: Provider, id: Seq<char>) -> bool {
    id.len() == 0 || match provider {
        Provider::Spotify => "sp:"@.is_prefix_of(id),
        Provider::YoutubeMusic => "yt:"@.is_prefix_of(id),
        Provider::Tidal => "td:"@.is_prefix_of(id),
        Provider::AppleMusic => !streams::stream_id(id),
        Provider::Local => false,
    }
}

/// Refuse an id of another source, with the sentence to show.
pub fn reject_foreign(language: Language, provider: Provider, id: &str) -> (r: Result<(), String>)
    ensures
        match r {
            Ok(_) => belongs(provider, id@),
            Err(why) => !belongs(provider, id@) && why@ == i18n::sentence(
                language,
                Key::WriteWrongSource,
            ),
        },
{
    if id.is_empty() {
        return Ok(());
    }
    let ok = match provider {
        Provider::Spotify => text::starts_with(id, "sp:"),
        Provider::YoutubeMusic => text::starts_with(id, "yt:"),
        Provider::Tidal => text::starts_with(id, "td:"),
        Provider::AppleMusic => !StreamHit::is_stream_id(id),
        Provider::Local => false,
    };
    if ok {
        Ok(())
    } else {
        Err(i18n::t(language, Key::WriteWrongSource).to_owned())
    }
}

/// The service that carries a change out.
#[derive(Debug, Clone, Copy, PartialEq, Eq, Structural)]
pub enum Service {
    Spotify,
    YoutubeMusic,
    Tidal,
}

/// Which service carries a change out. Refuses one that names a thing of
/// another source, and one for a source that has no such service.
pub fn route(
    language: Language,
    provider: Provider,
    id: &str,
    playlist_id: Option<&str>,
) -> (r: Result<Service, String>)
    ensures
        ({
            let fits = belongs(provider, id@) && (playlist_id matches Some(list) ==> belongs(
                provider,
                list@,
            ));
            match r {
                Ok(s) => fits && match provider {
                    Provider::Spotify => s == Service::Spotify,
                    Provider::YoutubeMusic => s == Service::YoutubeMusic,
                    Provider::Tidal => s == Service::Tidal,
                    _ => false,
                },
                Err(why) => (!fits || provider is AppleMusic || provider is Local) && why@
                    == i18n::sentence(language, Key::WriteWrongSource),
            }
        }),
{
    match reject_foreign(language, provider, id) {
        Err(why) => return Err(why),
        Ok(_) => {},
    }
    if let Some(list) = playlist_id {
        match reject_foreign(language, provider, list) {
            Err(why) => return Err(why),
            Ok(_) => {},
        }
    }
    match provider {
        Provider::Spotify => Ok(Service::Spotify),
        Provider::YoutubeMusic => Ok(Service::YoutubeMusic),
        Provider::Tidal => Ok(Service::Tidal),
        Provider::AppleMusic | Provider::Local => Err(
            i18n::t(language, Key::WriteWrongSource).to_owned(),
        ),
    }
}

/// An id belongs to at most one source.
pub proof fn an_id_belongs_to_one_source(id: Seq<char>, a: Provider, b: Provider)
    requires
        id.len() > 0,
        belongs(a, id),
        belongs(b, id),
    ensures
        a == b,
{
    reveal_strlit("sp:");
    reveal_strlit("yt:");
    reveal_strlit("td:");
    if "sp:"@.is_prefix_of(id) {
        assert(id.subrange(0, 3)[0] == 's');
    }
    if "yt:"@.is_prefix_of(id) {
        assert(id.subrange(0, 3)[0] == 'y');
    }
    if "td:"@.is_prefix_of(id) {
        assert(id.subrange(0, 3)[0] == 't');
    }
}

/// A thing belongs to the source that its id begins with, and to no other.
pub proof fn a_thing_belongs_to_one_source(id: Seq<char>, a: Provider, b: Provider)
    requires
        id.len() > 0,
        belongs(a, id),
        belongs(b, id),
    ensures
        a == b,
        !(a is Local),
        belongs(Provider::Spotify, id) || belongs(Provider::YoutubeMusic, id) || belongs(
            Provider::Tidal,
            id,
        ) || belongs(Provider::AppleMusic, id),
        "sp:"@.is_prefix_of(id) ==> a is Spotify,
        "yt:"@.is_prefix_of(id) ==> a is YoutubeMusic,
        "td:"@.is_prefix_of(id) ==> a is Tidal,
{
    reveal_strlit("sp:");
    reveal_strlit("yt:");
    reveal_strlit("td:");
    assert("sp:"@[0] == 's' && "yt:"@[0] == 'y' && "td:"@[0] == 't');
    assert(forall|p: Seq<char>| #[trigger] p.is_prefix_of(id) && p.len() > 0 ==> id[0] == p[0]);
}

} // verus!
