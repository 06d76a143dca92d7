//! The sentences the clients show, in English and in Spanish.
use vstd::prelude::*;

use crate::provider::Provider;
use crate::text;

verus! {

/// The two languages there are sentences in.
#[derive(Debug, Clone, Copy, PartialEq, Eq, Structural)]
pub enum Language {
    English,
    Spanish,
}

impl Default for Language {
    fn default() -> (r: Self)
        ensures
            r == Language::English,
    {
        Language::English
    }
}

impl Language {
    pub open spec fn spec_str(self) -> Seq<char> {
        match self {
            Language::English => "en"@,
            Language::Spanish => "es"@,
        }
    }

    /// The word that stands for the language in a file.
    pub fn as_str(self) -> (r: &'static str)
        ensures
            r@ == self.spec_str(),
    {
        match self {
            Language::English => "en",
            Language::Spanish => "es",
        }
    }

    /// The language that a word stands for, white space around it forgiven.
    pub open spec fn spec_parse(s: Seq<char>) -> Option<Language> {
        let w = text::trimmed(s);
        if w == "en"@ || w == "english"@ {
            Some(Language::English)
        } else if w == "es"@ || w == "spanish"@ || w == "español"@ || w == "espanol"@ {
            Some(Language::Spanish)
        } else {
            None
        }
    }

    /// The language that a word stands for.
    pub fn parse(s: &str) -> (r: Option<Self>)
        ensures
            r == Language::spec_parse(s@),
    {
        let word = text::trim(s);
        let w = word.as_str();
        if text::same(w, "en") || text::same(w, "english") {
            Some(Language::English)
        } else if text::same(w, "es") || text::same(w, "spanish") || text::same(w, "español")
            || text::same(w, "espanol") {
            Some(Language::Spanish)
        } else {
            None
        }
    }

    pub open spec fn spec_from_index(i: int) -> Language {
        if i == 1 {
            Language::Spanish
        } else {
            Language::English
        }
    }

    /// The language at a place in the picker; English past its end.
    pub fn from_index(i: u32) -> (r: Self)
        ensures
            r == Language::spec_from_index(i as int),
    {
        match i {
            1 => Language::Spanish,
            _ => Language::English,
        }
    }

    pub open spec fn spec_index(self) -> int {
        match self {
            Language::English => 0,
            Language::Spanish => 1,
        }
    }

    /// The language's place in the picker.
    pub fn index(self) -> (r: u32)
        ensures
            r == self.spec_index(),
    {
        match self {
            Language::English => 0,
            Language::Spanish => 1,
        }
    }

    /// The language's name, in the language itself.
    pub fn native_name(self) -> (r: &'static str)
        ensures
            r@ == match self {
                Language::English => "English"@,
                Language::Spanish => "Español"@,
            },
    {
        match self {
            Language::English => "English",
            Language::Spanish => "Español",
        }
    }

    /// What is kept on disk of the choice.
    pub fn file_text(self) -> (r: String)
        ensures
            r@ == self.spec_str() + "\n"@,
    {
        let mut out = self.as_str().to_owned();
        out.append("\n");
        out
    }
}

/// A language is read back from the word it is written as, and from the file
/// it is kept in.
pub proof fn a_language_is_read_back(l: Language)
    ensures
        Language::spec_parse(l.spec_str()) == Some(l),
        Language::spec_parse(l.spec_str() + "\n"@) == Some(l),
{
    reveal_strlit("en");
    reveal_strlit("english");
    reveal_strlit("es");
    text::trim_of_word_and_line_end(l.spec_str());
    assert("es"@[1] == 's' && "en"@[1] == 'n' && "english"@[1] == 'n');
}

/// A language is found at its own place in the picker.
pub proof fn a_language_is_at_its_index(l: Language)
    ensures
        Language::spec_from_index(l.spec_index()) == l,
{
}

/// The language that sentences are shown in.
#[derive(Debug)]
pub struct Locale {
    pub language: Language,
}

impl Default for Locale {
    fn default() -> (r: Self)
        ensures
            r.language == Language::English,
    {
        Locale { language: Language::English }
    }
}

/// The language that sentences are shown in.
pub fn current(locale: &Locale) -> (r: Language)
    ensures
        r == locale.language,
{
    locale.language
}

/// Show every later sentence in `language`.
pub fn set_current(locale: &mut Locale, language: Language)
    ensures
        final(locale).language == language,
{
    locale.language = language;
}

/// Every sentence the clients share.
#[derive(Debug, Clone, Copy, PartialEq, Eq, Structural)]
pub enum Key {
    AppName,
    Search,
    Songs,
    Albums,
    Artists,
    Playlists,
    Discover,
    RecentlyPlayed,
    MadeForYou,
    RecommendedSongs,
    RecentlyAdded,
    Charts,
    LoadingDiscover,
    DiscoverEmpty,
    DiscoverEmptyBody,
    Library,
    All,
    Queue,
    AppleMusic,
    MainMenu,
    ToggleSidebar,
    ShowSidebar,
    HideSidebar,
    Reload,
    Sort,
    SearchFilter,
    Play,
    Pause,
    Shuffle,
    Repeat,
    RepeatOff,
    RepeatAll,
    RepeatOne,
    Previous,
    Next,
    Volume,
    ClearQueue,
    NothingQueued,
    NothingQueuedBody,
    RemoveFromQueue,
    TrackOptions,
    PlayNext,
    AddToQueue,
    AddToLibrary,
    RemoveFromLibrary,
    Favourite,
    RemoveFavourite,
    GoToAlbum,
    GoToArtist,
    Preferences,
    KeyboardShortcuts,
    About,
    SignOut,
    Quit,
    Appearance,
    Theme,
    ThemeSystem,
    ThemeLight,
    ThemeDark,
    AccentColour,
    AccentAppleRed,
    AccentSystem,
    AccentBlue,
    AccentPurple,
    AccentGreen,
    AccentOrange,
    AlbumArtBackdrop,
    AlbumArtBackdropSub,
    SourceTint,
    SourceTintSub,
    Language,
    LanguageSub,
    MusicSource,
    MusicSourceSub,
    ProviderTitle,
    ProviderBody,
    ProviderApple,
    ProviderAppleSub,
    ProviderLocal,
    ProviderLocalSub,
    ProviderSpotify,
    ProviderSpotifySub,
    ProviderYoutube,
    ProviderYoutubeSub,
    ProviderTidal,
    ProviderTidalSub,
    ProviderNote,
    ProviderRestart,
    CatalogSetupBody,
    CatalogSetupYtOk,
    CatalogSetupYtMissing,
    CatalogSetupContinue,
    CatalogSetupBack,
    CatalogSignInNote,
    CatalogLoginDone,
    CatalogOpenBrowser,
    CatalogSignOutTitle,
    CatalogSignOutBody,
    SearchSpotifyBody,
    SearchYoutubeBody,
    SearchTidalBody,
    EmptyLibraryBodyLocal,
    EmptyLibraryBodyCatalog,
    SearchSpotify,
    SearchYoutube,
    SearchTidal,
    Notifications,
    NotifyTrackChange,
    NotifyTrackChangeSub,
    WelcomeTitle,
    WelcomeBody,
    SignIn,
    SignInNote,
    SignOutTitle,
    SignOutBody,
    Cancel,
    StartingEngine,
    Connecting,
    PlaybackUnavailable,
    Ready,
    NothingPlaying,
    SearchAppleMusic,
    SearchAppleMusicBody,
    EmptyLibrary,
    EmptyLibraryBody,
    NoMatches,
    LoadingLibrary,
    LoadingAlbums,
    LoadingArtists,
    LoadingPlaylists,
    SearchingCatalog,
    SearchLibrary,
    SearchAlbums,
    SearchArtists,
    SearchPlaylists,
    SortTitle,
    SortArtist,
    SortAlbum,
    SortYear,
    SortAdded,
    SortUpdated,
    ReverseOrder,
    FilterEverything,
    CouldNotLoadPage,
    NothingHereYet,
    PlayPage,
    PinPlaylists,
    PinAPlaylist,
    PinAll,
    UnpinAll,
    AddToSidebar,
    RemoveFromSidebar,
    Unavailable,
    NoPlaylistsYet,
    ShortcutsPlayback,
    ShortcutsGeneral,
    ShortcutPlayPause,
    ShortcutNext,
    ShortcutPrevious,
    ShortcutVolumeUp,
    ShortcutVolumeDown,
    ShortcutSearch,
    ShortcutCloseWindow,
    ShortcutToggleSidebar,
    ShortcutToggleQueue,
    ShortcutPreferences,
    ShortcutShortcuts,
    ShortcutQuit,
    EarlierOne,
    HideEarlier,
    ShowEarlier,
    TracksOne,
    Album,
    Artist,
    Playlist,
    Song,
    SongsLower,
    EmptyAlbum,
    EmptyArtist,
    EmptyPlaylist,
    AboutComments,
    RefreshingLibrary,
    ToastAddLibrary,
    ToastFavourite,
    ToastRemoveLibrary,
    ToastRemoveFavourite,
    ToastGoneFromQueue,
    ToastUnstreamable,
    LikedSongs,
    YourTopTracks,
    SpotifyNotSignedIn,
    SpotifyTokenRefused,
    CatalogLoginFailed,
    CatalogLibraryFailed,
    SpotifyRateLimited,
    SpotifyTimeout,
    SpotifyCatalogueChanged,
    NewPlaylist,
    NewPlaylistTitle,
    NewPlaylistPlaceholder,
    Create,
    AddToPlaylist,
    ToastCreatePlaylist,
    ToastAddToPlaylist,
    WriteWrongSource,
    Lyrics,
    LyricsLoading,
    LyricsMissing,
}

/// A sentence in English.
pub open spec fn english(key: Key) -> Seq<char> {
    match key {
        Key::AppName => "Vinilo"@,
        Key::Search => "Search"@,
        Key::Songs => "Songs"@,
        Key::Albums => "Albums"@,
        Key::Artists => "Artists"@,
        Key::Playlists => "Playlists"@,
        Key::Discover => "Listen Now"@,
        Key::RecentlyPlayed => "Recently Played"@,
        Key::MadeForYou => "Made for You"@,
        Key::RecommendedSongs => "Songs for You"@,
        Key::RecentlyAdded => "Recently Added"@,
        Key::Charts => "Charts"@,
        Key::LoadingDiscover => "Loading recommendations"@,
        Key::DiscoverEmpty => "Nothing to discover yet"@,
        Key::DiscoverEmptyBody => "Play something and Vinilo will show it here, along with playlists and songs this source recommends."@,
        Key::Library => "Library"@,
        Key::All => "All"@,
        Key::Queue => "Queue"@,
        Key::AppleMusic => "Apple Music"@,
        Key::MainMenu => "Main Menu"@,
        Key::ToggleSidebar => "Toggle Sidebar"@,
        Key::ShowSidebar => "Show sidebar"@,
        Key::HideSidebar => "Hide sidebar"@,
        Key::Reload => "Reload"@,
        Key::Sort => "Sort"@,
        Key::SearchFilter => "What to search for"@,
        Key::Play => "Play"@,
        Key::Pause => "Pause"@,
        Key::Shuffle => "Shuffle"@,
        Key::Repeat => "Repeat"@,
        Key::RepeatOff => "Repeat: off"@,
        Key::RepeatAll => "Repeat: all"@,
        Key::RepeatOne => "Repeat: this track"@,
        Key::Previous => "Previous"@,
        Key::Next => "Next"@,
        Key::Volume => "Volume"@,
        Key::ClearQueue => "Clear the queue"@,
        Key::NothingQueued => "Nothing queued"@,
        Key::NothingQueuedBody => "Play something and it will show up here."@,
        Key::RemoveFromQueue => "Remove from queue"@,
        Key::TrackOptions => "Track options"@,
        Key::PlayNext => "Play _Next"@,
        Key::AddToQueue => "Add to _Queue"@,
        Key::AddToLibrary => "Add to _Library"@,
        Key::RemoveFromLibrary => "_Remove from Library"@,
        Key::Favourite => "_Favourite"@,
        Key::RemoveFavourite => "Remove _Favourite"@,
        Key::GoToAlbum => "Go to _Album"@,
        Key::GoToArtist => "Go to A_rtist"@,
        Key::Preferences => "_Preferences"@,
        Key::KeyboardShortcuts => "_Keyboard Shortcuts"@,
        Key::About => "_About Vinilo"@,
        Key::SignOut => "_Sign Out"@,
        Key::Quit => "_Quit"@,
        Key::Appearance => "Appearance"@,
        Key::Theme => "Theme"@,
        Key::ThemeSystem => "Follow System"@,
        Key::ThemeLight => "Light"@,
        Key::ThemeDark => "Dark"@,
        Key::AccentColour => "Accent Colour"@,
        Key::AccentAppleRed => "Apple Music Red"@,
        Key::AccentSystem => "Follow System"@,
        Key::AccentBlue => "Blue"@,
        Key::AccentPurple => "Purple"@,
        Key::AccentGreen => "Green"@,
        Key::AccentOrange => "Orange"@,
        Key::AlbumArtBackdrop => "Colour from the cover"@,
        Key::AlbumArtBackdropSub => "A wash of the album's main colour behind the player"@,
        Key::SourceTint => "Tint from music source"@,
        Key::SourceTintSub => "Apple Music red, Spotify green, YouTube red, Tidal cyan"@,
        Key::Language => "Language"@,
        Key::LanguageSub => "Interface language. Takes effect immediately."@,
        Key::MusicSource => "Music source"@,
        Key::MusicSourceSub => "Where Vinilo searches and plays. Changing source restarts the player."@,
        Key::ProviderTitle => "Where is your music?"@,
        Key::ProviderBody => "Pick a catalogue. Apple Music is stable; Spotify and YouTube Music are Beta: they work, the Apple sidecar is still heavy. Tidal is Alpha. Files on this computer always play."@,
        Key::ProviderApple => "Apple Music"@,
        Key::ProviderAppleSub => "Your library and the catalogue. Works well; the hidden player is still a full Chromium."@,
        Key::ProviderLocal => "This computer"@,
        Key::ProviderLocalSub => "Files you open, and folders you drop on Vinilo"@,
        Key::ProviderSpotify => "Spotify (Beta)"@,
        Key::ProviderSpotifySub => "Library and search after sign-in. Native audio needs Spotify Premium."@,
        Key::ProviderYoutube => "YouTube Music (Beta)"@,
        Key::ProviderYoutubeSub => "Library and search after sign-in. Audio comes from YouTube Music itself."@,
        Key::ProviderTidal => "Tidal (Alpha)"@,
        Key::ProviderTidalSub => "Search after you sign in. Playback still goes through yt-dlp."@,
        Key::ProviderNote => "You can change this later in Preferences. Beta sources work; Alpha is usable, not finished. Spotify Premium plays through librespot; without it, yt-dlp is the fallback."@,
        Key::ProviderRestart => "Could not switch source while another Vinilo window is open."@,
        Key::CatalogSetupBody => "Sign in so Vinilo can use your session with this catalogue. A window opens, the same way Apple Music does."@,
        Key::CatalogSetupYtOk => "After you sign in, search a song and click it. YouTube Music prefers InnerTube audio; Tidal still needs yt-dlp."@,
        Key::CatalogSetupYtMissing => "yt-dlp is not on PATH. YouTube Music still plays from InnerTube when it can. Tidal needs yt-dlp (sudo pacman -S yt-dlp ffmpeg)."@,
        Key::CatalogSetupContinue => "Sign In"@,
        Key::CatalogSetupBack => "Choose another source"@,
        Key::CatalogSignInNote => "The sign-in page opens in a separate window, including two-factor if your account uses it. It closes once you are in."@,
        Key::CatalogLoginDone => "Done"@,
        Key::CatalogOpenBrowser => "Open in browser"@,
        Key::CatalogSignOutTitle => "Sign out of this catalogue?"@,
        Key::CatalogSignOutBody => "Vinilo will forget this session. Signing back in opens the login window again."@,
        Key::SearchSpotifyBody => "Find a Spotify track and click it to play."@,
        Key::SearchYoutubeBody => "Find a YouTube Music track and click it to play."@,
        Key::SearchTidalBody => "Find a Tidal track and click it to play."@,
        Key::EmptyLibraryBodyLocal => "Open an audio file with Vinilo, drop a folder on the window, or set Vinilo as the default player for music in GNOME Settings."@,
        Key::EmptyLibraryBodyCatalog => "Liked songs, albums and playlists from this account will appear here. If this stays empty, sign in again from the menu."@,
        Key::SearchSpotify => "Search Spotify"@,
        Key::SearchYoutube => "Search YouTube Music"@,
        Key::SearchTidal => "Search Tidal"@,
        Key::Notifications => "Notifications"@,
        Key::NotifyTrackChange => "Notify on track change"@,
        Key::NotifyTrackChangeSub => "When a new song starts and Vinilo is not in focus"@,
        Key::WelcomeTitle => "Welcome to Vinilo"@,
        Key::WelcomeBody => "Vinilo plays your Apple Music library natively on GNOME. It needs an active Apple Music subscription."@,
        Key::SignIn => "Sign In to Apple Music"@,
        Key::SignInNote => "Apple's own sign-in page opens in a separate window, including two-factor if your account uses it. It closes for good once you're in."@,
        Key::SignOutTitle => "Sign out of Apple Music?"@,
        Key::SignOutBody => "Vinilo will forget this session. Signing back in opens Apple's login window again."@,
        Key::Cancel => "Cancel"@,
        Key::StartingEngine => "Starting the playback engine"@,
        Key::Connecting => "Connecting to Apple Music"@,
        Key::PlaybackUnavailable => "Playback unavailable"@,
        Key::Ready => "Ready"@,
        Key::NothingPlaying => "Nothing playing"@,
        Key::SearchAppleMusic => "Search Apple Music"@,
        Key::SearchAppleMusicBody => "Find songs from the whole catalogue, not just your library."@,
        Key::EmptyLibrary => "Nothing here yet"@,
        Key::EmptyLibraryBody => "Vinilo refreshes your library after sign-in. Use Reload to try again. You can also open a file on this computer — Vinilo plays those too."@,
        Key::NoMatches => "No matches"@,
        Key::LoadingLibrary => "Loading your library"@,
        Key::LoadingAlbums => "Loading your albums"@,
        Key::LoadingArtists => "Loading your artists"@,
        Key::LoadingPlaylists => "Loading your playlists"@,
        Key::SearchingCatalog => "Searching Apple Music"@,
        Key::SearchLibrary => "Search your library"@,
        Key::SearchAlbums => "Search albums"@,
        Key::SearchArtists => "Search artists"@,
        Key::SearchPlaylists => "Search playlists"@,
        Key::SortTitle => "Title"@,
        Key::SortArtist => "Artist"@,
        Key::SortAlbum => "Album"@,
        Key::SortYear => "Year"@,
        Key::SortAdded => "Recently Added"@,
        Key::SortUpdated => "Recently Updated"@,
        Key::ReverseOrder => "_Reverse Order"@,
        Key::FilterEverything => "Everything"@,
        Key::CouldNotLoadPage => "Could not load this page"@,
        Key::NothingHereYet => "Nothing here yet"@,
        Key::PlayPage => "Play"@,
        Key::PinPlaylists => "Pin Playlists"@,
        Key::PinAPlaylist => "Pin a playlist"@,
        Key::PinAll => "Pin All"@,
        Key::UnpinAll => "Unpin All"@,
        Key::AddToSidebar => "_Add to the Sidebar"@,
        Key::RemoveFromSidebar => "_Remove from the Sidebar"@,
        Key::Unavailable => "Unavailable"@,
        Key::NoPlaylistsYet => "Your library has no playlists yet, or it has not finished loading."@,
        Key::ShortcutsPlayback => "Playback"@,
        Key::ShortcutsGeneral => "General"@,
        Key::ShortcutPlayPause => "Play or pause"@,
        Key::ShortcutNext => "Next track"@,
        Key::ShortcutPrevious => "Previous track"@,
        Key::ShortcutVolumeUp => "Volume up"@,
        Key::ShortcutVolumeDown => "Volume down"@,
        Key::ShortcutSearch => "Search"@,
        Key::ShortcutCloseWindow => "Close the window"@,
        Key::ShortcutToggleSidebar => "Toggle the sidebar"@,
        Key::ShortcutToggleQueue => "Toggle the queue"@,
        Key::ShortcutPreferences => "Preferences"@,
        Key::ShortcutShortcuts => "Keyboard shortcuts"@,
        Key::ShortcutQuit => "Quit"@,
        Key::EarlierOne => "1 earlier"@,
        Key::HideEarlier => "Hide the tracks before this one"@,
        Key::ShowEarlier => "Show the tracks before this one"@,
        Key::TracksOne => "1 track"@,
        Key::Album => "album"@,
        Key::Artist => "artist"@,
        Key::Playlist => "playlist"@,
        Key::Song => "song"@,
        Key::SongsLower => "songs"@,
        Key::EmptyAlbum => "This album has no songs."@,
        Key::EmptyArtist => "This artist has no albums."@,
        Key::EmptyPlaylist => "This playlist has no songs."@,
        Key::AboutComments => "A native GNOME music player for Linux.\n\nApple Music plays through Apple's MusicKit player using Google's Widevine CDM, in a hidden helper process. Files on this computer play natively. Spotify (Beta) plays through librespot when you have Premium; YouTube Music (Beta) prefers InnerTube audio; Tidal (Alpha) still uses yt-dlp. Each catalogue keeps a cookie sign-in for library and search.\n\nFork of Slipmat by Miguel Rincon."@,
        Key::RefreshingLibrary => "Refreshing library…"@,
        Key::ToastAddLibrary => "Adding to your library…"@,
        Key::ToastFavourite => "Favouriting…"@,
        Key::ToastRemoveLibrary => "Removing from your library…"@,
        Key::ToastRemoveFavourite => "Removing favourite…"@,
        Key::ToastGoneFromQueue => "That track is no longer in the queue"@,
        Key::ToastUnstreamable => "Nothing here can be streamed"@,
        Key::LikedSongs => "Liked Songs"@,
        Key::YourTopTracks => "Your Top Tracks"@,
        Key::SpotifyNotSignedIn => "Spotify is not signed in. Open Sign In from the menu and log in again."@,
        Key::SpotifyTokenRefused => "Spotify would not issue a token. Sign in again from the menu if this keeps happening."@,
        Key::CatalogLoginFailed => "Could not keep the session. Stay on the signed-in page, then press Done."@,
        Key::CatalogLibraryFailed => "Could not load this catalog's library. Try Refresh, or sign in again if this source needs it."@,
        Key::SpotifyRateLimited => "Spotify asked us to wait. Try Reload in a minute."@,
        Key::SpotifyTimeout => "Spotify did not answer in time. Try again."@,
        Key::SpotifyCatalogueChanged => "Spotify's catalogue API changed. Sign in again, then Reload."@,
        Key::NewPlaylist => "New _playlist"@,
        Key::NewPlaylistTitle => "New playlist"@,
        Key::NewPlaylistPlaceholder => "Playlist name"@,
        Key::Create => "Create"@,
        Key::AddToPlaylist => "Add to _playlist"@,
        Key::ToastCreatePlaylist => "Creating playlist…"@,
        Key::ToastAddToPlaylist => "Adding to playlist…"@,
        Key::WriteWrongSource => "That item belongs to another music source."@,
        Key::Lyrics => "Lyrics"@,
        Key::LyricsLoading => "Loading lyrics…"@,
        Key::LyricsMissing => "No lyrics for this song"@,
    }
}

/// A sentence in Spanish.
pub open spec fn spanish(key: Key) -> Seq<char> {
    match key {
        Key::AppName => "Vinilo"@,
        Key::Search => "Buscar"@,
        Key::Songs => "Canciones"@,
        Key::Albums => "Álbumes"@,
        Key::Artists => "Artistas"@,
        Key::Playlists => "Listas"@,
        Key::Discover => "Escuchar ahora"@,
        Key::RecentlyPlayed => "Reproducido recientemente"@,
        Key::MadeForYou => "Hecho para ti"@,
        Key::RecommendedSongs => "Canciones para ti"@,
        Key::RecentlyAdded => "Añadido recientemente"@,
        Key::Charts => "Éxitos"@,
        Key::LoadingDiscover => "Cargando recomendaciones"@,
        Key::DiscoverEmpty => "Todavía no hay nada que descubrir"@,
        Key::DiscoverEmptyBody => "Reproduce algo y Vinilo lo mostrará aquí, junto con listas y canciones que recomienda esta fuente."@,
        Key::Library => "Biblioteca"@,
        Key::All => "Todas"@,
        Key::Queue => "Cola"@,
        Key::AppleMusic => "Apple Music"@,
        Key::MainMenu => "Menú principal"@,
        Key::ToggleSidebar => "Mostrar u ocultar la barra lateral"@,
        Key::ShowSidebar => "Mostrar la barra lateral"@,
        Key::HideSidebar => "Ocultar la barra lateral"@,
        Key::Reload => "Recargar"@,
        Key::Sort => "Ordenar"@,
        Key::SearchFilter => "Qué buscar"@,
        Key::Play => "Reproducir"@,
        Key::Pause => "Pausar"@,
        Key::Shuffle => "Aleatorio"@,
        Key::Repeat => "Repetir"@,
        Key::RepeatOff => "Repetir: no"@,
        Key::RepeatAll => "Repetir: todo"@,
        Key::RepeatOne => "Repetir: esta canción"@,
        Key::Previous => "Anterior"@,
        Key::Next => "Siguiente"@,
        Key::Volume => "Volumen"@,
        Key::ClearQueue => "Vaciar la cola"@,
        Key::NothingQueued => "Nada en la cola"@,
        Key::NothingQueuedBody => "Reproduce algo y aparecerá aquí."@,
        Key::RemoveFromQueue => "Quitar de la cola"@,
        Key::TrackOptions => "Opciones de la canción"@,
        Key::PlayNext => "Reproducir _siguiente"@,
        Key::AddToQueue => "Añadir a la _cola"@,
        Key::AddToLibrary => "Añadir a la _biblioteca"@,
        Key::RemoveFromLibrary => "_Quitar de la biblioteca"@,
        Key::Favourite => "_Favorito"@,
        Key::RemoveFavourite => "Quitar _favorito"@,
        Key::GoToAlbum => "Ir al _álbum"@,
        Key::GoToArtist => "Ir al a_rtista"@,
        Key::Preferences => "_Preferencias"@,
        Key::KeyboardShortcuts => "Atajos de _teclado"@,
        Key::About => "_Acerca de Vinilo"@,
        Key::SignOut => "_Cerrar sesión"@,
        Key::Quit => "_Salir"@,
        Key::Appearance => "Apariencia"@,
        Key::Theme => "Tema"@,
        Key::ThemeSystem => "Seguir el sistema"@,
        Key::ThemeLight => "Claro"@,
        Key::ThemeDark => "Oscuro"@,
        Key::AccentColour => "Color de acento"@,
        Key::AccentAppleRed => "Rojo de Apple Music"@,
        Key::AccentSystem => "Seguir el sistema"@,
        Key::AccentBlue => "Azul"@,
        Key::AccentPurple => "Morado"@,
        Key::AccentGreen => "Verde"@,
        Key::AccentOrange => "Naranja"@,
        Key::AlbumArtBackdrop => "Color de la portada"@,
        Key::AlbumArtBackdropSub => "Un tinte con el color principal del disco, detrás del reproductor"@,
        Key::SourceTint => "Teñir según la fuente"@,
        Key::SourceTintSub => "Rojo de Apple Music, verde de Spotify, rojo de YouTube, cian de Tidal"@,
        Key::Language => "Idioma"@,
        Key::LanguageSub => "Idioma de la interfaz. Se aplica al momento."@,
        Key::MusicSource => "Fuente de música"@,
        Key::MusicSourceSub => "De dónde busca y reproduce Vinilo. Cambiar de fuente reinicia el reproductor."@,
        Key::ProviderTitle => "¿Dónde está tu música?"@,
        Key::ProviderBody => "Elige un catálogo. Apple Music es estable; Spotify y YouTube Music son Beta: funcionan, el sidecar de Apple sigue siendo pesado. Tidal es Alpha. Los archivos de este equipo siempre suenan."@,
        Key::ProviderApple => "Apple Music"@,
        Key::ProviderAppleSub => "Tu biblioteca y el catálogo. Funciona bien; el reproductor oculto sigue siendo Chromium."@,
        Key::ProviderLocal => "Este equipo"@,
        Key::ProviderLocalSub => "Archivos que abras y carpetas que sueltes en Vinilo"@,
        Key::ProviderSpotify => "Spotify (Beta)"@,
        Key::ProviderSpotifySub => "Biblioteca y búsqueda tras iniciar sesión. El audio nativo pide Spotify Premium."@,
        Key::ProviderYoutube => "YouTube Music (Beta)"@,
        Key::ProviderYoutubeSub => "Biblioteca y búsqueda tras iniciar sesión. El audio sale de YouTube Music."@,
        Key::ProviderTidal => "Tidal (Alpha)"@,
        Key::ProviderTidalSub => "Busca tras iniciar sesión. La reproducción aún pasa por yt-dlp."@,
        Key::ProviderNote => "Puedes cambiarlo más tarde en Preferencias. Las fuentes Beta funcionan; Alpha se puede usar, pero no está lista. Spotify Premium suena con librespot; sin Premium, yt-dlp es el respaldo."@,
        Key::ProviderRestart => "No se puede cambiar de fuente con otra ventana de Vinilo abierta."@,
        Key::CatalogSetupBody => "Inicia sesión para que Vinilo use tu sesión con este catálogo. Se abre una ventana, igual que con Apple Music."@,
        Key::CatalogSetupYtOk => "Cuando inicies sesión, busca una canción y pulsa. YouTube Music prefiere audio InnerTube; Tidal aún necesita yt-dlp."@,
        Key::CatalogSetupYtMissing => "yt-dlp no está en el PATH. YouTube Music sigue sonando por InnerTube cuando puede. Tidal necesita yt-dlp (sudo pacman -S yt-dlp ffmpeg)."@,
        Key::CatalogSetupContinue => "Iniciar sesión"@,
        Key::CatalogSetupBack => "Elegir otra fuente"@,
        Key::CatalogSignInNote => "La página de inicio de sesión se abre en una ventana aparte, incluida la verificación en dos pasos si tu cuenta la usa. Se cierra cuando ya estás dentro."@,
        Key::CatalogLoginDone => "Listo"@,
        Key::CatalogOpenBrowser => "Abrir en el navegador"@,
        Key::CatalogSignOutTitle => "¿Cerrar sesión de este catálogo?"@,
        Key::CatalogSignOutBody => "Vinilo olvidará esta sesión. Volver a entrar abre otra vez la ventana de inicio de sesión."@,
        Key::SearchSpotifyBody => "Busca un tema de Spotify y pulsa para reproducirlo."@,
        Key::SearchYoutubeBody => "Busca un tema de YouTube Music y pulsa para reproducirlo."@,
        Key::SearchTidalBody => "Busca un tema de Tidal y pulsa para reproducirlo."@,
        Key::EmptyLibraryBodyLocal => "Abre un archivo de audio con Vinilo, suelta una carpeta en la ventana o pon Vinilo como reproductor de música predeterminado en Ajustes de GNOME."@,
        Key::EmptyLibraryBodyCatalog => "Aquí saldrán las canciones que te gustan, los álbumes y las listas de esta cuenta. Si sigue vacío, vuelve a iniciar sesión desde el menú."@,
        Key::SearchSpotify => "Buscar en Spotify"@,
        Key::SearchYoutube => "Buscar en YouTube Music"@,
        Key::SearchTidal => "Buscar en Tidal"@,
        Key::Notifications => "Notificaciones"@,
        Key::NotifyTrackChange => "Avisar al cambiar de canción"@,
        Key::NotifyTrackChangeSub => "Cuando empieza una canción nueva y Vinilo no está en primer plano"@,
        Key::WelcomeTitle => "Bienvenido a Vinilo"@,
        Key::WelcomeBody => "Vinilo reproduce tu biblioteca de Apple Music de forma nativa en GNOME. Necesitas una suscripción activa a Apple Music."@,
        Key::SignIn => "Iniciar sesión en Apple Music"@,
        Key::SignInNote => "La página de inicio de sesión de Apple se abre en una ventana aparte, incluida la verificación en dos pasos si tu cuenta la usa. Se cierra del todo cuando ya estás dentro."@,
        Key::SignOutTitle => "¿Cerrar sesión de Apple Music?"@,
        Key::SignOutBody => "Vinilo olvidará esta sesión. Volver a entrar abre de nuevo la ventana de inicio de sesión de Apple."@,
        Key::Cancel => "Cancelar"@,
        Key::StartingEngine => "Arrancando el motor de reproducción"@,
        Key::Connecting => "Conectando con Apple Music"@,
        Key::PlaybackUnavailable => "Reproducción no disponible"@,
        Key::Ready => "Listo"@,
        Key::NothingPlaying => "Nada en reproducción"@,
        Key::SearchAppleMusic => "Buscar en Apple Music"@,
        Key::SearchAppleMusicBody => "Encuentra canciones de todo el catálogo, no solo de tu biblioteca."@,
        Key::EmptyLibrary => "Todavía no hay nada aquí"@,
        Key::EmptyLibraryBody => "Vinilo actualiza tu biblioteca después de iniciar sesión. Usa Recargar para intentarlo de nuevo. También puedes abrir un archivo de este equipo: Vinilo los reproduce también."@,
        Key::NoMatches => "Sin coincidencias"@,
        Key::LoadingLibrary => "Cargando tu biblioteca"@,
        Key::LoadingAlbums => "Cargando tus álbumes"@,
        Key::LoadingArtists => "Cargando tus artistas"@,
        Key::LoadingPlaylists => "Cargando tus listas"@,
        Key::SearchingCatalog => "Buscando en Apple Music"@,
        Key::SearchLibrary => "Buscar en tu biblioteca"@,
        Key::SearchAlbums => "Buscar álbumes"@,
        Key::SearchArtists => "Buscar artistas"@,
        Key::SearchPlaylists => "Buscar listas"@,
        Key::SortTitle => "Título"@,
        Key::SortArtist => "Artista"@,
        Key::SortAlbum => "Álbum"@,
        Key::SortYear => "Año"@,
        Key::SortAdded => "Añadidos recientemente"@,
        Key::SortUpdated => "Actualizados recientemente"@,
        Key::ReverseOrder => "Orden _inverso"@,
        Key::FilterEverything => "Todo"@,
        Key::CouldNotLoadPage => "No se ha podido cargar esta página"@,
        Key::NothingHereYet => "Todavía no hay nada aquí"@,
        Key::PlayPage => "Reproducir"@,
        Key::PinPlaylists => "Fijar listas"@,
        Key::PinAPlaylist => "Fijar una lista"@,
        Key::PinAll => "Fijar todas"@,
        Key::UnpinAll => "Quitar todas"@,
        Key::AddToSidebar => "_Añadir a la barra lateral"@,
        Key::RemoveFromSidebar => "_Quitar de la barra lateral"@,
        Key::Unavailable => "No disponible"@,
        Key::NoPlaylistsYet => "Tu biblioteca aún no tiene listas, o todavía no ha terminado de cargar."@,
        Key::ShortcutsPlayback => "Reproducción"@,
        Key::ShortcutsGeneral => "General"@,
        Key::ShortcutPlayPause => "Reproducir o pausar"@,
        Key::ShortcutNext => "Canción siguiente"@,
        Key::ShortcutPrevious => "Canción anterior"@,
        Key::ShortcutVolumeUp => "Subir el volumen"@,
        Key::ShortcutVolumeDown => "Bajar el volumen"@,
        Key::ShortcutSearch => "Buscar"@,
        Key::ShortcutCloseWindow => "Cerrar la ventana"@,
        Key::ShortcutToggleSidebar => "Mostrar u ocultar la barra lateral"@,
        Key::ShortcutToggleQueue => "Mostrar u ocultar la cola"@,
        Key::ShortcutPreferences => "Preferencias"@,
        Key::ShortcutShortcuts => "Atajos de teclado"@,
        Key::ShortcutQuit => "Salir"@,
        Key::EarlierOne => "1 anterior"@,
        Key::HideEarlier => "Ocultar las canciones anteriores"@,
        Key::ShowEarlier => "Mostrar las canciones anteriores"@,
        Key::TracksOne => "1 canción"@,
        Key::Album => "álbum"@,
        Key::Artist => "artista"@,
        Key::Playlist => "lista"@,
        Key::Song => "canción"@,
        Key::SongsLower => "canciones"@,
        Key::EmptyAlbum => "Este álbum no tiene canciones."@,
        Key::EmptyArtist => "Este artista no tiene álbumes."@,
        Key::EmptyPlaylist => "Esta lista no tiene canciones."@,
        Key::AboutComments => "Un reproductor nativo de GNOME para Linux.\n\nApple Music pasa por el reproductor MusicKit de Apple con el CDM Widevine de Google, en un proceso auxiliar oculto. Los archivos de este equipo se reproducen de forma nativa. Spotify (Beta) suena con librespot si tienes Premium; YouTube Music (Beta) prefiere audio InnerTube; Tidal (Alpha) aún usa yt-dlp. Cada catálogo guarda un inicio de sesión con cookies para biblioteca y búsqueda.\n\nFork de Slipmat, de Miguel Rincon."@,
        Key::RefreshingLibrary => "Actualizando la biblioteca…"@,
        Key::ToastAddLibrary => "Añadiendo a tu biblioteca…"@,
        Key::ToastFavourite => "Marcando como favorito…"@,
        Key::ToastRemoveLibrary => "Quitando de tu biblioteca…"@,
        Key::ToastRemoveFavourite => "Quitando de favoritos…"@,
        Key::ToastGoneFromQueue => "Esa canción ya no está en la cola"@,
        Key::ToastUnstreamable => "Aquí no hay nada que se pueda reproducir"@,
        Key::LikedSongs => "Canciones que te gustan"@,
        Key::YourTopTracks => "Tus temas más reproducidos"@,
        Key::SpotifyNotSignedIn => "Spotify no tiene sesión. Abre Iniciar sesión en el menú y entra otra vez."@,
        Key::SpotifyTokenRefused => "Spotify no ha emitido un token. Vuelve a iniciar sesión desde el menú si sigue pasando."@,
        Key::CatalogLoginFailed => "No se ha podido guardar la sesión. Quédate en la página ya iniciada y pulsa Listo."@,
        Key::CatalogLibraryFailed => "No se pudo cargar la biblioteca de este catálogo. Prueba Actualizar, o vuelve a iniciar sesión si esta fuente lo pide."@,
        Key::SpotifyRateLimited => "Spotify pide que esperemos. Prueba Recargar dentro de un minuto."@,
        Key::SpotifyTimeout => "Spotify no ha contestado a tiempo. Prueba otra vez."@,
        Key::SpotifyCatalogueChanged => "La API del catálogo de Spotify ha cambiado. Vuelve a iniciar sesión y pulsa Recargar."@,
        Key::NewPlaylist => "Nueva _lista"@,
        Key::NewPlaylistTitle => "Nueva lista"@,
        Key::NewPlaylistPlaceholder => "Nombre de la lista"@,
        Key::Create => "Crear"@,
        Key::AddToPlaylist => "Añadir a una _lista"@,
        Key::ToastCreatePlaylist => "Creando la lista…"@,
        Key::ToastAddToPlaylist => "Añadiendo a la lista…"@,
        Key::WriteWrongSource => "Esa canción pertenece a otra fuente de música."@,
        Key::Lyrics => "Letra"@,
        Key::LyricsLoading => "Cargando la letra…"@,
        Key::LyricsMissing => "No hay letra para esta canción"@,
    }
}

/// A sentence in `language`.
pub open spec fn sentence(language: Language, key: Key) -> Seq<char> {
    match language {
        Language::English => english(key),
        Language::Spanish => spanish(key),
    }
}

/// A sentence in `language`.
pub fn t(language: Language, key: Key) -> (r: &'static str)
    ensures
        r@ == sentence(language, key),
{
    match language {
        Language::English => en(key),
        Language::Spanish => es(key),
    }
}

/// A sentence in English.
pub fn en(key: Key) -> (r: &'static str)
    ensures
        r@ == english(key),
{
    match key {
        Key::AppName => "Vinilo",
        Key::Search => "Search",
        Key::Songs => "Songs",
        Key::Albums => "Albums",
        Key::Artists => "Artists",
        Key::Playlists => "Playlists",
        Key::Discover => "Listen Now",
        Key::RecentlyPlayed => "Recently Played",
        Key::MadeForYou => "Made for You",
        Key::RecommendedSongs => "Songs for You",
        Key::RecentlyAdded => "Recently Added",
        Key::Charts => "Charts",
        Key::LoadingDiscover => "Loading recommendations",
        Key::DiscoverEmpty => "Nothing to discover yet",
        Key::DiscoverEmptyBody => "Play something and Vinilo will show it here, along with playlists and songs this source recommends.",
        Key::Library => "Library",
        Key::All => "All",
        Key::Queue => "Queue",
        Key::AppleMusic => "Apple Music",
        Key::MainMenu => "Main Menu",
        Key::ToggleSidebar => "Toggle Sidebar",
        Key::ShowSidebar => "Show sidebar",
        Key::HideSidebar => "Hide sidebar",
        Key::Reload => "Reload",
        Key::Sort => "Sort",
        Key::SearchFilter => "What to search for",
        Key::Play => "Play",
        Key::Pause => "Pause",
        Key::Shuffle => "Shuffle",
        Key::Repeat => "Repeat",
        Key::RepeatOff => "Repeat: off",
        Key::RepeatAll => "Repeat: all",
        Key::RepeatOne => "Repeat: this track",
        Key::Previous => "Previous",
        Key::Next => "Next",
        Key::Volume => "Volume",
        Key::ClearQueue => "Clear the queue",
        Key::NothingQueued => "Nothing queued",
        Key::NothingQueuedBody => "Play something and it will show up here.",
        Key::RemoveFromQueue => "Remove from queue",
        Key::TrackOptions => "Track options",
        Key::PlayNext => "Play _Next",
        Key::AddToQueue => "Add to _Queue",
        Key::AddToLibrary => "Add to _Library",
        Key::RemoveFromLibrary => "_Remove from Library",
        Key::Favourite => "_Favourite",
        Key::RemoveFavourite => "Remove _Favourite",
        Key::GoToAlbum => "Go to _Album",
        Key::GoToArtist => "Go to A_rtist",
        Key::Preferences => "_Preferences",
        Key::KeyboardShortcuts => "_Keyboard Shortcuts",
        Key::About => "_About Vinilo",
        Key::SignOut => "_Sign Out",
        Key::Quit => "_Quit",
        Key::Appearance => "Appearance",
        Key::Theme => "Theme",
        Key::ThemeSystem => "Follow System",
        Key::ThemeLight => "Light",
        Key::ThemeDark => "Dark",
        Key::AccentColour => "Accent Colour",
        Key::AccentAppleRed => "Apple Music Red",
        Key::AccentSystem => "Follow System",
        Key::AccentBlue => "Blue",
        Key::AccentPurple => "Purple",
        Key::AccentGreen => "Green",
        Key::AccentOrange => "Orange",
        Key::AlbumArtBackdrop => "Colour from the cover",
        Key::AlbumArtBackdropSub => "A wash of the album's main colour behind the player",
        Key::SourceTint => "Tint from music source",
        Key::SourceTintSub => "Apple Music red, Spotify green, YouTube red, Tidal cyan",
        Key::Language => "Language",
        Key::LanguageSub => "Interface language. Takes effect immediately.",
        Key::MusicSource => "Music source",
        Key::MusicSourceSub => "Where Vinilo searches and plays. Changing source restarts the player.",
        Key::ProviderTitle => "Where is your music?",
        Key::ProviderBody => "Pick a catalogue. Apple Music is stable; Spotify and YouTube Music are Beta: they work, the Apple sidecar is still heavy. Tidal is Alpha. Files on this computer always play.",
        Key::ProviderApple => "Apple Music",
        Key::ProviderAppleSub => "Your library and the catalogue. Works well; the hidden player is still a full Chromium.",
        Key::ProviderLocal => "This computer",
        Key::ProviderLocalSub => "Files you open, and folders you drop on Vinilo",
        Key::ProviderSpotify => "Spotify (Beta)",
        Key::ProviderSpotifySub => "Library and search after sign-in. Native audio needs Spotify Premium.",
        Key::ProviderYoutube => "YouTube Music (Beta)",
        Key::ProviderYoutubeSub => "Library and search after sign-in. Audio comes from YouTube Music itself.",
        Key::ProviderTidal => "Tidal (Alpha)",
        Key::ProviderTidalSub => "Search after you sign in. Playback still goes through yt-dlp.",
        Key::ProviderNote => "You can change this later in Preferences. Beta sources work; Alpha is usable, not finished. Spotify Premium plays through librespot; without it, yt-dlp is the fallback.",
        Key::ProviderRestart => "Could not switch source while another Vinilo window is open.",
        Key::CatalogSetupBody => "Sign in so Vinilo can use your session with this catalogue. A window opens, the same way Apple Music does.",
        Key::CatalogSetupYtOk => "After you sign in, search a song and click it. YouTube Music prefers InnerTube audio; Tidal still needs yt-dlp.",
        Key::CatalogSetupYtMissing => "yt-dlp is not on PATH. YouTube Music still plays from InnerTube when it can. Tidal needs yt-dlp (sudo pacman -S yt-dlp ffmpeg).",
        Key::CatalogSetupContinue => "Sign In",
        Key::CatalogSetupBack => "Choose another source",
        Key::CatalogSignInNote => "The sign-in page opens in a separate window, including two-factor if your account uses it. It closes once you are in.",
        Key::CatalogLoginDone => "Done",
        Key::CatalogOpenBrowser => "Open in browser",
        Key::CatalogSignOutTitle => "Sign out of this catalogue?",
        Key::CatalogSignOutBody => "Vinilo will forget this session. Signing back in opens the login window again.",
        Key::SearchSpotifyBody => "Find a Spotify track and click it to play.",
        Key::SearchYoutubeBody => "Find a YouTube Music track and click it to play.",
        Key::SearchTidalBody => "Find a Tidal track and click it to play.",
        Key::EmptyLibraryBodyLocal => "Open an audio file with Vinilo, drop a folder on the window, or set Vinilo as the default player for music in GNOME Settings.",
        Key::EmptyLibraryBodyCatalog => "Liked songs, albums and playlists from this account will appear here. If this stays empty, sign in again from the menu.",
        Key::SearchSpotify => "Search Spotify",
        Key::SearchYoutube => "Search YouTube Music",
        Key::SearchTidal => "Search Tidal",
        Key::Notifications => "Notifications",
        Key::NotifyTrackChange => "Notify on track change",
        Key::NotifyTrackChangeSub => "When a new song starts and Vinilo is not in focus",
        Key::WelcomeTitle => "Welcome to Vinilo",
        Key::WelcomeBody => "Vinilo plays your Apple Music library natively on GNOME. It needs an active Apple Music subscription.",
        Key::SignIn => "Sign In to Apple Music",
        Key::SignInNote => "Apple's own sign-in page opens in a separate window, including two-factor if your account uses it. It closes for good once you're in.",
        Key::SignOutTitle => "Sign out of Apple Music?",
        Key::SignOutBody => "Vinilo will forget this session. Signing back in opens Apple's login window again.",
        Key::Cancel => "Cancel",
        Key::StartingEngine => "Starting the playback engine",
        Key::Connecting => "Connecting to Apple Music",
        Key::PlaybackUnavailable => "Playback unavailable",
        Key::Ready => "Ready",
        Key::NothingPlaying => "Nothing playing",
        Key::SearchAppleMusic => "Search Apple Music",
        Key::SearchAppleMusicBody => "Find songs from the whole catalogue, not just your library.",
        Key::EmptyLibrary => "Nothing here yet",
        Key::EmptyLibraryBody => "Vinilo refreshes your library after sign-in. Use Reload to try again. You can also open a file on this computer — Vinilo plays those too.",
        Key::NoMatches => "No matches",
        Key::LoadingLibrary => "Loading your library",
        Key::LoadingAlbums => "Loading your albums",
        Key::LoadingArtists => "Loading your artists",
        Key::LoadingPlaylists => "Loading your playlists",
        Key::SearchingCatalog => "Searching Apple Music",
        Key::SearchLibrary => "Search your library",
        Key::SearchAlbums => "Search albums",
        Key::SearchArtists => "Search artists",
        Key::SearchPlaylists => "Search playlists",
        Key::SortTitle => "Title",
        Key::SortArtist => "Artist",
        Key::SortAlbum => "Album",
        Key::SortYear => "Year",
        Key::SortAdded => "Recently Added",
        Key::SortUpdated => "Recently Updated",
        Key::ReverseOrder => "_Reverse Order",
        Key::FilterEverything => "Everything",
        Key::CouldNotLoadPage => "Could not load this page",
        Key::NothingHereYet => "Nothing here yet",
        Key::PlayPage => "Play",
        Key::PinPlaylists => "Pin Playlists",
        Key::PinAPlaylist => "Pin a playlist",
        Key::PinAll => "Pin All",
        Key::UnpinAll => "Unpin All",
        Key::AddToSidebar => "_Add to the Sidebar",
        Key::RemoveFromSidebar => "_Remove from the Sidebar",
        Key::Unavailable => "Unavailable",
        Key::NoPlaylistsYet => "Your library has no playlists yet, or it has not finished loading.",
        Key::ShortcutsPlayback => "Playback",
        Key::ShortcutsGeneral => "General",
        Key::ShortcutPlayPause => "Play or pause",
        Key::ShortcutNext => "Next track",
        Key::ShortcutPrevious => "Previous track",
        Key::ShortcutVolumeUp => "Volume up",
        Key::ShortcutVolumeDown => "Volume down",
        Key::ShortcutSearch => "Search",
        Key::ShortcutCloseWindow => "Close the window",
        Key::ShortcutToggleSidebar => "Toggle the sidebar",
        Key::ShortcutToggleQueue => "Toggle the queue",
        Key::ShortcutPreferences => "Preferences",
        Key::ShortcutShortcuts => "Keyboard shortcuts",
        Key::ShortcutQuit => "Quit",
        Key::EarlierOne => "1 earlier",
        Key::HideEarlier => "Hide the tracks before this one",
        Key::ShowEarlier => "Show the tracks before this one",
        Key::TracksOne => "1 track",
        Key::Album => "album",
        Key::Artist => "artist",
        Key::Playlist => "playlist",
        Key::Song => "song",
        Key::SongsLower => "songs",
        Key::EmptyAlbum => "This album has no songs.",
        Key::EmptyArtist => "This artist has no albums.",
        Key::EmptyPlaylist => "This playlist has no songs.",
        Key::AboutComments => "A native GNOME music player for Linux.\n\nApple Music plays through Apple's MusicKit player using Google's Widevine CDM, in a hidden helper process. Files on this computer play natively. Spotify (Beta) plays through librespot when you have Premium; YouTube Music (Beta) prefers InnerTube audio; Tidal (Alpha) still uses yt-dlp. Each catalogue keeps a cookie sign-in for library and search.\n\nFork of Slipmat by Miguel Rincon.",
        Key::RefreshingLibrary => "Refreshing library…",
        Key::ToastAddLibrary => "Adding to your library…",
        Key::ToastFavourite => "Favouriting…",
        Key::ToastRemoveLibrary => "Removing from your library…",
        Key::ToastRemoveFavourite => "Removing favourite…",
        Key::ToastGoneFromQueue => "That track is no longer in the queue",
        Key::ToastUnstreamable => "Nothing here can be streamed",
        Key::LikedSongs => "Liked Songs",
        Key::YourTopTracks => "Your Top Tracks",
        Key::SpotifyNotSignedIn => "Spotify is not signed in. Open Sign In from the menu and log in again.",
        Key::SpotifyTokenRefused => "Spotify would not issue a token. Sign in again from the menu if this keeps happening.",
        Key::CatalogLoginFailed => "Could not keep the session. Stay on the signed-in page, then press Done.",
        Key::CatalogLibraryFailed => "Could not load this catalog's library. Try Refresh, or sign in again if this source needs it.",
        Key::SpotifyRateLimited => "Spotify asked us to wait. Try Reload in a minute.",
        Key::SpotifyTimeout => "Spotify did not answer in time. Try again.",
        Key::SpotifyCatalogueChanged => "Spotify's catalogue API changed. Sign in again, then Reload.",
        Key::NewPlaylist => "New _playlist",
        Key::NewPlaylistTitle => "New playlist",
        Key::NewPlaylistPlaceholder => "Playlist name",
        Key::Create => "Create",
        Key::AddToPlaylist => "Add to _playlist",
        Key::ToastCreatePlaylist => "Creating playlist…",
        Key::ToastAddToPlaylist => "Adding to playlist…",
        Key::WriteWrongSource => "That item belongs to another music source.",
        Key::Lyrics => "Lyrics",
        Key::LyricsLoading => "Loading lyrics…",
        Key::LyricsMissing => "No lyrics for this song",
    }
}

/// A sentence in Spanish.
pub fn es(key: Key) -> (r: &'static str)
    ensures
        r@ == spanish(key),
{
    match key {
        Key::AppName => "Vinilo",
        Key::Search => "Buscar",
        Key::Songs => "Canciones",
        Key::Albums => "Álbumes",
        Key::Artists => "Artistas",
        Key::Playlists => "Listas",
        Key::Discover => "Escuchar ahora",
        Key::RecentlyPlayed => "Reproducido recientemente",
        Key::MadeForYou => "Hecho para ti",
        Key::RecommendedSongs => "Canciones para ti",
        Key::RecentlyAdded => "Añadido recientemente",
        Key::Charts => "Éxitos",
        Key::LoadingDiscover => "Cargando recomendaciones",
        Key::DiscoverEmpty => "Todavía no hay nada que descubrir",
        Key::DiscoverEmptyBody => "Reproduce algo y Vinilo lo mostrará aquí, junto con listas y canciones que recomienda esta fuente.",
        Key::Library => "Biblioteca",
        Key::All => "Todas",
        Key::Queue => "Cola",
        Key::AppleMusic => "Apple Music",
        Key::MainMenu => "Menú principal",
        Key::ToggleSidebar => "Mostrar u ocultar la barra lateral",
        Key::ShowSidebar => "Mostrar la barra lateral",
        Key::HideSidebar => "Ocultar la barra lateral",
        Key::Reload => "Recargar",
        Key::Sort => "Ordenar",
        Key::SearchFilter => "Qué buscar",
        Key::Play => "Reproducir",
        Key::Pause => "Pausar",
        Key::Shuffle => "Aleatorio",
        Key::Repeat => "Repetir",
        Key::RepeatOff => "Repetir: no",
        Key::RepeatAll => "Repetir: todo",
        Key::RepeatOne => "Repetir: esta canción",
        Key::Previous => "Anterior",
        Key::Next => "Siguiente",
        Key::Volume => "Volumen",
        Key::ClearQueue => "Vaciar la cola",
        Key::NothingQueued => "Nada en la cola",
        Key::NothingQueuedBody => "Reproduce algo y aparecerá aquí.",
        Key::RemoveFromQueue => "Quitar de la cola",
        Key::TrackOptions => "Opciones de la canción",
        Key::PlayNext => "Reproducir _siguiente",
        Key::AddToQueue => "Añadir a la _cola",
        Key::AddToLibrary => "Añadir a la _biblioteca",
        Key::RemoveFromLibrary => "_Quitar de la biblioteca",
        Key::Favourite => "_Favorito",
        Key::RemoveFavourite => "Quitar _favorito",
        Key::GoToAlbum => "Ir al _álbum",
        Key::GoToArtist => "Ir al a_rtista",
        Key::Preferences => "_Preferencias",
        Key::KeyboardShortcuts => "Atajos de _teclado",
        Key::About => "_Acerca de Vinilo",
        Key::SignOut => "_Cerrar sesión",
        Key::Quit => "_Salir",
        Key::Appearance => "Apariencia",
        Key::Theme => "Tema",
        Key::ThemeSystem => "Seguir el sistema",
        Key::ThemeLight => "Claro",
        Key::ThemeDark => "Oscuro",
        Key::AccentColour => "Color de acento",
        Key::AccentAppleRed => "Rojo de Apple Music",
        Key::AccentSystem => "Seguir el sistema",
        Key::AccentBlue => "Azul",
        Key::AccentPurple => "Morado",
        Key::AccentGreen => "Verde",
        Key::AccentOrange => "Naranja",
        Key::AlbumArtBackdrop => "Color de la portada",
        Key::AlbumArtBackdropSub => "Un tinte con el color principal del disco, detrás del reproductor",
        Key::SourceTint => "Teñir según la fuente",
        Key::SourceTintSub => "Rojo de Apple Music, verde de Spotify, rojo de YouTube, cian de Tidal",
        Key::Language => "Idioma",
        Key::LanguageSub => "Idioma de la interfaz. Se aplica al momento.",
        Key::MusicSource => "Fuente de música",
        Key::MusicSourceSub => "De dónde busca y reproduce Vinilo. Cambiar de fuente reinicia el reproductor.",
        Key::ProviderTitle => "¿Dónde está tu música?",
        Key::ProviderBody => "Elige un catálogo. Apple Music es estable; Spotify y YouTube Music son Beta: funcionan, el sidecar de Apple sigue siendo pesado. Tidal es Alpha. Los archivos de este equipo siempre suenan.",
        Key::ProviderApple => "Apple Music",
        Key::ProviderAppleSub => "Tu biblioteca y el catálogo. Funciona bien; el reproductor oculto sigue siendo Chromium.",
        Key::ProviderLocal => "Este equipo",
        Key::ProviderLocalSub => "Archivos que abras y carpetas que sueltes en Vinilo",
        Key::ProviderSpotify => "Spotify (Beta)",
        Key::ProviderSpotifySub => "Biblioteca y búsqueda tras iniciar sesión. El audio nativo pide Spotify Premium.",
        Key::ProviderYoutube => "YouTube Music (Beta)",
        Key::ProviderYoutubeSub => "Biblioteca y búsqueda tras iniciar sesión. El audio sale de YouTube Music.",
        Key::ProviderTidal => "Tidal (Alpha)",
        Key::ProviderTidalSub => "Busca tras iniciar sesión. La reproducción aún pasa por yt-dlp.",
        Key::ProviderNote => "Puedes cambiarlo más tarde en Preferencias. Las fuentes Beta funcionan; Alpha se puede usar, pero no está lista. Spotify Premium suena con librespot; sin Premium, yt-dlp es el respaldo.",
        Key::ProviderRestart => "No se puede cambiar de fuente con otra ventana de Vinilo abierta.",
        Key::CatalogSetupBody => "Inicia sesión para que Vinilo use tu sesión con este catálogo. Se abre una ventana, igual que con Apple Music.",
        Key::CatalogSetupYtOk => "Cuando inicies sesión, busca una canción y pulsa. YouTube Music prefiere audio InnerTube; Tidal aún necesita yt-dlp.",
        Key::CatalogSetupYtMissing => "yt-dlp no está en el PATH. YouTube Music sigue sonando por InnerTube cuando puede. Tidal necesita yt-dlp (sudo pacman -S yt-dlp ffmpeg).",
        Key::CatalogSetupContinue => "Iniciar sesión",
        Key::CatalogSetupBack => "Elegir otra fuente",
        Key::CatalogSignInNote => "La página de inicio de sesión se abre en una ventana aparte, incluida la verificación en dos pasos si tu cuenta la usa. Se cierra cuando ya estás dentro.",
        Key::CatalogLoginDone => "Listo",
        Key::CatalogOpenBrowser => "Abrir en el navegador",
        Key::CatalogSignOutTitle => "¿Cerrar sesión de este catálogo?",
        Key::CatalogSignOutBody => "Vinilo olvidará esta sesión. Volver a entrar abre otra vez la ventana de inicio de sesión.",
        Key::SearchSpotifyBody => "Busca un tema de Spotify y pulsa para reproducirlo.",
        Key::SearchYoutubeBody => "Busca un tema de YouTube Music y pulsa para reproducirlo.",
        Key::SearchTidalBody => "Busca un tema de Tidal y pulsa para reproducirlo.",
        Key::EmptyLibraryBodyLocal => "Abre un archivo de audio con Vinilo, suelta una carpeta en la ventana o pon Vinilo como reproductor de música predeterminado en Ajustes de GNOME.",
        Key::EmptyLibraryBodyCatalog => "Aquí saldrán las canciones que te gustan, los álbumes y las listas de esta cuenta. Si sigue vacío, vuelve a iniciar sesión desde el menú.",
        Key::SearchSpotify => "Buscar en Spotify",
        Key::SearchYoutube => "Buscar en YouTube Music",
        Key::SearchTidal => "Buscar en Tidal",
        Key::Notifications => "Notificaciones",
        Key::NotifyTrackChange => "Avisar al cambiar de canción",
        Key::NotifyTrackChangeSub => "Cuando empieza una canción nueva y Vinilo no está en primer plano",
        Key::WelcomeTitle => "Bienvenido a Vinilo",
        Key::WelcomeBody => "Vinilo reproduce tu biblioteca de Apple Music de forma nativa en GNOME. Necesitas una suscripción activa a Apple Music.",
        Key::SignIn => "Iniciar sesión en Apple Music",
        Key::SignInNote => "La página de inicio de sesión de Apple se abre en una ventana aparte, incluida la verificación en dos pasos si tu cuenta la usa. Se cierra del todo cuando ya estás dentro.",
        Key::SignOutTitle => "¿Cerrar sesión de Apple Music?",
        Key::SignOutBody => "Vinilo olvidará esta sesión. Volver a entrar abre de nuevo la ventana de inicio de sesión de Apple.",
        Key::Cancel => "Cancelar",
        Key::StartingEngine => "Arrancando el motor de reproducción",
        Key::Connecting => "Conectando con Apple Music",
        Key::PlaybackUnavailable => "Reproducción no disponible",
        Key::Ready => "Listo",
        Key::NothingPlaying => "Nada en reproducción",
        Key::SearchAppleMusic => "Buscar en Apple Music",
        Key::SearchAppleMusicBody => "Encuentra canciones de todo el catálogo, no solo de tu biblioteca.",
        Key::EmptyLibrary => "Todavía no hay nada aquí",
        Key::EmptyLibraryBody => "Vinilo actualiza tu biblioteca después de iniciar sesión. Usa Recargar para intentarlo de nuevo. También puedes abrir un archivo de este equipo: Vinilo los reproduce también.",
        Key::NoMatches => "Sin coincidencias",
        Key::LoadingLibrary => "Cargando tu biblioteca",
        Key::LoadingAlbums => "Cargando tus álbumes",
        Key::LoadingArtists => "Cargando tus artistas",
        Key::LoadingPlaylists => "Cargando tus listas",
        Key::SearchingCatalog => "Buscando en Apple Music",
        Key::SearchLibrary => "Buscar en tu biblioteca",
        Key::SearchAlbums => "Buscar álbumes",
        Key::SearchArtists => "Buscar artistas",
        Key::SearchPlaylists => "Buscar listas",
        Key::SortTitle => "Título",
        Key::SortArtist => "Artista",
        Key::SortAlbum => "Álbum",
        Key::SortYear => "Año",
        Key::SortAdded => "Añadidos recientemente",
        Key::SortUpdated => "Actualizados recientemente",
        Key::ReverseOrder => "Orden _inverso",
        Key::FilterEverything => "Todo",
        Key::CouldNotLoadPage => "No se ha podido cargar esta página",
        Key::NothingHereYet => "Todavía no hay nada aquí",
        Key::PlayPage => "Reproducir",
        Key::PinPlaylists => "Fijar listas",
        Key::PinAPlaylist => "Fijar una lista",
        Key::PinAll => "Fijar todas",
        Key::UnpinAll => "Quitar todas",
        Key::AddToSidebar => "_Añadir a la barra lateral",
        Key::RemoveFromSidebar => "_Quitar de la barra lateral",
        Key::Unavailable => "No disponible",
        Key::NoPlaylistsYet => "Tu biblioteca aún no tiene listas, o todavía no ha terminado de cargar.",
        Key::ShortcutsPlayback => "Reproducción",
        Key::ShortcutsGeneral => "General",
        Key::ShortcutPlayPause => "Reproducir o pausar",
        Key::ShortcutNext => "Canción siguiente",
        Key::ShortcutPrevious => "Canción anterior",
        Key::ShortcutVolumeUp => "Subir el volumen",
        Key::ShortcutVolumeDown => "Bajar el volumen",
        Key::ShortcutSearch => "Buscar",
        Key::ShortcutCloseWindow => "Cerrar la ventana",
        Key::ShortcutToggleSidebar => "Mostrar u ocultar la barra lateral",
        Key::ShortcutToggleQueue => "Mostrar u ocultar la cola",
        Key::ShortcutPreferences => "Preferencias",
        Key::ShortcutShortcuts => "Atajos de teclado",
        Key::ShortcutQuit => "Salir",
        Key::EarlierOne => "1 anterior",
        Key::HideEarlier => "Ocultar las canciones anteriores",
        Key::ShowEarlier => "Mostrar las canciones anteriores",
        Key::TracksOne => "1 canción",
        Key::Album => "álbum",
        Key::Artist => "artista",
        Key::Playlist => "lista",
        Key::Song => "canción",
        Key::SongsLower => "canciones",
        Key::EmptyAlbum => "Este álbum no tiene canciones.",
        Key::EmptyArtist => "Este artista no tiene álbumes.",
        Key::EmptyPlaylist => "Esta lista no tiene canciones.",
        Key::AboutComments => "Un reproductor nativo de GNOME para Linux.\n\nApple Music pasa por el reproductor MusicKit de Apple con el CDM Widevine de Google, en un proceso auxiliar oculto. Los archivos de este equipo se reproducen de forma nativa. Spotify (Beta) suena con librespot si tienes Premium; YouTube Music (Beta) prefiere audio InnerTube; Tidal (Alpha) aún usa yt-dlp. Cada catálogo guarda un inicio de sesión con cookies para biblioteca y búsqueda.\n\nFork de Slipmat, de Miguel Rincon.",
        Key::RefreshingLibrary => "Actualizando la biblioteca…",
        Key::ToastAddLibrary => "Añadiendo a tu biblioteca…",
        Key::ToastFavourite => "Marcando como favorito…",
        Key::ToastRemoveLibrary => "Quitando de tu biblioteca…",
        Key::ToastRemoveFavourite => "Quitando de favoritos…",
        Key::ToastGoneFromQueue => "Esa canción ya no está en la cola",
        Key::ToastUnstreamable => "Aquí no hay nada que se pueda reproducir",
        Key::LikedSongs => "Canciones que te gustan",
        Key::YourTopTracks => "Tus temas más reproducidos",
        Key::SpotifyNotSignedIn => "Spotify no tiene sesión. Abre Iniciar sesión en el menú y entra otra vez.",
        Key::SpotifyTokenRefused => "Spotify no ha emitido un token. Vuelve a iniciar sesión desde el menú si sigue pasando.",
        Key::CatalogLoginFailed => "No se ha podido guardar la sesión. Quédate en la página ya iniciada y pulsa Listo.",
        Key::CatalogLibraryFailed => "No se pudo cargar la biblioteca de este catálogo. Prueba Actualizar, o vuelve a iniciar sesión si esta fuente lo pide.",
        Key::SpotifyRateLimited => "Spotify pide que esperemos. Prueba Recargar dentro de un minuto.",
        Key::SpotifyTimeout => "Spotify no ha contestado a tiempo. Prueba otra vez.",
        Key::SpotifyCatalogueChanged => "La API del catálogo de Spotify ha cambiado. Vuelve a iniciar sesión y pulsa Recargar.",
        Key::NewPlaylist => "Nueva _lista",
        Key::NewPlaylistTitle => "Nueva lista",
        Key::NewPlaylistPlaceholder => "Nombre de la lista",
        Key::Create => "Crear",
        Key::AddToPlaylist => "Añadir a una _lista",
        Key::ToastCreatePlaylist => "Creando la lista…",
        Key::ToastAddToPlaylist => "Añadiendo a la lista…",
        Key::WriteWrongSource => "Esa canción pertenece a otra fuente de música.",
        Key::Lyrics => "Letra",
        Key::LyricsLoading => "Cargando la letra…",
        Key::LyricsMissing => "No hay letra para esta canción",
    }
}

/// `en` or `es`, by language.
pub open spec fn pick(language: Language, en: Seq<char>, es: Seq<char>) -> Seq<char> {
    match language {
        Language::English => en,
        Language::Spanish => es,
    }
}

/// `en` or `es`, by language.
fn choose_text(language: Language, en: &'static str, es: &'static str) -> (r: &'static str)
    ensures
        r@ == pick(language, en@, es@),
{
    match language {
        Language::English => en,
        Language::Spanish => es,
    }
}

/// `before`, `middle` and `after`, one behind the other.
fn three(before: &str, middle: &str, after: &str) -> (r: String)
    ensures
        r@ == before@ + middle@ + after@,
{
    let mut out = before.to_owned();
    out.append(middle);
    out.append(after);
    out
}

/// A number and what there are that many of.
fn counted(n: usize, what: &str) -> (r: String)
    ensures
        r@ == text::decimal(n as nat) + what@,
{
    let mut out = text::number(n as u64);
    out.append(what);
    out
}

/// How many songs came earlier.
pub open spec fn spec_earlier(language: Language, n: nat) -> Seq<char> {
    if n == 1 {
        sentence(language, Key::EarlierOne)
    } else {
        text::decimal(n) + pick(language, " earlier"@, " anteriores"@)
    }
}

pub fn earlier(language: Language, n: usize) -> (r: String)
    ensures
        r@ == spec_earlier(language, n as nat),
{
    if n == 1 {
        t(language, Key::EarlierOne).to_owned()
    } else {
        earlier_n(language, n)
    }
}

/// How many tracks there are.
pub open spec fn spec_tracks(language: Language, n: nat) -> Seq<char> {
    if n == 1 {
        sentence(language, Key::TracksOne)
    } else {
        text::decimal(n) + pick(language, " tracks"@, " canciones"@)
    }
}

pub fn tracks(language: Language, n: usize) -> (r: String)
    ensures
        r@ == spec_tracks(language, n as nat),
{
    if n == 1 {
        t(language, Key::TracksOne).to_owned()
    } else {
        tracks_n(language, n)
    }
}

pub fn songs_count(language: Language, n: usize) -> (r: String)
    ensures
        r@ == if n == 1 {
            "1 "@ + sentence(language, Key::Song)
        } else {
            text::decimal(n as nat) + (" "@ + sentence(language, Key::SongsLower))
        },
{
    if n == 1 {
        let mut out = "1 ".to_owned();
        out.append(t(language, Key::Song));
        out
    } else {
        let mut what = " ".to_owned();
        what.append(t(language, Key::SongsLower));
        counted(n, what.as_str())
    }
}

pub fn earlier_n(language: Language, n: usize) -> (r: String)
    ensures
        r@ == text::decimal(n as nat) + pick(language, " earlier"@, " anteriores"@),
{
    counted(n, choose_text(language, " earlier", " anteriores"))
}

pub fn tracks_n(language: Language, n: usize) -> (r: String)
    ensures
        r@ == text::decimal(n as nat) + pick(language, " tracks"@, " canciones"@),
{
    counted(n, choose_text(language, " tracks", " canciones"))
}

pub fn catalog_search(language: Language, provider: Provider) -> (r: &'static str)
    ensures
        r@ == sentence(
            language,
            match provider {
                Provider::Spotify => Key::SearchSpotify,
                Provider::YoutubeMusic => Key::SearchYoutube,
                Provider::Tidal => Key::SearchTidal,
                Provider::AppleMusic | Provider::Local => Key::SearchAppleMusic,
            },
        ),
{
    t(
        language,
        match provider {
            Provider::Spotify => Key::SearchSpotify,
            Provider::YoutubeMusic => Key::SearchYoutube,
            Provider::Tidal => Key::SearchTidal,
            Provider::AppleMusic | Provider::Local => Key::SearchAppleMusic,
        },
    )
}

pub fn catalog_search_body(language: Language, provider: Provider) -> (r: &'static str)
    ensures
        r@ == sentence(
            language,
            match provider {
                Provider::Spotify => Key::SearchSpotifyBody,
                Provider::YoutubeMusic => Key::SearchYoutubeBody,
                Provider::Tidal => Key::SearchTidalBody,
                Provider::AppleMusic | Provider::Local => Key::SearchAppleMusicBody,
            },
        ),
{
    t(
        language,
        match provider {
            Provider::Spotify => Key::SearchSpotifyBody,
            Provider::YoutubeMusic => Key::SearchYoutubeBody,
            Provider::Tidal => Key::SearchTidalBody,
            Provider::AppleMusic | Provider::Local => Key::SearchAppleMusicBody,
        },
    )
}

/// What a source is called.
pub open spec fn heading(language: Language, provider: Provider) -> Seq<char> {
    sentence(
        language,
        match provider {
            Provider::Spotify => Key::ProviderSpotify,
            Provider::YoutubeMusic => Key::ProviderYoutube,
            Provider::Tidal => Key::ProviderTidal,
            Provider::Local => Key::ProviderLocal,
            Provider::AppleMusic => Key::ProviderApple,
        },
    )
}

pub fn catalog_heading(language: Language, provider: Provider) -> (r: &'static str)
    ensures
        r@ == heading(language, provider),
{
    t(
        language,
        match provider {
            Provider::Spotify => Key::ProviderSpotify,
            Provider::YoutubeMusic => Key::ProviderYoutube,
            Provider::Tidal => Key::ProviderTidal,
            Provider::Local => Key::ProviderLocal,
            Provider::AppleMusic => Key::ProviderApple,
        },
    )
}

pub fn catalog_sign_in(language: Language, provider: Provider) -> (r: String)
    ensures
        r@ == pick(language, "Sign In to "@, "Iniciar sesión en "@) + heading(language, provider),
{
    let mut out = choose_text(language, "Sign In to ", "Iniciar sesión en ").to_owned();
    out.append(catalog_heading(language, provider));
    out
}

pub fn searching_catalog(language: Language, provider: Provider) -> (r: String)
    ensures
        r@ == pick(language, "Searching "@, "Buscando en "@) + heading(language, provider),
{
    let mut out = choose_text(language, "Searching ", "Buscando en ").to_owned();
    out.append(catalog_heading(language, provider));
    out
}

pub fn no_library_songs(language: Language, query: &str) -> (r: String)
    ensures
        r@ == pick(
            language,
            "Nothing in your library matches “"@,
            "Nada en tu biblioteca coincide con «"@,
        ) + query@ + pick(
            language,
            "”. Try searching Apple Music."@,
            "». Prueba a buscar en Apple Music."@,
        ),
{
    three(
        choose_text(
            language,
            "Nothing in your library matches “",
            "Nada en tu biblioteca coincide con «",
        ),
        query,
        choose_text(
            language,
            "”. Try searching Apple Music.",
            "». Prueba a buscar en Apple Music.",
        ),
    )
}

pub fn no_library_albums(language: Language, query: &str) -> (r: String)
    ensures
        r@ == pick(
            language,
            "No album in your library matches “"@,
            "Ningún álbum de tu biblioteca coincide con «"@,
        ) + query@ + pick(language, "”."@, "»."@),
{
    three(
        choose_text(
            language,
            "No album in your library matches “",
            "Ningún álbum de tu biblioteca coincide con «",
        ),
        query,
        choose_text(language, "”.", "»."),
    )
}

pub fn no_library_artists(language: Language, query: &str) -> (r: String)
    ensures
        r@ == pick(
            language,
            "No artist in your library matches “"@,
            "Ningún artista de tu biblioteca coincide con «"@,
        ) + query@ + pick(language, "”."@, "»."@),
{
    three(
        choose_text(
            language,
            "No artist in your library matches “",
            "Ningún artista de tu biblioteca coincide con «",
        ),
        query,
        choose_text(language, "”.", "»."),
    )
}

pub fn no_library_playlists(language: Language, query: &str) -> (r: String)
    ensures
        r@ == pick(
            language,
            "No playlist in your library matches “"@,
            "Ninguna lista de tu biblioteca coincide con «"@,
        ) + query@ + pick(language, "”."@, "»."@),
{
    three(
        choose_text(
            language,
            "No playlist in your library matches “",
            "Ninguna lista de tu biblioteca coincide con «",
        ),
        query,
        choose_text(language, "”.", "»."),
    )
}

/// That a source holds nothing that matches.
pub open spec fn spec_no_catalog(
    language: Language,
    query: Seq<char>,
    provider: Provider,
) -> Seq<char> {
    heading(language, provider) + pick(
        language,
        " has nothing matching “"@,
        " no tiene nada que coincida con «"@,
    ) + query + pick(language, "”."@, "»."@)
}

/// That the chosen source holds nothing that matches; Apple Music where none
/// is chosen.
pub fn no_catalog(language: Language, query: &str, chosen: Option<Provider>) -> (r: String)
    ensures
        r@ == spec_no_catalog(
            language,
            query@,
            match chosen {
                Some(p) => p,
                None => Provider::AppleMusic,
            },
        ),
{
    no_catalog_for(
        language,
        query,
        match chosen {
            Some(p) => p,
            None => Provider::AppleMusic,
        },
    )
}

pub fn no_catalog_for(language: Language, query: &str, provider: Provider) -> (r: String)
    ensures
        r@ == spec_no_catalog(language, query@, provider),
{
    let mut out = catalog_heading(language, provider).to_owned();
    out.append(
        choose_text(language, " has nothing matching “", " no tiene nada que coincida con «"),
    );
    out.append(query);
    out.append(choose_text(language, "”.", "»."));
    out
}

pub fn albums_count(language: Language, n: usize) -> (r: String)
    ensures
        r@ == if n == 1 {
            pick(language, "1 album"@, "1 álbum"@)
        } else {
            text::decimal(n as nat) + pick(language, " albums"@, " álbumes"@)
        },
{
    if n == 1 {
        choose_text(language, "1 album", "1 álbum").to_owned()
    } else {
        counted(n, choose_text(language, " albums", " álbumes"))
    }
}

pub fn empty_album(language: Language) -> (r: &'static str)
    ensures
        r@ == sentence(language, Key::EmptyAlbum),
{
    t(language, Key::EmptyAlbum)
}

pub fn empty_playlist(language: Language) -> (r: &'static str)
    ensures
        r@ == sentence(language, Key::EmptyPlaylist),
{
    t(language, Key::EmptyPlaylist)
}

pub fn empty_artist(language: Language) -> (r: &'static str)
    ensures
        r@ == sentence(language, Key::EmptyArtist),
{
    t(language, Key::EmptyArtist)
}

pub fn sign_out_button(language: Language) -> (r: &'static str)
    ensures
        r@ == pick(language, "Sign Out"@, "Cerrar sesión"@),
{
    choose_text(language, "Sign Out", "Cerrar sesión")
}

pub fn quit_button(language: Language) -> (r: &'static str)
    ensures
        r@ == pick(language, "Quit"@, "Salir"@),
{
    choose_text(language, "Quit", "Salir")
}

/// A count is said with its number, but for one, which has a sentence of its
/// own; and in the language that is asked for.
pub proof fn a_count_is_said_with_its_number(language: Language, n: nat)
    requires
        n != 1,
    ensures
        text::decimal(n).is_prefix_of(spec_tracks(language, n)),
        text::decimal(n).is_prefix_of(spec_earlier(language, n)),
        spec_tracks(Language::English, n) == text::decimal(n) + " tracks"@,
        spec_tracks(Language::Spanish, n) == text::decimal(n) + " canciones"@,
        spec_earlier(Language::English, n) == text::decimal(n) + " earlier"@,
        spec_earlier(Language::Spanish, n) == text::decimal(n) + " anteriores"@,
        spec_tracks(language, 1) == sentence(language, Key::TracksOne),
        spec_earlier(language, 1) == sentence(language, Key::EarlierOne),
{
    let d = text::decimal(n);
    let a = pick(language, " tracks"@, " canciones"@);
    let b = pick(language, " earlier"@, " anteriores"@);
    assert((d + a).take(d.len() as int) =~= d);
    assert((d + b).take(d.len() as int) =~= d);
}

} // verus!
