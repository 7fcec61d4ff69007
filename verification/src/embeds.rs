//! External embeds: YouTube videos, Spotify items and generic links, and the
//! detection and parsing of their URLs.
use vstd::prelude::*;
use crate::link_preview::LinkPreview;
use crate::text::{
    after_first, after_first_exec, all_digits, chars_of, concat2, contains, decimal, decimal_string, digit_char, digits_value, find, is_digit,
    find_spec, lemma_first_match_unique, matches_at, occurs, owned, parse_u32, parse_u32_spec, prefix_until, prefix_until_exec,
    lemma_split_char_nonempty, skip_exec, split_char, split_char_exec, starts_with, starts_with_exec, str_eq, string_of,
    take_exec, trim_end_char, trim_end_char_exec, views,
};

verus! {

/// Errors that can occur during embed operations.
#[derive(Debug)]
pub enum EmbedError {
    /// Invalid URL
    InvalidUrl(String),
    /// Unsupported embed type
    UnsupportedType(String),
    /// Missing embed ID
    MissingId,
    /// Invalid embed configuration
    InvalidConfig(String),
}

impl EmbedError {
    /// The error message.
    pub fn to_string(&self) -> (r: String)
        ensures
            r@ == (match self {
                EmbedError::InvalidUrl(u) => "Invalid URL: "@ + u@,
                EmbedError::UnsupportedType(u) => "Unsupported embed type for URL: "@ + u@,
                EmbedError::MissingId => "Missing embed ID from URL"@,
                EmbedError::InvalidConfig(m) => "Invalid embed configuration: "@ + m@,
            }),
    {
        match self {
            EmbedError::InvalidUrl(u) => concat2("Invalid URL: ", u.as_str()),
            EmbedError::UnsupportedType(u) => concat2("Unsupported embed type for URL: ", u.as_str()),
            EmbedError::MissingId => owned("Missing embed ID from URL"),
            EmbedError::InvalidConfig(m) => concat2("Invalid embed configuration: ", m.as_str()),
        }
    }
}

/// Type of external embed.
#[derive(Debug, Clone, Copy, PartialEq, Eq)]
pub enum EmbedType {
    /// YouTube video
    YouTube,
    /// Spotify track, album, or playlist
    Spotify,
    /// Generic link preview
    Link,
}

impl EmbedType {
    /// The embed type's name.
    pub fn as_str(&self) -> (r: &'static str)
        ensures
            r@ == (match self {
                EmbedType::YouTube => "youtube"@,
                EmbedType::Spotify => "spotify"@,
                EmbedType::Link => "link"@,
            }),
    {
        match self {
            EmbedType::YouTube => "youtube",
            EmbedType::Spotify => "spotify",
            EmbedType::Link => "link",
        }
    }
}

/// YouTube video embed.
#[derive(Debug, Clone, PartialEq, Eq)]
pub struct YouTubeEmbed {
    /// Video ID
    pub video_id: String,
    /// Video title (if available)
    pub title: Option<String>,
    /// Channel name (if available)
    pub channel: Option<String>,
    /// Thumbnail URL
    pub thumbnail: Option<String>,
    /// Start time in seconds
    pub start_time: Option<u32>,
}

/// YouTube thumbnail quality.
#[derive(Debug, Clone, Copy, PartialEq, Eq)]
pub enum YouTubeThumbnailQuality {
    /// Default quality (120x90)
    Default,
    /// Medium quality (320x180)
    Medium,
    /// High quality (480x360)
    High,
    /// Standard definition (640x480)
    StandardDef,
    /// Max resolution (1280x720)
    MaxRes,
}

/// The thumbnail file name for a quality.
pub open spec fn thumbnail_file(q: YouTubeThumbnailQuality) -> Seq<char> {
    match q {
        YouTubeThumbnailQuality::Default => "default.jpg"@,
        YouTubeThumbnailQuality::Medium => "mqdefault.jpg"@,
        YouTubeThumbnailQuality::High => "hqdefault.jpg"@,
        YouTubeThumbnailQuality::StandardDef => "sddefault.jpg"@,
        YouTubeThumbnailQuality::MaxRes => "maxresdefault.jpg"@,
    }
}

impl YouTubeThumbnailQuality {
    /// The file name of this quality's thumbnail.
    pub fn filename(&self) -> (r: &'static str)
        ensures
            r@ == thumbnail_file(*self),
    {
        match self {
            YouTubeThumbnailQuality::Default => "default.jpg",
            YouTubeThumbnailQuality::Medium => "mqdefault.jpg",
            YouTubeThumbnailQuality::High => "hqdefault.jpg",
            YouTubeThumbnailQuality::StandardDef => "sddefault.jpg",
            YouTubeThumbnailQuality::MaxRes => "maxresdefault.jpg",
        }
    }
}

impl YouTubeEmbed {
    /// An embed of the video with no metadata and no start time.
    pub fn new(video_id: &str) -> (r: Self)
        ensures
            r.video_id@ == video_id@,
            r.title is None,
            r.channel is None,
            r.thumbnail is None,
            r.start_time is None,
    {
        YouTubeEmbed { video_id: owned(video_id), title: None, channel: None, thumbnail: None, start_time: None }
    }

    /// The embed URL, with `?start=` when there is a start time.
    pub fn embed_url(&self) -> (r: String)
        ensures
            r@ == "https://www.youtube.com/embed/"@ + self.video_id@ + match self.start_time {
                Some(t) => "?start="@ + decimal(t as nat),
                None => Seq::empty(),
            },
    {
        let mut url = concat2("https://www.youtube.com/embed/", self.video_id.as_str());
        if let Some(start) = self.start_time {
            let d = decimal_string(start as u64);
            url.append("?start=");
            url.append(d.as_str());
        } else {
            assert(url@ =~= url@ + Seq::<char>::empty());
        }
        url
    }

    /// The watch URL, with `&t=<seconds>s` when there is a start time.
    pub fn watch_url(&self) -> (r: String)
        ensures
            r@ == "https://www.youtube.com/watch?v="@ + self.video_id@ + match self.start_time {
                Some(t) => "&t="@ + decimal(t as nat) + "s"@,
                None => Seq::empty(),
            },
    {
        let mut url = concat2("https://www.youtube.com/watch?v=", self.video_id.as_str());
        if let Some(start) = self.start_time {
            let d = decimal_string(start as u64);
            url.append("&t=");
            url.append(d.as_str());
            url.append("s");
        } else {
            assert(url@ =~= url@ + Seq::<char>::empty());
        }
        url
    }

    /// The thumbnail URL for a quality.
    pub fn get_thumbnail(&self, quality: YouTubeThumbnailQuality) -> (r: String)
        ensures
            r@ == "https://img.youtube.com/vi/"@ + self.video_id@ + "/"@ + thumbnail_file(quality),
    {
        let mut url = concat2("https://img.youtube.com/vi/", self.video_id.as_str());
        url.append("/");
        url.append(quality.filename());
        url
    }
}

/// Spotify embed type.
#[derive(Debug, Clone, Copy, PartialEq, Eq)]
pub enum SpotifyEmbedType {
    /// Track
    Track,
    /// Album
    Album,
    /// Playlist
    Playlist,
    /// Artist
    Artist,
    /// Show (podcast)
    Show,
    /// Episode (podcast episode)
    Episode,
}

/// The URL path name of a Spotify item type.
pub open spec fn spotify_type_name(t: SpotifyEmbedType) -> Seq<char> {
    match t {
        SpotifyEmbedType::Track => "track"@,
        SpotifyEmbedType::Album => "album"@,
        SpotifyEmbedType::Playlist => "playlist"@,
        SpotifyEmbedType::Artist => "artist"@,
        SpotifyEmbedType::Show => "show"@,
        SpotifyEmbedType::Episode => "episode"@,
    }
}

/// The Spotify item type that a path name denotes.
pub open spec fn spotify_type_of(s: Seq<char>) -> Option<SpotifyEmbedType> {
    if s == "track"@ {
        Some(SpotifyEmbedType::Track)
    } else if s == "album"@ {
        Some(SpotifyEmbedType::Album)
    } else if s == "playlist"@ {
        Some(SpotifyEmbedType::Playlist)
    } else if s == "artist"@ {
        Some(SpotifyEmbedType::Artist)
    } else if s == "show"@ {
        Some(SpotifyEmbedType::Show)
    } else if s == "episode"@ {
        Some(SpotifyEmbedType::Episode)
    } else {
        None
    }
}

impl SpotifyEmbedType {
    /// The type's name in Spotify URLs.
    pub fn as_str(&self) -> (r: &'static str)
        ensures
            r@ == spotify_type_name(*self),
    {
        match self {
            SpotifyEmbedType::Track => "track",
            SpotifyEmbedType::Album => "album",
            SpotifyEmbedType::Playlist => "playlist",
            SpotifyEmbedType::Artist => "artist",
            SpotifyEmbedType::Show => "show",
            SpotifyEmbedType::Episode => "episode",
        }
    }
}

/// Spotify embed.
#[derive(Debug, Clone, PartialEq, Eq)]
pub struct SpotifyEmbed {
    /// Embed type (track, album, playlist, etc.)
    pub embed_type: SpotifyEmbedType,
    /// Spotify ID
    pub id: String,
    /// Title (if available)
    pub title: Option<String>,
    /// Artist or creator name (if available)
    pub artist: Option<String>,
}

impl SpotifyEmbed {
    /// An embed of the item with no metadata.
    pub fn new(embed_type: SpotifyEmbedType, id: &str) -> (r: Self)
        ensures
            r.embed_type == embed_type,
            r.id@ == id@,
            r.title is None,
            r.artist is None,
    {
        SpotifyEmbed { embed_type, id: owned(id), title: None, artist: None }
    }

    /// The embed URL.
    pub fn embed_url(&self) -> (r: String)
        ensures
            r@ == "https://open.spotify.com/embed/"@ + spotify_type_name(self.embed_type) + "/"@ + self.id@,
    {
        let mut url = concat2("https://open.spotify.com/embed/", self.embed_type.as_str());
        url.append("/");
        url.append(self.id.as_str());
        url
    }

    /// The open URL.
    pub fn open_url(&self) -> (r: String)
        ensures
            r@ == "https://open.spotify.com/"@ + spotify_type_name(self.embed_type) + "/"@ + self.id@,
    {
        let mut url = concat2("https://open.spotify.com/", self.embed_type.as_str());
        url.append("/");
        url.append(self.id.as_str());
        url
    }
}

/// Generic link embed.
#[derive(Debug, Clone, PartialEq, Eq)]
pub struct LinkEmbed {
    /// Link preview
    pub preview: LinkPreview,
}

impl LinkEmbed {
    /// A link embed of a preview.
    pub fn new(preview: LinkPreview) -> (r: Self)
        ensures
            r.preview == preview,
    {
        LinkEmbed { preview }
    }

    /// The preview's URL.
    pub fn url(&self) -> (r: &str)
        ensures
            r@ == self.preview.url@,
    {
        self.preview.url.as_str()
    }
}

/// External embed that can be any supported type.
#[derive(Debug, Clone, PartialEq, Eq)]
pub enum ExternalEmbed {
    /// YouTube video embed
    YouTube(YouTubeEmbed),
    /// Spotify embed
    Spotify(SpotifyEmbed),
    /// Generic link embed
    Link(LinkEmbed),
}

impl ExternalEmbed {
    /// The embed's type.
    pub fn embed_type(&self) -> (r: EmbedType)
        ensures
            r == (match self {
                ExternalEmbed::YouTube(_) => EmbedType::YouTube,
                ExternalEmbed::Spotify(_) => EmbedType::Spotify,
                ExternalEmbed::Link(_) => EmbedType::Link,
            }),
    {
        match self {
            ExternalEmbed::YouTube(_) => EmbedType::YouTube,
            ExternalEmbed::Spotify(_) => EmbedType::Spotify,
            ExternalEmbed::Link(_) => EmbedType::Link,
        }
    }

    /// Whether this is a YouTube embed.
    pub fn is_youtube(&self) -> (r: bool)
        ensures
            r == self is YouTube,
    {
        match self {
            ExternalEmbed::YouTube(_) => true,
            _ => false,
        }
    }

    /// Whether this is a Spotify embed.
    pub fn is_spotify(&self) -> (r: bool)
        ensures
            r == self is Spotify,
    {
        match self {
            ExternalEmbed::Spotify(_) => true,
            _ => false,
        }
    }

    /// Whether this is a link embed.
    pub fn is_link(&self) -> (r: bool)
        ensures
            r == self is Link,
    {
        match self {
            ExternalEmbed::Link(_) => true,
            _ => false,
        }
    }

    /// The YouTube embed, if this is one.
    pub fn as_youtube(&self) -> (r: Option<&YouTubeEmbed>)
        ensures
            match self {
                ExternalEmbed::YouTube(e) => r == Some(e),
                _ => r is None,
            },
    {
        match self {
            ExternalEmbed::YouTube(e) => Some(e),
            _ => None,
        }
    }

    /// The Spotify embed, if this is one.
    pub fn as_spotify(&self) -> (r: Option<&SpotifyEmbed>)
        ensures
            match self {
                ExternalEmbed::Spotify(e) => r == Some(e),
                _ => r is None,
            },
    {
        match self {
            ExternalEmbed::Spotify(e) => Some(e),
            _ => None,
        }
    }

    /// The link embed, if this is one.
    pub fn as_link(&self) -> (r: Option<&LinkEmbed>)
        ensures
            match self {
                ExternalEmbed::Link(e) => r == Some(e),
                _ => r is None,
            },
    {
        match self {
            ExternalEmbed::Link(e) => Some(e),
            _ => None,
        }
    }
}

} // verus!

verus! {

/// The URL names YouTube.
pub open spec fn is_youtube_spec(url: Seq<char>) -> bool {
    occurs(url, "youtube.com"@) || occurs(url, "youtu.be"@)
}

/// The URL names Spotify.
pub open spec fn is_spotify_spec(url: Seq<char>) -> bool {
    occurs(url, "spotify.com"@) || occurs(url, "spotify:"@)
}

/// The video ID of a YouTube URL: after `youtu.be/` (up to `?`, `&` or `#`), else the
/// `v=` parameter of a `youtube.com/watch` URL (up to `&` or `#`), else after
/// `youtube.com/embed/` (up to `?`, `&` or `#`).
pub open spec fn youtube_id_spec(url: Seq<char>) -> Option<Seq<char>> {
    if occurs(url, "youtu.be/"@) {
        Some(prefix_until(after_first(url, "youtu.be/"@), seq!['?', '&', '#']))
    } else if occurs(url, "youtube.com/watch"@) && occurs(url, "v="@) {
        Some(prefix_until(after_first(url, "v="@), seq!['&', '#']))
    } else if occurs(url, "youtube.com/embed/"@) {
        Some(prefix_until(after_first(url, "youtube.com/embed/"@), seq!['?', '&', '#']))
    } else {
        None
    }
}

/// The value of a time parameter: up to `&` or `#`, trailing `s`s removed, read as a `u32`.
pub open spec fn time_value(url: Seq<char>, param: Seq<char>) -> Option<u32> {
    parse_u32_spec(trim_end_char(prefix_until(after_first(url, param), seq!['&', '#']), 's'))
}

/// The start time of a YouTube URL: the first `t=` parameter, else the first `start=`.
pub open spec fn youtube_time_spec(url: Seq<char>) -> Option<u32> {
    if occurs(url, "t="@) {
        time_value(url, "t="@)
    } else if occurs(url, "start="@) {
        time_value(url, "start="@)
    } else {
        None
    }
}

/// The second piece of `s` split on `p`: from after the first `p` up to the next `p`.
pub open spec fn second_piece(s: Seq<char>, p: Seq<char>) -> Seq<char> {
    let rest = after_first(s, p);
    if occurs(rest, p) {
        rest.take(find_spec(rest, p))
    } else {
        rest
    }
}

/// How a Spotify URL or URI is read.
pub enum SpotifyParse {
    /// The item's type and ID
    Found(SpotifyEmbedType, Seq<char>),
    /// An item type name that is not supported
    Unsupported(Seq<char>),
    /// Not a Spotify item URL
    Invalid,
}

/// A `spotify:<type>:<id>` URI, else an `open.spotify.com/<type>/<id>` URL
/// (the ID ends at `?`); an unknown type name is reported as such.
pub open spec fn spotify_spec(url: Seq<char>) -> SpotifyParse {
    let parts = split_char(url, ':');
    if starts_with(url, "spotify:"@) && parts.len() >= 3 {
        match spotify_type_of(parts[1]) {
            Some(t) => SpotifyParse::Found(t, parts[2]),
            None => SpotifyParse::Unsupported(parts[1]),
        }
    } else if occurs(url, "open.spotify.com"@) {
        if !occurs(url, "open.spotify.com/"@) {
            SpotifyParse::Invalid
        } else {
            let segs = split_char(second_piece(url, "open.spotify.com/"@), '/');
            if segs.len() >= 2 {
                match spotify_type_of(segs[0]) {
                    Some(t) => SpotifyParse::Found(t, prefix_until(segs[1], seq!['?'])),
                    None => SpotifyParse::Unsupported(segs[0]),
                }
            } else {
                SpotifyParse::Invalid
            }
        }
    } else {
        SpotifyParse::Invalid
    }
}

/// Embed detector for identifying and parsing embeddable URLs.
pub struct EmbedDetector;

fn has(s: &[char], lit: &str) -> (r: bool)
    ensures
        r == occurs(s@, lit@),
{
    let p = chars_of(lit);
    contains(s, p.as_slice())
}

/// The item type that a Spotify path name denotes.
fn parse_spotify_type(type_str: &[char]) -> (r: Result<SpotifyEmbedType, EmbedError>)
    ensures
        match spotify_type_of(type_str@) {
            Some(t) => r == Ok::<SpotifyEmbedType, EmbedError>(t),
            None => r matches Err(EmbedError::UnsupportedType(m)) && m@ == type_str@,
        },
{
    let s = string_of(type_str);
    if str_eq(s.as_str(), "track") {
        Ok(SpotifyEmbedType::Track)
    } else if str_eq(s.as_str(), "album") {
        Ok(SpotifyEmbedType::Album)
    } else if str_eq(s.as_str(), "playlist") {
        Ok(SpotifyEmbedType::Playlist)
    } else if str_eq(s.as_str(), "artist") {
        Ok(SpotifyEmbedType::Artist)
    } else if str_eq(s.as_str(), "show") {
        Ok(SpotifyEmbedType::Show)
    } else if str_eq(s.as_str(), "episode") {
        Ok(SpotifyEmbedType::Episode)
    } else {
        Err(EmbedError::UnsupportedType(s))
    }
}

/// The value of the first `param` in `url`, if `param` occurs.
fn time_param(url: &[char], param: &str) -> (r: Option<Option<u32>>)
    ensures
        match r {
            Some(v) => occurs(url@, param@) && v == time_value(url@, param@),
            None => !occurs(url@, param@),
        },
{
    let p = chars_of(param);
    match after_first_exec(url, p.as_slice()) {
        None => None,
        Some(rest) => {
            let stops = ['&', '#'];
            assert(stops@ =~= seq!['&', '#']);
            assert(rest@.skip(0) =~= rest@);
            let v = prefix_until_exec(rest.as_slice(), 0, &stops);
            let t = trim_end_char_exec(v.as_slice(), 's');
            Some(parse_u32(t.as_slice()))
        },
    }
}

impl EmbedDetector {
    /// The embed type of a URL: YouTube, else Spotify, else a generic link (never `None`).
    pub fn detect(url: &str) -> (r: Option<EmbedType>)
        ensures
            r == Some(
                if is_youtube_spec(url@) {
                    EmbedType::YouTube
                } else if is_spotify_spec(url@) {
                    EmbedType::Spotify
                } else {
                    EmbedType::Link
                },
            ),
    {
        if Self::is_youtube_url(url) {
            Some(EmbedType::YouTube)
        } else if Self::is_spotify_url(url) {
            Some(EmbedType::Spotify)
        } else {
            Some(EmbedType::Link)
        }
    }

    /// Whether the URL contains `youtube.com` or `youtu.be`.
    pub fn is_youtube_url(url: &str) -> (r: bool)
        ensures
            r == is_youtube_spec(url@),
    {
        let s = chars_of(url);
        has(s.as_slice(), "youtube.com") || has(s.as_slice(), "youtu.be")
    }

    /// Whether the URL contains `spotify.com` or `spotify:`.
    pub fn is_spotify_url(url: &str) -> (r: bool)
        ensures
            r == is_spotify_spec(url@),
    {
        let s = chars_of(url);
        has(s.as_slice(), "spotify.com") || has(s.as_slice(), "spotify:")
    }

    /// Parses a YouTube URL: its video ID (see `youtube_id_spec`) and start time
    /// (see `youtube_time_spec`); `MissingId` when no ID can be found.
    pub fn parse_youtube(url: &str) -> (r: Result<YouTubeEmbed, EmbedError>)
        ensures
            match youtube_id_spec(url@) {
                Some(id) => r matches Ok(e) && e.video_id@ == id && e.start_time == youtube_time_spec(url@)
                    && e.title is None && e.channel is None && e.thumbnail is None,
                None => r matches Err(EmbedError::MissingId),
            },
    {
        let s = chars_of(url);
        let id = match Self::extract_youtube_id(s.as_slice()) {
            Some(id) => id,
            None => return Err(EmbedError::MissingId),
        };
        let start_time = Self::extract_youtube_timestamp(s.as_slice());
        let ids = string_of(id.as_slice());
        let mut embed = YouTubeEmbed::new(ids.as_str());
        embed.start_time = start_time;
        Ok(embed)
    }

    /// The video ID of a YouTube URL.
    fn extract_youtube_id(url: &[char]) -> (r: Option<Vec<char>>)
        ensures
            match youtube_id_spec(url@) {
                Some(id) => r matches Some(v) && v@ == id,
                None => r is None,
            },
    {
        let q = ['?', '&', '#'];
        let a = ['&', '#'];
        assert(q@ =~= seq!['?', '&', '#']);
        assert(a@ =~= seq!['&', '#']);
        let short = chars_of("youtu.be/");
        if let Some(rest) = after_first_exec(url, short.as_slice()) {
            assert(rest@.skip(0) =~= rest@);
            return Some(prefix_until_exec(rest.as_slice(), 0, &q));
        }
        if has(url, "youtube.com/watch") {
            let v = chars_of("v=");
            if let Some(rest) = after_first_exec(url, v.as_slice()) {
                assert(rest@.skip(0) =~= rest@);
                return Some(prefix_until_exec(rest.as_slice(), 0, &a));
            }
        }
        let emb = chars_of("youtube.com/embed/");
        if let Some(rest) = after_first_exec(url, emb.as_slice()) {
            assert(rest@.skip(0) =~= rest@);
            return Some(prefix_until_exec(rest.as_slice(), 0, &q));
        }
        None
    }

    /// The start time of a YouTube URL.
    fn extract_youtube_timestamp(url: &[char]) -> (r: Option<u32>)
        ensures
            r == youtube_time_spec(url@),
    {
        match time_param(url, "t=") {
            Some(v) => v,
            None => match time_param(url, "start=") {
                Some(v) => v,
                None => None,
            },
        }
    }

    /// Parses a Spotify URL or URI (see `spotify_spec`).
    pub fn parse_spotify(url: &str) -> (r: Result<SpotifyEmbed, EmbedError>)
        ensures
            match spotify_spec(url@) {
                SpotifyParse::Found(t, id) => r matches Ok(e) && e.embed_type == t && e.id@ == id
                    && e.title is None && e.artist is None,
                SpotifyParse::Unsupported(n) => r matches Err(EmbedError::UnsupportedType(m)) && m@ == n,
                SpotifyParse::Invalid => r matches Err(EmbedError::InvalidUrl(m)) && m@ == url@,
            },
    {
        match Self::extract_spotify_info(url) {
            Ok((t, id)) => Ok(SpotifyEmbed::new(t, id.as_str())),
            Err(e) => Err(e),
        }
    }

    /// The item type and ID of a Spotify URL or URI.
    fn extract_spotify_info(url: &str) -> (r: Result<(SpotifyEmbedType, String), EmbedError>)
        ensures
            match spotify_spec(url@) {
                SpotifyParse::Found(t, id) => r matches Ok((x, y)) && x == t && y@ == id,
                SpotifyParse::Unsupported(n) => r matches Err(EmbedError::UnsupportedType(m)) && m@ == n,
                SpotifyParse::Invalid => r matches Err(EmbedError::InvalidUrl(m)) && m@ == url@,
            },
    {
        let s = chars_of(url);
        let scheme = chars_of("spotify:");
        if starts_with_exec(s.as_slice(), scheme.as_slice()) {
            let parts = split_char_exec(s.as_slice(), 0, ':');
            assert(s@.skip(0) =~= s@);
            if parts.len() >= 3 {
                assert(views(parts@)[1] == parts@[1]@);
                assert(views(parts@)[2] == parts@[2]@);
                let t = match parse_spotify_type(parts[1].as_slice()) {
                    Ok(t) => t,
                    Err(e) => return Err(e),
                };
                return Ok((t, string_of(parts[2].as_slice())));
            }
        }
        if has(s.as_slice(), "open.spotify.com") {
            let pat = chars_of("open.spotify.com/");
            let rest = match after_first_exec(s.as_slice(), pat.as_slice()) {
                Some(rest) => rest,
                None => return Err(EmbedError::InvalidUrl(owned(url))),
            };
            let path = match find(rest.as_slice(), pat.as_slice()) {
                Some(k) => take_exec(rest.as_slice(), k),
                None => rest,
            };
            let segs = split_char_exec(path.as_slice(), 0, '/');
            assert(path@.skip(0) =~= path@);
            if segs.len() >= 2 {
                assert(views(segs@)[0] == segs@[0]@);
                assert(views(segs@)[1] == segs@[1]@);
                let t = match parse_spotify_type(segs[0].as_slice()) {
                    Ok(t) => t,
                    Err(e) => return Err(e),
                };
                let qm = ['?'];
                assert(qm@ =~= seq!['?']);
                assert(segs@[1]@.skip(0) =~= segs@[1]@);
                let id = prefix_until_exec(segs[1].as_slice(), 0, &qm);
                return Ok((t, string_of(id.as_slice())));
            }
        }
        Err(EmbedError::InvalidUrl(owned(url)))
    }

    /// Parses any URL: YouTube and Spotify URLs into their embeds (or their errors),
    /// anything else into a link embed of the URL.
    pub fn parse(url: &str) -> (r: Result<ExternalEmbed, EmbedError>)
        ensures
            is_youtube_spec(url@) ==> match youtube_id_spec(url@) {
                Some(id) => r matches Ok(ExternalEmbed::YouTube(e)) && e.video_id@ == id
                    && e.start_time == youtube_time_spec(url@) && e.title is None && e.channel is None
                    && e.thumbnail is None,
                None => r matches Err(EmbedError::MissingId),
            },
            !is_youtube_spec(url@) && is_spotify_spec(url@) ==> match spotify_spec(url@) {
                SpotifyParse::Found(t, id) => r matches Ok(ExternalEmbed::Spotify(e)) && e.embed_type == t && e.id@ == id
                    && e.title is None && e.artist is None,
                SpotifyParse::Unsupported(n) => r matches Err(EmbedError::UnsupportedType(m)) && m@ == n,
                SpotifyParse::Invalid => r matches Err(EmbedError::InvalidUrl(m)) && m@ == url@,
            },
            !is_youtube_spec(url@) && !is_spotify_spec(url@) ==> (r matches Ok(ExternalEmbed::Link(e))
                && crate::link_preview::is_bare_preview(e.preview, url@)),
    {
        if Self::is_youtube_url(url) {
            match Self::parse_youtube(url) {
                Ok(e) => Ok(ExternalEmbed::YouTube(e)),
                Err(e) => Err(e),
            }
        } else if Self::is_spotify_url(url) {
            match Self::parse_spotify(url) {
                Ok(e) => Ok(ExternalEmbed::Spotify(e)),
                Err(e) => Err(e),
            }
        } else {
            Ok(ExternalEmbed::Link(LinkEmbed::new(LinkPreview::new(url))))
        }
    }
}


/// A character a YouTube video ID is made of: an ASCII letter or digit, `-` or `_`.
pub open spec fn video_id_char(c: char) -> bool {
    ('a' <= c && c <= 'z') || ('A' <= c && c <= 'Z') || ('0' <= c && c <= '9') || c == '-' || c == '_'
}

proof fn lemma_prefix_until_whole(s: Seq<char>, stops: Seq<char>)
    requires
        forall|k: int| 0 <= k < s.len() ==> !stops.contains(#[trigger] s[k]),
    ensures
        prefix_until(s, stops) == s,
    decreases s.len(),
{
    if s.len() > 0 {
        assert forall|k: int| 0 <= k < s.drop_first().len() implies !stops.contains(#[trigger] s.drop_first()[k]) by {
            assert(s.drop_first()[k] == s[k + 1]);
        }
        lemma_prefix_until_whole(s.drop_first(), stops);
        assert(seq![s[0]] + s.drop_first() =~= s);
    }
}

/// Reading back the watch URL of a video gives the same video: for an ID made of letters,
/// digits, `-` and `_`, the watch URL without a start time is read as that ID, with no start
/// time.
pub proof fn law_watch_url_round_trip(id: Seq<char>)
    requires
        forall|k: int| 0 <= k < id.len() ==> video_id_char(#[trigger] id[k]),
    ensures
        youtube_id_spec("https://www.youtube.com/watch?v="@ + id) == Some(id),
        youtube_time_spec("https://www.youtube.com/watch?v="@ + id) is None,
{
    reveal_strlit("https://www.youtube.com/watch?v=");
    reveal_strlit("youtu.be/");
    reveal_strlit("youtube.com/watch");
    reveal_strlit("v=");
    reveal_strlit("t=");
    reveal_strlit("start=");
    let pre = "https://www.youtube.com/watch?v="@;
    let url = pre + id;
    assert(pre.len() == 32);
    assert forall|k: int| 32 <= k < url.len() implies #[trigger] url[k] == id[k - 32] && video_id_char(url[k]) by {
        assert(video_id_char(id[k - 32]));
    }
    assert forall|k: int| 0 <= k < 32 implies #[trigger] url[k] == pre[k] by {}
    // "youtu.be/" does not occur: its '.' would have to fall on one of the two dots of the
    // prefix, where the letters before it differ.
    assert(!occurs(url, "youtu.be/"@)) by {
        if occurs(url, "youtu.be/"@) {
            let i = choose|i: int| matches_at(url, "youtu.be/"@, i);
            assert(url[i + 5] == "youtu.be/"@[5]);
            assert(url[i + 0] == "youtu.be/"@[0]);
            if i + 5 >= 32 {
                assert(video_id_char(url[i + 5]));
            } else {
                assert(url[i + 5] == pre[i + 5]);
                assert(url[i] == pre[i]);
            }
        }
    }
    // "youtube.com/watch" occurs where the prefix has it.
    assert(matches_at(url, "youtube.com/watch"@, 12)) by {
        assert forall|k: int| 0 <= k < 17 implies #[trigger] url[12 + k] == "youtube.com/watch"@[k] by {
            assert(url[12 + k] == pre[12 + k]);
        }
    }
    // The first "v=" is the one that ends the prefix.
    assert(matches_at(url, "v="@, 30)) by {
        assert(url[30] == pre[30]);
        assert(url[31] == pre[31]);
    }
    assert forall|j: int| 0 <= j < 30 implies !matches_at(url, "v="@, j) by {
        if matches_at(url, "v="@, j) {
            assert(url[j + 0] == "v="@[0]);
            assert(url[j] == pre[j]);
        }
    }
    lemma_first_match_unique(url, "v="@, 0, 30);
    assert(after_first(url, "v="@) =~= id);
    lemma_prefix_until_whole(id, seq!['&', '#']);
    // Neither "t=" nor "start=" occurs: the only '=' ends the prefix, after a 'v'.
    assert(!occurs(url, "t="@)) by {
        if occurs(url, "t="@) {
            let i = choose|i: int| matches_at(url, "t="@, i);
            assert(url[i + 1] == "t="@[1]);
            assert(url[i + 0] == "t="@[0]);
            if i + 1 >= 32 {
                assert(video_id_char(url[i + 1]));
            } else {
                assert(url[i + 1] == pre[i + 1]);
                assert(url[i] == pre[i]);
            }
        }
    }
    assert(!occurs(url, "start="@)) by {
        if occurs(url, "start="@) {
            let i = choose|i: int| matches_at(url, "start="@, i);
            assert(url[i + 5] == "start="@[5]);
            assert(url[i + 4] == "start="@[4]);
            if i + 5 >= 32 {
                assert(video_id_char(url[i + 5]));
            } else {
                assert(url[i + 5] == pre[i + 5]);
                assert(url[i + 4] == pre[i + 4]);
            }
        }
    }
}


proof fn lemma_digit_char(d: nat)
    requires
        d < 10,
    ensures
        is_digit(digit_char(d)),
        (digit_char(d) as u32) - 48 == d,
{
}

proof fn lemma_decimal_reads_back(n: nat)
    ensures
        decimal(n).len() >= 1,
        all_digits(decimal(n)),
        digits_value(decimal(n)) == n,
    decreases n,
{
    if n < 10 {
        lemma_digit_char(n);
        let d = decimal(n);
        assert(d =~= seq![digit_char(n)]);
        assert(d.drop_last() =~= Seq::<char>::empty());
        assert(digits_value(d.drop_last()) == 0);
        assert(d.last() == digit_char(n));
        assert(digits_value(d) == digits_value(d.drop_last()) * 10 + ((d.last() as u32) - 48) as nat);
    } else {
        lemma_decimal_reads_back(n / 10);
        lemma_digit_char(n % 10);
        let d = decimal(n);
        assert(d.drop_last() =~= decimal(n / 10));
        assert(d.last() == digit_char(n % 10));
        assert(n == (n / 10) * 10 + n % 10);
        assert(digits_value(d) == digits_value(d.drop_last()) * 10 + ((d.last() as u32) - 48) as nat);
        assert forall|i: int| 0 <= i < d.len() implies is_digit(#[trigger] d[i]) by {
            if i < d.len() - 1 {
                assert(d[i] == decimal(n / 10)[i]);
            }
        }
    }
}

proof fn lemma_prefix_until_stops_at(a: Seq<char>, b: Seq<char>, stops: Seq<char>)
    requires
        forall|k: int| 0 <= k < a.len() ==> !stops.contains(#[trigger] a[k]),
        b.len() > 0,
        stops.contains(b[0]),
    ensures
        prefix_until(a + b, stops) == a,
    decreases a.len(),
{
    if a.len() == 0 {
        assert((a + b)[0] == b[0]);
    } else {
        assert((a + b).drop_first() =~= a.drop_first() + b);
        assert forall|k: int| 0 <= k < a.drop_first().len() implies !stops.contains(#[trigger] a.drop_first()[k]) by {
            assert(a.drop_first()[k] == a[k + 1]);
        }
        lemma_prefix_until_stops_at(a.drop_first(), b, stops);
        assert(seq![a[0]] + a.drop_first() =~= a);
    }
}

/// Reading back the watch URL of a video that starts at a given second gives the same video
/// and start: for an ID made of letters, digits, `-` and `_`, the watch URL with `&t=<t>s` is
/// read as that ID with start time `t`.
pub proof fn law_watch_url_start_round_trip(id: Seq<char>, t: u32)
    requires
        forall|k: int| 0 <= k < id.len() ==> video_id_char(#[trigger] id[k]),
    ensures
        youtube_id_spec("https://www.youtube.com/watch?v="@ + id + "&t="@ + decimal(t as nat) + "s"@) == Some(id),
        youtube_time_spec("https://www.youtube.com/watch?v="@ + id + "&t="@ + decimal(t as nat) + "s"@) == Some(t),
{
    reveal_strlit("https://www.youtube.com/watch?v=");
    reveal_strlit("youtu.be/");
    reveal_strlit("youtube.com/watch");
    reveal_strlit("v=");
    reveal_strlit("t=");
    reveal_strlit("&t=");
    reveal_strlit("s");
    let pre = "https://www.youtube.com/watch?v="@;
    let dec = decimal(t as nat);
    lemma_decimal_reads_back(t as nat);
    let tail = "&t="@ + dec + "s"@;
    let url = pre + id + tail;
    let n: int = id.len() as int;
    assert(pre.len() == 32);
    assert(tail.len() == 3 + dec.len() + 1);
    assert forall|k: int| 0 <= k < 32 implies #[trigger] url[k] == pre[k] by {}
    assert forall|k: int| 32 <= k < 32 + n implies #[trigger] url[k] == id[k - 32] && video_id_char(url[k]) by {
        assert(video_id_char(id[k - 32]));
    }
    assert forall|k: int| 32 + n <= k < url.len() implies #[trigger] url[k] == tail[k - 32 - n] by {}
    assert(url[32 + n] == '&');
    assert(url[32 + n + 1] == 't');
    assert(url[32 + n + 2] == '=');
    assert forall|k: int| 32 + n + 3 <= k < url.len() - 1 implies is_digit(#[trigger] url[k]) by {
        assert(url[k] == tail[k - 32 - n]);
        assert(tail[k - 32 - n] == dec[k - 32 - n - 3]);
    }
    assert(url[url.len() - 1] == 's');
    // The only '.' are those of the prefix.
    assert(!occurs(url, "youtu.be/"@)) by {
        if occurs(url, "youtu.be/"@) {
            let i = choose|i: int| matches_at(url, "youtu.be/"@, i);
            assert(url[i + 5] == "youtu.be/"@[5]);
            assert(url[i + 0] == "youtu.be/"@[0]);
            if i + 5 >= 32 + n + 3 && i + 5 < url.len() - 1 {
                assert(is_digit(url[i + 5]));
            } else if i + 5 >= 32 && i + 5 < 32 + n {
                assert(video_id_char(url[i + 5]));
            } else if i + 5 < 32 {
                assert(url[i + 5] == pre[i + 5]);
                assert(url[i] == pre[i]);
            }
        }
    }
    assert(matches_at(url, "youtube.com/watch"@, 12)) by {
        assert forall|k: int| 0 <= k < 17 implies #[trigger] url[12 + k] == "youtube.com/watch"@[k] by {
            assert(url[12 + k] == pre[12 + k]);
        }
    }
    assert(matches_at(url, "v="@, 30)) by {
        assert(url[30] == pre[30]);
        assert(url[31] == pre[31]);
    }
    assert forall|j: int| 0 <= j < 30 implies !matches_at(url, "v="@, j) by {
        if matches_at(url, "v="@, j) {
            assert(url[j + 0] == "v="@[0]);
            assert(url[j] == pre[j]);
        }
    }
    lemma_first_match_unique(url, "v="@, 0, 30);
    assert(after_first(url, "v="@) =~= id + tail);
    assert(tail[0] == '&');
    assert(seq!['&', '#'].contains(tail[0])) by {
        assert(seq!['&', '#'][0] == '&');
    }
    lemma_prefix_until_stops_at(id, tail, seq!['&', '#']);
    // The first "t=" is the one of the tail.
    let q = 32 + n + 1;
    assert(matches_at(url, "t="@, q));
    assert forall|j: int| 0 <= j < q implies !matches_at(url, "t="@, j) by {
        if matches_at(url, "t="@, j) {
            assert(url[j + 1] == "t="@[1]);
            assert(url[j + 0] == "t="@[0]);
            if j + 1 < 32 {
                assert(url[j + 1] == pre[j + 1]);
                assert(url[j] == pre[j]);
            } else if j + 1 < 32 + n {
                assert(video_id_char(url[j + 1]));
            }
        }
    }
    lemma_first_match_unique(url, "t="@, 0, q);
    let rest = after_first(url, "t="@);
    assert(rest =~= dec + "s"@);
    assert forall|k: int| 0 <= k < rest.len() implies !seq!['&', '#'].contains(#[trigger] rest[k]) by {
        if k < dec.len() {
            assert(rest[k] == dec[k]);
            assert(is_digit(dec[k]));
        } else {
            assert(rest[k] == 's');
        }
    }
    lemma_prefix_until_whole(rest, seq!['&', '#']);
    assert(rest.drop_last() =~= dec);
    assert(is_digit(dec.last()));
    assert(trim_end_char(rest, 's') == trim_end_char(dec, 's'));
    assert(trim_end_char(dec, 's') == dec);
    assert(is_digit(dec[0]));
    assert(parse_u32_spec(dec) == Some(t));
    assert(youtube_id_spec(url) == Some(id));
    assert(youtube_time_spec(url) == Some(t));
    assert(url =~= pre + id + "&t="@ + dec + "s"@);
}


/// Reading back the embed URL of a video gives the same video: for an ID made of letters,
/// digits, `-` and `_`, the embed URL without a start time is read as that ID, with no start
/// time.
pub proof fn law_embed_url_round_trip(id: Seq<char>)
    requires
        forall|k: int| 0 <= k < id.len() ==> video_id_char(#[trigger] id[k]),
    ensures
        youtube_id_spec("https://www.youtube.com/embed/"@ + id) == Some(id),
        youtube_time_spec("https://www.youtube.com/embed/"@ + id) is None,
{
    reveal_strlit("https://www.youtube.com/embed/");
    reveal_strlit("youtu.be/");
    reveal_strlit("youtube.com/watch");
    reveal_strlit("youtube.com/embed/");
    reveal_strlit("t=");
    reveal_strlit("start=");
    let pre = "https://www.youtube.com/embed/"@;
    let url = pre + id;
    assert(pre.len() == 30);
    assert forall|k: int| 30 <= k < url.len() implies #[trigger] url[k] == id[k - 30] && video_id_char(url[k]) by {
        assert(video_id_char(id[k - 30]));
    }
    assert forall|k: int| 0 <= k < 30 implies #[trigger] url[k] == pre[k] by {}
    assert(!occurs(url, "youtu.be/"@)) by {
        if occurs(url, "youtu.be/"@) {
            let i = choose|i: int| matches_at(url, "youtu.be/"@, i);
            assert(url[i + 5] == "youtu.be/"@[5]);
            assert(url[i + 0] == "youtu.be/"@[0]);
            if i + 5 >= 30 {
                assert(video_id_char(url[i + 5]));
            } else {
                assert(url[i + 5] == pre[i + 5]);
                assert(url[i] == pre[i]);
            }
        }
    }
    assert(!occurs(url, "youtube.com/watch"@)) by {
        if occurs(url, "youtube.com/watch"@) {
            let i = choose|i: int| matches_at(url, "youtube.com/watch"@, i);
            assert(url[i + 7] == "youtube.com/watch"@[7]);
            assert(url[i + 0] == "youtube.com/watch"@[0]);
            assert(url[i + 12] == "youtube.com/watch"@[12]);
            if i + 7 >= 30 {
                assert(video_id_char(url[i + 7]));
            } else {
                assert(url[i + 7] == pre[i + 7]);
                assert(url[i] == pre[i]);
                assert(url[i + 12] == pre[i + 12]);
            }
        }
    }
    assert(matches_at(url, "youtube.com/embed/"@, 12)) by {
        assert forall|k: int| 0 <= k < 18 implies #[trigger] url[12 + k] == "youtube.com/embed/"@[k] by {
            assert(url[12 + k] == pre[12 + k]);
        }
    }
    assert forall|j: int| 0 <= j < 12 implies !matches_at(url, "youtube.com/embed/"@, j) by {
        if matches_at(url, "youtube.com/embed/"@, j) {
            assert(url[j + 0] == "youtube.com/embed/"@[0]);
            assert(url[j] == pre[j]);
        }
    }
    lemma_first_match_unique(url, "youtube.com/embed/"@, 0, 12);
    assert(after_first(url, "youtube.com/embed/"@) =~= id);
    assert forall|k: int| 0 <= k < id.len() implies !seq!['?', '&', '#'].contains(#[trigger] id[k]) by {
        assert(video_id_char(id[k]));
    }
    lemma_prefix_until_whole(id, seq!['?', '&', '#']);
    assert(!occurs(url, "t="@)) by {
        if occurs(url, "t="@) {
            let i = choose|i: int| matches_at(url, "t="@, i);
            assert(url[i + 1] == "t="@[1]);
            if i + 1 >= 30 {
                assert(video_id_char(url[i + 1]));
            } else {
                assert(url[i + 1] == pre[i + 1]);
            }
        }
    }
    assert(!occurs(url, "start="@)) by {
        if occurs(url, "start="@) {
            let i = choose|i: int| matches_at(url, "start="@, i);
            assert(url[i + 5] == "start="@[5]);
            if i + 5 >= 30 {
                assert(video_id_char(url[i + 5]));
            } else {
                assert(url[i + 5] == pre[i + 5]);
            }
        }
    }
}

/// Reading back the embed URL of a video that starts at a given second gives the same video
/// and start: for an ID made of letters, digits, `-` and `_`, the embed URL with
/// `?start=<t>` is read as that ID with start time `t`.
pub proof fn law_embed_url_start_round_trip(id: Seq<char>, t: u32)
    requires
        forall|k: int| 0 <= k < id.len() ==> video_id_char(#[trigger] id[k]),
    ensures
        youtube_id_spec("https://www.youtube.com/embed/"@ + id + "?start="@ + decimal(t as nat)) == Some(id),
        youtube_time_spec("https://www.youtube.com/embed/"@ + id + "?start="@ + decimal(t as nat)) == Some(t),
{
    reveal_strlit("https://www.youtube.com/embed/");
    reveal_strlit("youtu.be/");
    reveal_strlit("youtube.com/watch");
    reveal_strlit("youtube.com/embed/");
    reveal_strlit("t=");
    reveal_strlit("?start=");
    let pre = "https://www.youtube.com/embed/"@;
    let dec = decimal(t as nat);
    lemma_decimal_reads_back(t as nat);
    let tail = "?start="@ + dec;
    let url = pre + id + tail;
    let n: int = id.len() as int;
    assert(pre.len() == 30);
    assert(tail.len() == 7 + dec.len());
    assert forall|k: int| 0 <= k < 30 implies #[trigger] url[k] == pre[k] by {}
    assert forall|k: int| 30 <= k < 30 + n implies #[trigger] url[k] == id[k - 30] && video_id_char(url[k]) by {
        assert(video_id_char(id[k - 30]));
    }
    assert forall|k: int| 30 + n <= k < url.len() implies #[trigger] url[k] == tail[k - 30 - n] by {}
    assert forall|k: int| 30 + n + 7 <= k < url.len() implies is_digit(#[trigger] url[k]) by {
        assert(url[k] == tail[k - 30 - n]);
        assert(tail[k - 30 - n] == dec[k - 30 - n - 7]);
    }
    assert(url[30 + n] == '?');
    assert(url[30 + n + 1] == 's');
    assert(url[30 + n + 2] == 't');
    assert(url[30 + n + 3] == 'a');
    assert(url[30 + n + 4] == 'r');
    assert(url[30 + n + 5] == 't');
    assert(url[30 + n + 6] == '=');
    // No '.' follows the prefix.
    assert forall|k: int| 30 <= k < url.len() implies #[trigger] url[k] != '.' && url[k] != '=' || k == 30 + n + 6 by {
        if k < 30 + n {
            assert(video_id_char(url[k]));
        } else if k >= 30 + n + 7 {
            assert(is_digit(url[k]));
        }
    }
    assert(!occurs(url, "youtu.be/"@)) by {
        if occurs(url, "youtu.be/"@) {
            let i = choose|i: int| matches_at(url, "youtu.be/"@, i);
            assert(url[i + 5] == "youtu.be/"@[5]);
            assert(url[i + 0] == "youtu.be/"@[0]);
            if i + 5 < 30 {
                assert(url[i + 5] == pre[i + 5]);
                assert(url[i] == pre[i]);
            }
        }
    }
    assert(!occurs(url, "youtube.com/watch"@)) by {
        if occurs(url, "youtube.com/watch"@) {
            let i = choose|i: int| matches_at(url, "youtube.com/watch"@, i);
            assert(url[i + 7] == "youtube.com/watch"@[7]);
            assert(url[i + 0] == "youtube.com/watch"@[0]);
            assert(url[i + 12] == "youtube.com/watch"@[12]);
            if i + 7 < 30 {
                assert(url[i + 7] == pre[i + 7]);
                assert(url[i] == pre[i]);
                assert(url[i + 12] == pre[i + 12]);
            }
        }
    }
    assert(matches_at(url, "youtube.com/embed/"@, 12)) by {
        assert forall|k: int| 0 <= k < 18 implies #[trigger] url[12 + k] == "youtube.com/embed/"@[k] by {
            assert(url[12 + k] == pre[12 + k]);
        }
    }
    assert forall|j: int| 0 <= j < 12 implies !matches_at(url, "youtube.com/embed/"@, j) by {
        if matches_at(url, "youtube.com/embed/"@, j) {
            assert(url[j + 0] == "youtube.com/embed/"@[0]);
            assert(url[j] == pre[j]);
        }
    }
    lemma_first_match_unique(url, "youtube.com/embed/"@, 0, 12);
    assert(after_first(url, "youtube.com/embed/"@) =~= id + tail);
    assert(tail[0] == '?');
    assert(seq!['?', '&', '#'].contains(tail[0])) by {
        assert(seq!['?', '&', '#'][0] == '?');
    }
    assert forall|k: int| 0 <= k < id.len() implies !seq!['?', '&', '#'].contains(#[trigger] id[k]) by {
        assert(video_id_char(id[k]));
    }
    lemma_prefix_until_stops_at(id, tail, seq!['?', '&', '#']);
    // The first "t=" is the one that ends "?start=".
    let q = 30 + n + 5;
    assert(matches_at(url, "t="@, q));
    assert forall|j: int| 0 <= j < q implies !matches_at(url, "t="@, j) by {
        if matches_at(url, "t="@, j) {
            assert(url[j + 1] == "t="@[1]);
            if j + 1 < 30 {
                assert(url[j + 1] == pre[j + 1]);
            }
        }
    }
    lemma_first_match_unique(url, "t="@, 0, q);
    let rest = after_first(url, "t="@);
    assert(rest =~= dec);
    assert forall|k: int| 0 <= k < rest.len() implies !seq!['&', '#'].contains(#[trigger] rest[k]) by {
        assert(is_digit(dec[k]));
    }
    lemma_prefix_until_whole(rest, seq!['&', '#']);
    assert(is_digit(dec.last()));
    assert(trim_end_char(dec, 's') == dec);
    assert(is_digit(dec[0]));
    assert(parse_u32_spec(dec) == Some(t));
    assert(youtube_id_spec(url) == Some(id));
    assert(youtube_time_spec(url) == Some(t));
    assert(url =~= pre + id + "?start="@ + dec);
}

/// A character a Spotify item ID is made of: an ASCII letter or digit.
pub open spec fn item_id_char(c: char) -> bool {
    ('a' <= c && c <= 'z') || ('A' <= c && c <= 'Z') || ('0' <= c && c <= '9')
}

proof fn lemma_split_char_plain(s: Seq<char>, sep: char)
    requires
        forall|k: int| 0 <= k < s.len() ==> #[trigger] s[k] != sep,
    ensures
        split_char(s, sep) == seq![s],
    decreases s.len(),
{
    if s.len() > 0 {
        assert forall|k: int| 0 <= k < s.drop_last().len() implies #[trigger] s.drop_last()[k] != sep by {
            assert(s.drop_last()[k] == s[k]);
        }
        lemma_split_char_plain(s.drop_last(), sep);
        assert(s[s.len() - 1] != sep);
        assert(s.drop_last().push(s.last()) =~= s);
        assert(seq![s.drop_last()].update(0, s) =~= seq![s]);
    } else {
        assert(s =~= Seq::<char>::empty());
    }
}

proof fn lemma_split_char_append_plain(a: Seq<char>, b: Seq<char>, sep: char)
    requires
        forall|k: int| 0 <= k < b.len() ==> #[trigger] b[k] != sep,
    ensures
        split_char(a + b, sep) == split_char(a, sep).update(
            split_char(a, sep).len() - 1,
            split_char(a, sep).last() + b,
        ),
    decreases b.len(),
{
    lemma_split_char_nonempty(a, sep);
    if b.len() == 0 {
        assert(a + b =~= a);
        assert(split_char(a, sep).last() + b =~= split_char(a, sep).last());
        assert(split_char(a, sep).update(split_char(a, sep).len() - 1, split_char(a, sep).last())
            =~= split_char(a, sep));
    } else {
        let b0 = b.drop_last();
        lemma_split_char_append_plain(a, b0, sep);
        assert((a + b).drop_last() =~= a + b0);
        assert((a + b).last() == b.last());
        let r = split_char(a, sep);
        assert((r.last() + b0).push(b.last()) =~= r.last() + b);
        assert(r.update(r.len() - 1, r.last() + b0).update(r.len() - 1, (r.last() + b0).push(b.last()))
            =~= r.update(r.len() - 1, r.last() + b));
    }
}

proof fn lemma_type_name_reads_back(t: SpotifyEmbedType)
    ensures
        spotify_type_of(spotify_type_name(t)) == Some(t),
        forall|k: int| 0 <= k < spotify_type_name(t).len() ==> item_id_char(#[trigger] spotify_type_name(t)[k]),
        spotify_type_name(t).len() <= 8,
{
    reveal_strlit("track");
    reveal_strlit("album");
    reveal_strlit("playlist");
    reveal_strlit("artist");
    reveal_strlit("show");
    reveal_strlit("episode");
    let n = spotify_type_name(t);
    if t != SpotifyEmbedType::Track {
        assert(n != "track"@) by {
            if n == "track"@ {
                assert(n[0] == "track"@[0]);
                assert(n.len() == 5);
                assert(n[1] == "track"@[1]);
            }
        }
    }
    if t != SpotifyEmbedType::Track && t != SpotifyEmbedType::Album {
        assert(n != "album"@) by {
            if n == "album"@ {
                assert(n[0] == "album"@[0]);
                assert(n.len() == 5);
            }
        }
    }
    if t != SpotifyEmbedType::Track && t != SpotifyEmbedType::Album && t != SpotifyEmbedType::Playlist {
        assert(n != "playlist"@) by {
            if n == "playlist"@ {
                assert(n.len() == 8);
            }
        }
    }
    if t == SpotifyEmbedType::Show || t == SpotifyEmbedType::Episode {
        assert(n != "artist"@) by {
            if n == "artist"@ {
                assert(n.len() == 6);
            }
        }
    }
    if t == SpotifyEmbedType::Episode {
        assert(n != "show"@) by {
            if n == "show"@ {
                assert(n.len() == 4);
            }
        }
    }
}

/// Reading back the open URL of a Spotify item gives the same item: for an ID without `/` or
/// `?`, the open URL is read as that item type and ID.
pub proof fn law_open_url_round_trip(t: SpotifyEmbedType, id: Seq<char>)
    requires
        forall|k: int| 0 <= k < id.len() ==> #[trigger] id[k] != '/' && id[k] != '?',
    ensures
        spotify_spec("https://open.spotify.com/"@ + spotify_type_name(t) + "/"@ + id) == SpotifyParse::Found(t, id),
{
    reveal_strlit("https://open.spotify.com/");
    reveal_strlit("open.spotify.com");
    reveal_strlit("open.spotify.com/");
    reveal_strlit("spotify:");
    reveal_strlit("/");
    let pre = "https://open.spotify.com/"@;
    let name = spotify_type_name(t);
    lemma_type_name_reads_back(t);
    let url = pre + name + "/"@ + id;
    let rest = name + "/"@ + id;
    assert(pre.len() == 25);
    assert(url =~= pre + rest);
    assert forall|k: int| 0 <= k < 25 implies #[trigger] url[k] == pre[k] by {}
    assert forall|k: int| 25 <= k < url.len() implies #[trigger] url[k] == rest[k - 25] by {}
    assert forall|k: int| 0 <= k < rest.len() && #[trigger] rest[k] == '/' implies k == name.len() by {
        if k < name.len() {
            assert(rest[k] == name[k]);
            assert(item_id_char(name[k]));
        } else if k > name.len() {
            assert(rest[k] == id[k - name.len() - 1]);
        }
    }
    assert(!starts_with(url, "spotify:"@)) by {
        if starts_with(url, "spotify:"@) {
            assert(url[0int + 0int] == "spotify:"@[0]);
            assert(url[0] == pre[0]);
        }
    }
    assert(matches_at(url, "open.spotify.com"@, 8)) by {
        assert forall|k: int| 0 <= k < 16 implies #[trigger] url[8 + k] == "open.spotify.com"@[k] by {
            assert(url[8 + k] == pre[8 + k]);
        }
    }
    assert(matches_at(url, "open.spotify.com/"@, 8)) by {
        assert forall|k: int| 0 <= k < 17 implies #[trigger] url[8 + k] == "open.spotify.com/"@[k] by {
            assert(url[8 + k] == pre[8 + k]);
        }
    }
    assert forall|j: int| 0 <= j < 8 implies !matches_at(url, "open.spotify.com/"@, j) by {
        if matches_at(url, "open.spotify.com/"@, j) {
            assert(url[j + 0] == "open.spotify.com/"@[0]);
            assert(url[j] == pre[j]);
        }
    }
    lemma_first_match_unique(url, "open.spotify.com/"@, 0, 8);
    assert(after_first(url, "open.spotify.com/"@) =~= rest);
    // The pattern's only '/' ends it; in the rest the only '/' follows the type name, which is
    // shorter than the pattern.
    assert(!occurs(rest, "open.spotify.com/"@)) by {
        if occurs(rest, "open.spotify.com/"@) {
            let i = choose|i: int| matches_at(rest, "open.spotify.com/"@, i);
            assert(rest[i + 16] == "open.spotify.com/"@[16]);
        }
    }
    assert(second_piece(url, "open.spotify.com/"@) == rest);
    // The rest splits on its one '/' into the type name and the ID.
    let head = name + "/"@;
    assert forall|k: int| 0 <= k < name.len() implies #[trigger] name[k] != '/' by {
        assert(item_id_char(name[k]));
    }
    lemma_split_char_plain(name, '/');
    assert(head.drop_last() =~= name);
    assert(head.last() == '/');
    assert(split_char(head, '/') =~= seq![name, Seq::<char>::empty()]);
    lemma_split_char_append_plain(head, id, '/');
    assert(rest =~= head + id);
    assert(split_char(rest, '/') =~= seq![name, id]);
    assert forall|k: int| 0 <= k < id.len() implies !seq!['?'].contains(#[trigger] id[k]) by {}
    lemma_prefix_until_whole(id, seq!['?']);
}

/// Reading back the URI of a Spotify item gives the same item: for an ID without `:`,
/// `spotify:<type>:<id>` is read as that item type and ID.
pub proof fn law_spotify_uri_round_trip(t: SpotifyEmbedType, id: Seq<char>)
    requires
        forall|k: int| 0 <= k < id.len() ==> #[trigger] id[k] != ':',
    ensures
        spotify_spec("spotify:"@ + spotify_type_name(t) + ":"@ + id) == SpotifyParse::Found(t, id),
{
    reveal_strlit("spotify:");
    reveal_strlit("spotify");
    reveal_strlit(":");
    let name = spotify_type_name(t);
    lemma_type_name_reads_back(t);
    let a0 = "spotify"@;
    let s1 = "spotify:"@;
    assert(s1 =~= a0.push(':'));
    assert forall|k: int| 0 <= k < a0.len() implies #[trigger] a0[k] != ':' by {}
    lemma_split_char_plain(a0, ':');
    assert(s1.drop_last() =~= a0);
    assert(split_char(s1, ':') =~= seq![a0, Seq::<char>::empty()]);
    assert forall|k: int| 0 <= k < name.len() implies #[trigger] name[k] != ':' by {
        assert(item_id_char(name[k]));
    }
    lemma_split_char_append_plain(s1, name, ':');
    let s2 = s1 + name;
    assert(split_char(s2, ':') =~= seq![a0, name]);
    let s3 = s2.push(':');
    assert(s3.drop_last() =~= s2);
    assert(split_char(s3, ':') =~= seq![a0, name, Seq::<char>::empty()]);
    lemma_split_char_append_plain(s3, id, ':');
    let url = s3 + id;
    assert(split_char(url, ':') =~= seq![a0, name, id]);
    assert(url =~= "spotify:"@ + name + ":"@ + id);
    assert(starts_with(url, "spotify:"@)) by {
        assert(url.take(8) =~= s1);
    }
}

} // verus!
