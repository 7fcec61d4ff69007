use app_core::link_preview::LinkPreview;
use app_core::embeds::{
    EmbedDetector, EmbedError, EmbedType, ExternalEmbed, LinkEmbed, SpotifyEmbed, SpotifyEmbedType,
    YouTubeEmbed, YouTubeThumbnailQuality,
};

#[test]
fn test_youtube_embed_creation() {
    let embed = YouTubeEmbed::new("dQw4w9WgXcQ");
    assert_eq!(embed.video_id, "dQw4w9WgXcQ");
    assert!(embed.title.is_none());
    assert!(embed.start_time.is_none());
}

#[test]
fn test_youtube_embed_url() {
    let embed = YouTubeEmbed::new("dQw4w9WgXcQ");
    assert_eq!(embed.embed_url(), "https://www.youtube.com/embed/dQw4w9WgXcQ");
}

#[test]
fn test_youtube_embed_url_with_start_time() {
    let mut embed = YouTubeEmbed::new("dQw4w9WgXcQ");
    embed.start_time = Some(42);
    assert_eq!(embed.embed_url(), "https://www.youtube.com/embed/dQw4w9WgXcQ?start=42");
}

#[test]
fn test_youtube_watch_url() {
    let embed = YouTubeEmbed::new("dQw4w9WgXcQ");
    assert_eq!(embed.watch_url(), "https://www.youtube.com/watch?v=dQw4w9WgXcQ");
}

#[test]
fn test_youtube_watch_url_with_start_time() {
    let mut embed = YouTubeEmbed::new("dQw4w9WgXcQ");
    embed.start_time = Some(42);
    assert_eq!(embed.watch_url(), "https://www.youtube.com/watch?v=dQw4w9WgXcQ&t=42s");
}

#[test]
fn test_youtube_thumbnail() {
    let embed = YouTubeEmbed::new("dQw4w9WgXcQ");
    assert_eq!(
        embed.get_thumbnail(YouTubeThumbnailQuality::High),
        "https://img.youtube.com/vi/dQw4w9WgXcQ/hqdefault.jpg"
    );
}

#[test]
fn test_detect_youtube_url() {
    assert!(EmbedDetector::is_youtube_url("https://www.youtube.com/watch?v=dQw4w9WgXcQ"));
    assert!(EmbedDetector::is_youtube_url("https://youtu.be/dQw4w9WgXcQ"));
    assert!(!EmbedDetector::is_youtube_url("https://example.com"));
}

#[test]
fn test_parse_youtube_standard_url() {
    let embed =
        EmbedDetector::parse_youtube("https://www.youtube.com/watch?v=dQw4w9WgXcQ").unwrap();
    assert_eq!(embed.video_id, "dQw4w9WgXcQ");
}

#[test]
fn test_parse_youtube_short_url() {
    let embed = EmbedDetector::parse_youtube("https://youtu.be/dQw4w9WgXcQ").unwrap();
    assert_eq!(embed.video_id, "dQw4w9WgXcQ");
}

#[test]
fn test_parse_youtube_embed_url() {
    let embed =
        EmbedDetector::parse_youtube("https://www.youtube.com/embed/dQw4w9WgXcQ").unwrap();
    assert_eq!(embed.video_id, "dQw4w9WgXcQ");
}

#[test]
fn test_parse_youtube_with_timestamp() {
    let embed =
        EmbedDetector::parse_youtube("https://www.youtube.com/watch?v=dQw4w9WgXcQ&t=42s")
            .unwrap();
    assert_eq!(embed.video_id, "dQw4w9WgXcQ");
    assert_eq!(embed.start_time, Some(42));
}

#[test]
fn test_parse_youtube_with_start_param() {
    let embed =
        EmbedDetector::parse_youtube("https://www.youtube.com/watch?v=dQw4w9WgXcQ&start=100")
            .unwrap();
    assert_eq!(embed.video_id, "dQw4w9WgXcQ");
    assert_eq!(embed.start_time, Some(100));
}

// Spotify tests

#[test]
fn test_spotify_embed_creation() {
    let embed = SpotifyEmbed::new(SpotifyEmbedType::Track, "3n3Ppam7vgaVa1iaRUc9Lp");
    assert_eq!(embed.embed_type, SpotifyEmbedType::Track);
    assert_eq!(embed.id, "3n3Ppam7vgaVa1iaRUc9Lp");
}

#[test]
fn test_spotify_embed_url() {
    let embed = SpotifyEmbed::new(SpotifyEmbedType::Track, "3n3Ppam7vgaVa1iaRUc9Lp");
    assert_eq!(
        embed.embed_url(),
        "https://open.spotify.com/embed/track/3n3Ppam7vgaVa1iaRUc9Lp"
    );
}

#[test]
fn test_spotify_open_url() {
    let embed = SpotifyEmbed::new(SpotifyEmbedType::Playlist, "37i9dQZF1DXcBWIGoYBM5M");
    assert_eq!(embed.open_url(), "https://open.spotify.com/playlist/37i9dQZF1DXcBWIGoYBM5M");
}

#[test]
fn test_detect_spotify_url() {
    assert!(EmbedDetector::is_spotify_url("https://open.spotify.com/track/123"));
    assert!(EmbedDetector::is_spotify_url("spotify:track:123"));
    assert!(!EmbedDetector::is_spotify_url("https://example.com"));
}

#[test]
fn test_parse_spotify_url_track() {
    let embed =
        EmbedDetector::parse_spotify("https://open.spotify.com/track/3n3Ppam7vgaVa1iaRUc9Lp")
            .unwrap();
    assert_eq!(embed.embed_type, SpotifyEmbedType::Track);
    assert_eq!(embed.id, "3n3Ppam7vgaVa1iaRUc9Lp");
}

#[test]
fn test_parse_spotify_url_playlist() {
    let embed = EmbedDetector::parse_spotify(
        "https://open.spotify.com/playlist/37i9dQZF1DXcBWIGoYBM5M",
    )
    .unwrap();
    assert_eq!(embed.embed_type, SpotifyEmbedType::Playlist);
    assert_eq!(embed.id, "37i9dQZF1DXcBWIGoYBM5M");
}

#[test]
fn test_parse_spotify_uri() {
    let embed = EmbedDetector::parse_spotify("spotify:track:3n3Ppam7vgaVa1iaRUc9Lp").unwrap();
    assert_eq!(embed.embed_type, SpotifyEmbedType::Track);
    assert_eq!(embed.id, "3n3Ppam7vgaVa1iaRUc9Lp");
}

#[test]
fn test_parse_spotify_album() {
    let embed =
        EmbedDetector::parse_spotify("https://open.spotify.com/album/1DFixLWuPkv3KT3TnV35m3")
            .unwrap();
    assert_eq!(embed.embed_type, SpotifyEmbedType::Album);
    assert_eq!(embed.id, "1DFixLWuPkv3KT3TnV35m3");
}

// Link embed tests

#[test]
fn test_link_embed_creation() {
    let preview = LinkPreview::new("https://example.com");
    let embed = LinkEmbed::new(preview);
    assert_eq!(embed.url(), "https://example.com");
}

// External embed tests

#[test]
fn test_external_embed_youtube() {
    let youtube = YouTubeEmbed::new("dQw4w9WgXcQ");
    let embed = ExternalEmbed::YouTube(youtube);

    assert_eq!(embed.embed_type(), EmbedType::YouTube);
    assert!(embed.is_youtube());
    assert!(!embed.is_spotify());
    assert!(!embed.is_link());
    assert!(embed.as_youtube().is_some());
}

#[test]
fn test_external_embed_spotify() {
    let spotify = SpotifyEmbed::new(SpotifyEmbedType::Track, "123");
    let embed = ExternalEmbed::Spotify(spotify);

    assert_eq!(embed.embed_type(), EmbedType::Spotify);
    assert!(!embed.is_youtube());
    assert!(embed.is_spotify());
    assert!(!embed.is_link());
    assert!(embed.as_spotify().is_some());
}

#[test]
fn test_external_embed_link() {
    let preview = LinkPreview::new("https://example.com");
    let link = LinkEmbed::new(preview);
    let embed = ExternalEmbed::Link(link);

    assert_eq!(embed.embed_type(), EmbedType::Link);
    assert!(!embed.is_youtube());
    assert!(!embed.is_spotify());
    assert!(embed.is_link());
    assert!(embed.as_link().is_some());
}

// Detector tests

#[test]
fn test_detect_embed_type() {
    assert_eq!(
        EmbedDetector::detect("https://www.youtube.com/watch?v=dQw4w9WgXcQ"),
        Some(EmbedType::YouTube)
    );
    assert_eq!(
        EmbedDetector::detect("https://open.spotify.com/track/123"),
        Some(EmbedType::Spotify)
    );
    assert_eq!(EmbedDetector::detect("https://example.com"), Some(EmbedType::Link));
}

#[test]
fn test_parse_youtube_url() {
    let embed = EmbedDetector::parse("https://www.youtube.com/watch?v=dQw4w9WgXcQ").unwrap();
    assert!(embed.is_youtube());
    assert_eq!(embed.as_youtube().unwrap().video_id, "dQw4w9WgXcQ");
}

#[test]
fn test_parse_spotify_url_full() {
    let embed = EmbedDetector::parse("https://open.spotify.com/track/123").unwrap();
    assert!(embed.is_spotify());
    assert_eq!(embed.as_spotify().unwrap().id, "123");
}

#[test]
fn test_parse_generic_url() {
    let embed = EmbedDetector::parse("https://example.com").unwrap();
    assert!(embed.is_link());
    assert_eq!(embed.as_link().unwrap().url(), "https://example.com");
}

#[test]
fn test_embed_type_as_str() {
    assert_eq!(EmbedType::YouTube.as_str(), "youtube");
    assert_eq!(EmbedType::Spotify.as_str(), "spotify");
    assert_eq!(EmbedType::Link.as_str(), "link");
}

#[test]
fn test_spotify_embed_type_as_str() {
    assert_eq!(SpotifyEmbedType::Track.as_str(), "track");
    assert_eq!(SpotifyEmbedType::Album.as_str(), "album");
    assert_eq!(SpotifyEmbedType::Playlist.as_str(), "playlist");
}

#[test]
fn test_youtube_thumbnail_quality() {
    assert_eq!(YouTubeThumbnailQuality::Default.filename(), "default.jpg");
    assert_eq!(YouTubeThumbnailQuality::High.filename(), "hqdefault.jpg");
    assert_eq!(YouTubeThumbnailQuality::MaxRes.filename(), "maxresdefault.jpg");
}

#[test]
fn test_embed_error_display() {
    let error = EmbedError::InvalidUrl("bad url".to_string());
    assert!(error.to_string().contains("Invalid URL"));

    let error = EmbedError::MissingId;
    assert!(error.to_string().contains("Missing embed ID"));
}
