//! The decoded player response, the choice of an audio stream, and the
//! assembly of the durable `AudioData` record.
use vstd::prelude::*;
use vstd::string::StringExecFns;
use crate::caption::{chosen_caption, select_caption, CaptionItem};
use crate::numbers::{decimal_u64, parse_u64};
use crate::text::{chars_of, has_at, has_at_exec};

verus! {

/// One adaptive format of the player response, numbers as written there.
pub struct Format {
    pub mime_type: String,
    pub bitrate: u32,
    pub url: String,
    pub content_length: String,
    pub last_modified: String,
}

/// The details of a video that the player response carries.
pub struct VideoDetail {
    pub title: String,
    pub length_seconds: String,
    pub keywords: Option<Vec<String>>,
    pub short_description: Option<String>,
}

/// The parts of the player response that the record is built from.
pub struct PlayerResponse {
    pub adaptive_formats: Option<Vec<Format>>,
    pub caption_tracks: Option<Vec<CaptionItem>>,
    pub video_details: VideoDetail,
}

/// An audio link resolved by an external service.
pub struct AudioStream {
    pub url: String,
    pub filesize: u64,
    pub mime_type: String,
}

/// The failures of the metadata pipeline.
#[derive(Clone, Copy, Debug, PartialEq, Eq, Structural)]
pub enum PipelineError {
    /// The URL carries no video identifier.
    InvalidUrl,
    /// An anchor was missing from the watch page or the player script.
    AuthExtractionFailed(crate::auth::AuthError),
    /// The player response could not be had or decoded.
    MetadataUnavailable,
    /// The player response lists no audio format.
    NoAudioFormat,
}

/// The durable record of one video.
pub struct AudioData {
    pub video_id: String,
    pub title: String,
    pub duration: u64,
    pub timestamp: u64,
    pub keywords: Option<Vec<String>>,
    pub description: Option<String>,
    pub caption_lang: Option<String>,
    pub caption_url: Option<String>,
    pub audio_url: String,
    pub audio_filesize: u64,
    pub thumbnail_url: String,
    pub mime_type: String,
}

/// A format whose MIME type starts with `audio`.
pub open spec fn is_audio(f: Format) -> bool {
    has_at(f.mime_type@, 0, "audio"@)
}

/// `k` is the audio format of least bitrate, the first such in order.
pub open spec fn is_best_audio(fs: Seq<Format>, k: int) -> bool {
    &&& 0 <= k < fs.len()
    &&& is_audio(fs[k])
    &&& forall|j: int| 0 <= j < fs.len() && is_audio(#[trigger] fs[j]) ==> fs[k].bitrate <= fs[j].bitrate
    &&& forall|j: int| 0 <= j < k && is_audio(#[trigger] fs[j]) ==> fs[k].bitrate < fs[j].bitrate
}

/// The format that the stream selector takes, if any is audio.
pub open spec fn best_audio(fs: Seq<Format>) -> Option<int> {
    if exists|k: int| is_best_audio(fs, k) {
        Some(choose|k: int| is_best_audio(fs, k))
    } else {
        None
    }
}

/// The best audio format is unique.
pub proof fn lemma_best_audio_unique(fs: Seq<Format>, a: int, b: int)
    requires
        is_best_audio(fs, a),
        is_best_audio(fs, b),
    ensures
        a == b,
{
    if a < b {
        assert(is_audio(fs[a]));
    } else if b < a {
        assert(is_audio(fs[b]));
    }
}

fn is_audio_exec(f: &Format) -> (r: bool)
    ensures
        r == is_audio(*f),
{
    let cs = chars_of(f.mime_type.as_str());
    has_at_exec(&cs, 0, "audio")
}

/// Index of the audio format of least bitrate (the first of equals), or
/// `None` where no format is audio.
pub fn select_audio_format(formats: &Vec<Format>) -> (r: Option<usize>)
    ensures
        r matches Some(k) ==> is_best_audio(formats@, k as int) && best_audio(formats@) == Some(
            k as int,
        ),
        r is None ==> best_audio(formats@) is None && forall|j: int|
            0 <= j < formats.len() ==> !is_audio(#[trigger] formats@[j]),
{
    let mut best: Option<usize> = None;
    let mut i: usize = 0;
    while i < formats.len()
        invariant
            i <= formats.len(),
            best is None ==> forall|j: int| 0 <= j < i ==> !is_audio(#[trigger] formats@[j]),
            best matches Some(k) ==> k < i && is_audio(formats@[k as int]) && (forall|j: int|
                0 <= j < i && is_audio(#[trigger] formats@[j]) ==> formats@[k as int].bitrate
                    <= formats@[j].bitrate) && (forall|j: int|
                0 <= j < k && is_audio(#[trigger] formats@[j]) ==> formats@[k as int].bitrate
                    < formats@[j].bitrate),
        decreases formats.len() - i,
    {
        if is_audio_exec(&formats[i]) {
            match best {
                None => {
                    best = Some(i);
                },
                Some(k) => {
                    if formats[i].bitrate < formats[k].bitrate {
                        best = Some(i);
                    }
                },
            }
        }
        i = i + 1;
    }
    match best {
        Some(k) => {
            proof {
                assert(is_best_audio(formats@, k as int));
                let c = choose|c: int| is_best_audio(formats@, c);
                lemma_best_audio_unique(formats@, c, k as int);
            }
            Some(k)
        },
        None => {
            assert(forall|k: int| !is_best_audio(formats@, k));
            None
        },
    }
}

/// The URL of a video's standard-definition thumbnail.
pub open spec fn thumbnail_of(video_id: Seq<char>) -> Seq<char> {
    "https://i.ytimg.com/vi/"@ + video_id + "/sddefault.jpg"@
}

/// The canonical watch-page URL of a video.
pub open spec fn watch_url_of(video_id: Seq<char>) -> Seq<char> {
    "https://www.youtube.com/watch?v="@ + video_id
}

/// The thumbnail URL derived from a video identifier; never fetched here.
pub fn thumbnail_url(video_id: &str) -> (r: String)
    ensures
        r@ == thumbnail_of(video_id@),
{
    let mut u = "https://i.ytimg.com/vi/".to_owned();
    u.append(video_id);
    u.append("/sddefault.jpg");
    u
}

/// The canonical watch-page URL of a video.
pub fn watch_url(video_id: &str) -> (r: String)
    ensures
        r@ == watch_url_of(video_id@),
{
    let mut u = "https://www.youtube.com/watch?v=".to_owned();
    u.append(video_id);
    u
}

/// The adaptive formats of a response; none where the list is absent.
pub open spec fn formats_of(resp: PlayerResponse) -> Seq<Format> {
    match resp.adaptive_formats {
        Some(v) => v@,
        None => Seq::empty(),
    }
}

/// The caption track that the caption selector takes from a response.
pub open spec fn caption_of(resp: PlayerResponse) -> Option<CaptionItem> {
    match resp.caption_tracks {
        Some(t) => match chosen_caption(t@) {
            Some(i) => Some(t@[i]),
            None => None,
        },
        None => None,
    }
}

/// The file size that a format's content length gives: 0 where it does
/// not read as a number.
pub open spec fn filesize_of(f: Format) -> u64 {
    match decimal_u64(f.content_length@) {
        Some(n) => n,
        None => 0,
    }
}

/// Whether an external resolver is to be asked for the audio link: no
/// caption track is taken and a resolver is configured.
pub fn wants_external_audio(response: &PlayerResponse, resolver_configured: bool) -> (r: bool)
    ensures
        r == (caption_of(*response) is None && resolver_configured),
{
    if !resolver_configured {
        return false;
    }
    match &response.caption_tracks {
        Some(t) => select_caption(t).is_none(),
        None => true,
    }
}

/// Builds the record of a video from its decoded player response.
///
/// The audio link comes from the best audio format, or from `external`
/// where no caption track is taken and an external link was resolved;
/// url, size and MIME type always come from the same source.
pub fn audio_data_from_response(
    video_id: &str,
    response: PlayerResponse,
    external: Option<AudioStream>,
) -> (r: Result<AudioData, PipelineError>)
    ensures
        best_audio(formats_of(response)) is None <==> r == Err::<AudioData, PipelineError>(
            PipelineError::NoAudioFormat,
        ),
        best_audio(formats_of(response)) matches Some(k) ==> {
            let f = formats_of(response)[k];
            let details = response.video_details;
            match (decimal_u64(details.length_seconds@), decimal_u64(f.last_modified@)) {
                (Some(duration), Some(timestamp)) => r matches Ok(d) && {
                    &&& d.video_id@ == video_id@
                    &&& d.title@ == details.title@
                    &&& d.duration == duration
                    &&& d.timestamp == timestamp
                    &&& d.keywords == details.keywords
                    &&& d.description == details.short_description
                    &&& d.thumbnail_url@ == thumbnail_of(video_id@)
                    &&& match caption_of(response) {
                        Some(c) => (d.caption_lang matches Some(l) && l@ == c.vss_id@) && (
                        d.caption_url matches Some(u) && u@ == c.base_url@),
                        None => d.caption_lang is None && d.caption_url is None,
                    }
                    &&& match (caption_of(response), external) {
                        (None, Some(a)) => d.audio_url@ == a.url@ && d.audio_filesize
                            == a.filesize && d.mime_type@ == a.mime_type@,
                        _ => d.audio_url@ == f.url@ && d.audio_filesize == filesize_of(f)
                            && d.mime_type@ == f.mime_type@,
                    }
                },
                _ => r == Err::<AudioData, PipelineError>(PipelineError::MetadataUnavailable),
            }
        },
{
    let PlayerResponse { adaptive_formats, caption_tracks, video_details } = response;
    let formats = match adaptive_formats {
        Some(v) => v,
        None => Vec::new(),
    };
    let k = match select_audio_format(&formats) {
        Some(k) => k,
        None => {
            return Err(PipelineError::NoAudioFormat);
        },
    };
    let duration = match parse_u64(video_details.length_seconds.as_str()) {
        Some(n) => n,
        None => {
            return Err(PipelineError::MetadataUnavailable);
        },
    };
    let timestamp = match parse_u64(formats[k].last_modified.as_str()) {
        Some(n) => n,
        None => {
            return Err(PipelineError::MetadataUnavailable);
        },
    };
    let (caption_url, caption_lang) = match &caption_tracks {
        Some(t) => match select_caption(t) {
            Some(i) => (Some(t[i].base_url.clone()), Some(t[i].vss_id.clone())),
            None => (None, None),
        },
        None => (None, None),
    };
    let local_size = match parse_u64(formats[k].content_length.as_str()) {
        Some(n) => n,
        None => 0,
    };
    let (audio_url, audio_filesize, mime_type) = match (&caption_lang, external) {
        (None, Some(a)) => (a.url, a.filesize, a.mime_type),
        _ => (formats[k].url.clone(), local_size, formats[k].mime_type.clone()),
    };
    let thumbnail_url = thumbnail_url(video_id);
    Ok(AudioData {
        video_id: video_id.to_owned(),
        title: video_details.title,
        duration,
        timestamp,
        keywords: video_details.keywords,
        description: video_details.short_description,
        caption_lang,
        caption_url,
        audio_url,
        audio_filesize,
        thumbnail_url,
        mime_type,
    })
}

} // verus!
