use vstd::prelude::*;

verus! {

/// A file attached to a chat message.
#[derive(Debug, PartialEq, Eq)]
pub struct Attachment {
    /// The declared media type, such as `image/png`, when the platform gave one.
    pub content_type: Option<String>,
    pub url: String,
    pub width: Option<u64>,
    pub height: Option<u64>,
}

/// The image or the thumbnail of a link-preview embed.
#[derive(Debug, PartialEq, Eq)]
pub struct EmbedMedia {
    pub url: String,
    pub width: Option<u64>,
    pub height: Option<u64>,
}

/// A link preview attached to a chat message.
#[derive(Debug, PartialEq, Eq)]
pub struct Embed {
    /// The link that the preview is for.
    pub url: Option<String>,
    pub image: Option<EmbedMedia>,
    pub thumbnail: Option<EmbedMedia>,
}

/// Where a media reference was found in a message.
#[derive(PartialEq, Eq, Structural, Clone, Copy, Debug)]
pub enum MediaKind {
    Attachment,
    Embed,
}

/// One normalized media reference, as it is stored in a gallery post.
///
/// Dimensions that do not fit an `i32` are absent.
#[derive(Debug, PartialEq, Eq)]
pub struct MediaReference {
    pub kind: MediaKind,
    pub source_url: Option<String>,
    pub media_url: Option<String>,
    pub media_width: Option<i32>,
    pub media_height: Option<i32>,
    pub thumbnail_url: Option<String>,
    pub thumbnail_width: Option<i32>,
    pub thumbnail_height: Option<i32>,
}

pub(crate) fn copy_text(o: &Option<String>) -> (r: Option<String>)
    ensures
        r == *o,
{
    match o {
        Some(s) => Some(s.clone()),
        None => None,
    }
}

impl MediaReference {
    /// A field-by-field copy.
    pub fn duplicate(&self) -> (r: MediaReference)
        ensures
            r == *self,
    {
        MediaReference {
            kind: self.kind,
            source_url: copy_text(&self.source_url),
            media_url: copy_text(&self.media_url),
            media_width: self.media_width,
            media_height: self.media_height,
            thumbnail_url: copy_text(&self.thumbnail_url),
            thumbnail_width: self.thumbnail_width,
            thumbnail_height: self.thumbnail_height,
        }
    }
}

} // verus!
