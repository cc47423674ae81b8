//! Content sniffing: what a buffer is, judged by its leading signature bytes
//! and never by anything the client says about it.

use vstd::prelude::*;

verus! {

/// The media categories the service accepts.
#[derive(Clone, Copy, Debug, PartialEq, Eq, Structural)]
pub enum Category {
    Image,
    Audio,
}

/// The format that signature matching found: its MIME type and the canonical
/// file extension (without a dot).
#[derive(Debug)]
pub struct FileKind {
    pub mime: String,
    pub extension: String,
}

impl View for FileKind {
    type V = (Seq<char>, Seq<char>);

    open spec fn view(&self) -> (Seq<char>, Seq<char>) {
        (self.mime@, self.extension@)
    }
}

/// Everything signature matching reports about one buffer.
#[derive(Debug)]
pub struct Sniff {
    /// Some image signature matches.
    pub image: bool,
    /// Some audio signature matches.
    pub audio: bool,
    /// The first format, of any category, whose signature matches.
    pub kind: Option<FileKind>,
}

/// Mathematical value of a [`Sniff`].
pub ghost struct SniffView {
    pub image: bool,
    pub audio: bool,
    pub kind: Option<(Seq<char>, Seq<char>)>,
}

impl View for Sniff {
    type V = SniffView;

    open spec fn view(&self) -> SniffView {
        SniffView {
            image: self.image,
            audio: self.audio,
            kind: match self.kind {
                Some(k) => Some(k@),
                None => None,
            },
        }
    }
}

/// An accepted buffer's category and concrete format.
#[derive(Debug)]
pub struct MediaKind {
    pub category: Category,
    pub extension: String,
    pub mime: String,
}

/// Mathematical value of a [`MediaKind`].
pub ghost struct MediaKindView {
    pub category: Category,
    pub extension: Seq<char>,
    pub mime: Seq<char>,
}

impl View for MediaKind {
    type V = MediaKindView;

    open spec fn view(&self) -> MediaKindView {
        MediaKindView { category: self.category, extension: self.extension@, mime: self.mime@ }
    }
}

/// The MIME type and extension of the first known format whose signature the
/// bytes carry, or `None` where no known signature matches.
pub uninterp spec fn signature_kind(bytes: Seq<u8>) -> Option<(Seq<char>, Seq<char>)>;

/// Whether the bytes carry the signature of a known image format.
pub uninterp spec fn image_signature(bytes: Seq<u8>) -> bool;

/// Whether the bytes carry the signature of a known audio format.
pub uninterp spec fn audio_signature(bytes: Seq<u8>) -> bool;

/// Calls `infer::get`. Trusted: the result is a function of the buffer's
/// contents alone, named [`signature_kind`]; the MIME type and extension are
/// copied out of the `infer::Type` it returns.
#[verifier::external_body]
fn detect_kind(bytes: &[u8]) -> (kind: Option<FileKind>)
    ensures
        kind.is_some() == signature_kind(bytes@).is_some(),
        kind matches Some(k) ==> Some(k@) == signature_kind(bytes@),
{
    match infer::get(bytes) {
        Some(t) => Some(
            FileKind { mime: t.mime_type().to_string(), extension: t.extension().to_string() },
        ),
        None => None,
    }
}

/// Calls `infer::is_image`. Trusted: the result is a function of the buffer's
/// contents alone, named [`image_signature`].
#[verifier::external_body]
fn detect_image(bytes: &[u8]) -> (found: bool)
    ensures
        found == image_signature(bytes@),
{
    infer::is_image(bytes)
}

/// Calls `infer::is_audio`. Trusted: the result is a function of the buffer's
/// contents alone, named [`audio_signature`].
#[verifier::external_body]
fn detect_audio(bytes: &[u8]) -> (found: bool)
    ensures
        found == audio_signature(bytes@),
{
    infer::is_audio(bytes)
}

/// What signature matching says of `bytes`.
pub open spec fn sniff_of(bytes: Seq<u8>) -> SniffView {
    SniffView {
        image: image_signature(bytes),
        audio: audio_signature(bytes),
        kind: signature_kind(bytes),
    }
}

/// Whether a report admits the buffer to the endpoint of `category`.
pub open spec fn admits(s: SniffView, category: Category) -> bool {
    s.kind.is_some() && match category {
        Category::Image => s.image,
        Category::Audio => s.audio,
    }
}

/// The kind under which a report admits a buffer to the endpoint of
/// `category`, if it does.
pub open spec fn kind_for(s: SniffView, category: Category) -> Option<MediaKindView> {
    if admits(s, category) {
        Some(
            MediaKindView {
                category,
                extension: s.kind.unwrap().1,
                mime: s.kind.unwrap().0,
            },
        )
    } else {
        None
    }
}

/// The kind of a buffer by its report: an image where an image signature
/// matches, else audio where an audio signature matches, else nothing.
pub open spec fn kind_of(s: SniffView) -> Option<MediaKindView> {
    if admits(s, Category::Image) {
        kind_for(s, Category::Image)
    } else {
        kind_for(s, Category::Audio)
    }
}

/// Runs signature matching over a fully assembled buffer.
pub fn sniff(bytes: &[u8]) -> (s: Sniff)
    ensures
        s@ == sniff_of(bytes@),
{
    let image = detect_image(bytes);
    let audio = detect_audio(bytes);
    let kind = detect_kind(bytes);
    Sniff { image, audio, kind }
}

/// Decides from a report whether the buffer belongs on the endpoint of
/// `category`, and under which format.
pub fn classify_for(s: &Sniff, category: Category) -> (kind: Option<MediaKind>)
    ensures
        kind.is_some() == admits(s@, category),
        kind matches Some(k) ==> Some(k@) == kind_for(s@, category),
{
    let flagged = match category {
        Category::Image => s.image,
        Category::Audio => s.audio,
    };
    if !flagged {
        return None;
    }
    match &s.kind {
        Some(k) => Some(
            MediaKind { category, extension: k.extension.clone(), mime: k.mime.clone() },
        ),
        None => None,
    }
}

/// Decides from a report what the buffer is: image first, then audio.
pub fn classify_sniff(s: &Sniff) -> (kind: Option<MediaKind>)
    ensures
        kind.is_some() == kind_of(s@).is_some(),
        kind matches Some(k) ==> Some(k@) == kind_of(s@),
{
    match classify_for(s, Category::Image) {
        Some(k) => Some(k),
        None => classify_for(s, Category::Audio),
    }
}

/// Classifies a buffer as image, audio or neither. The answer depends on
/// the buffer's contents alone, so equal buffers always classify alike.
pub fn classify(bytes: &[u8]) -> (kind: Option<MediaKind>)
    ensures
        kind.is_some() == kind_of(sniff_of(bytes@)).is_some(),
        kind matches Some(k) ==> Some(k@) == kind_of(sniff_of(bytes@)),
{
    let s = sniff(bytes);
    classify_sniff(&s)
}

} // verus!
