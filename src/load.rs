//! What to do with a file: its type from its sniffed media type, and whether
//! its size lets it be decoded or extracted.
use vstd::prelude::*;

use crate::config::MaxFileSize;
use crate::extract::ZipError;
use crate::humane_bytes::HumaneBytes;
use crate::text::{has_prefix, same_text};

verus! {

/// The kinds of file that are told apart.
#[derive(PartialEq, Eq, Structural, Debug, Clone, Copy)]
pub enum FileType {
    Video,
    AnimatedImage,
    Image,
    Zip,
}

/// Why a file could not be shown.
#[derive(Debug)]
pub enum Error {
    /// The file is longer than the limit `size` for its type.
    FileTooBig { path: String, type_: FileType, size: HumaneBytes },
    /// Reading the file failed.
    Io { path: String, cause: String },
    /// The media type of the file's content could not be determined.
    Sniff { path: String, cause: String },
    /// The sniffed media type `detected` is none that can be shown.
    UnsupportedMimeType { path: String, detected: String },
    /// Files of this type are recognized but cannot be shown.
    Unsupported(FileType),
    /// The image decoder refused the file.
    Decode { path: String, cause: String },
    /// The archive could not be extracted.
    Unzip { path: String, reason: ZipError },
}

/// What may be done with a file that passed the checks.
#[derive(PartialEq, Eq, Structural, Debug, Clone, Copy)]
pub enum LoadPlan {
    /// Decode it as an image of this type.
    Decode(FileType),
    /// Extract it as an archive.
    Extract,
}

/// The media type that the `mime` crate parses from `s`, in its normalized
/// text, or `None` where `s` is no media type.
pub uninterp spec fn mime_of(s: Seq<char>) -> Option<Seq<char>>;

/// Relies on `mime::Mime`'s `FromStr` and `AsRef<str>`: parses a media type
/// and gives back its text, with type and subtype in lower case.
#[verifier::external_body]
fn parse_mime(s: &str) -> (r: Option<String>)
    ensures
        match r {
            Some(t) => mime_of(s@) == Some(t@),
            None => mime_of(s@) is None,
        },
{
    match s.parse::<mime::Mime>() {
        Ok(m) => Some(m.as_ref().to_owned()),
        Err(_) => None,
    }
}

/// The type of a file with the normalized media type `t`: GIF is animated,
/// any other `image/` is an image, any `video/` a video, `application/zip`
/// an archive; anything else is none.
pub open spec fn kind_of_mime(t: Seq<char>) -> Option<FileType> {
    if t == "image/gif"@ {
        Some(FileType::AnimatedImage)
    } else if t.len() >= 6 && t.subrange(0, 6) == "image/"@ {
        Some(FileType::Image)
    } else if t.len() >= 6 && t.subrange(0, 6) == "video/"@ {
        Some(FileType::Video)
    } else if t == "application/zip"@ {
        Some(FileType::Zip)
    } else {
        None
    }
}

/// The type of the file at `path` whose sniffed media type is `detected`,
/// which parses to `parsed`.
pub open spec fn sniff_result(path: String, detected: String, parsed: Option<Seq<char>>) -> Result<
    FileType,
    Error,
> {
    match parsed {
        Some(t) => match kind_of_mime(t) {
            Some(k) => Ok(k),
            None => Err(Error::UnsupportedMimeType { path, detected }),
        },
        None => Err(Error::UnsupportedMimeType { path, detected }),
    }
}

/// What may be done with the file at `path`, `file_size` bytes long, of type
/// `t`: an image or an archive longer than its limit is refused, a video is
/// not supported.
pub open spec fn size_verdict(path: String, file_size: u64, t: FileType, max: MaxFileSize) -> Result<
    LoadPlan,
    Error,
> {
    match t {
        FileType::Zip => if file_size > max.zip.0 {
            Err(Error::FileTooBig { path, type_: t, size: max.zip })
        } else {
            Ok(LoadPlan::Extract)
        },
        FileType::Video => Err(Error::Unsupported(t)),
        _ => if file_size > max.img.0 {
            Err(Error::FileTooBig { path, type_: t, size: max.img })
        } else {
            Ok(LoadPlan::Decode(t))
        },
    }
}

impl FileType {
    pub open spec fn spec_name(self) -> Seq<char> {
        match self {
            FileType::Video => "video"@,
            FileType::AnimatedImage => "gif"@,
            FileType::Image => "image"@,
            FileType::Zip => "zip"@,
        }
    }

    /// A short name of the type, for messages.
    pub fn name(&self) -> (r: &'static str)
        ensures
            r@ == self.spec_name(),
    {
        match self {
            FileType::Video => "video",
            FileType::AnimatedImage => "gif",
            FileType::Image => "image",
            FileType::Zip => "zip",
        }
    }
}

/// The type of the file at `path` given what its media type `detected`
/// parsed to; see [`kind_of_mime`].
pub fn classify_mime(path: &String, detected: &String, parsed: Option<String>) -> (r: Result<
    FileType,
    Error,
>)
    ensures
        r == sniff_result(
            *path,
            *detected,
            match parsed {
                Some(t) => Some(t@),
                None => None,
            },
        ),
{
    let t = match parsed {
        Some(t) => t,
        None => {
            return Err(Error::UnsupportedMimeType { path: path.clone(), detected: detected.clone() });
        },
    };
    let t = t.as_str();
    proof {
        reveal_strlit("image/gif");
        reveal_strlit("image/");
        reveal_strlit("video/");
        reveal_strlit("application/zip");
    }
    if same_text(t, "image/gif") {
        Ok(FileType::AnimatedImage)
    } else if has_prefix(t, "image/") {
        Ok(FileType::Image)
    } else if has_prefix(t, "video/") {
        Ok(FileType::Video)
    } else if same_text(t, "application/zip") {
        Ok(FileType::Zip)
    } else {
        Err(Error::UnsupportedMimeType { path: path.clone(), detected: detected.clone() })
    }
}

/// The type of the file at `path` whose content was sniffed as the media
/// type `detected`. The sniffed content decides, never the file's name.
pub fn guess_file_type(path: &String, detected: &String) -> (r: Result<FileType, Error>)
    ensures
        r == sniff_result(*path, *detected, mime_of(detected@)),
{
    let parsed = parse_mime(detected.as_str());
    classify_mime(path, detected, parsed)
}

/// What may be done with the file at `path`, `file_size` bytes long, of type
/// `file_type`, under the limits `max`.
pub fn check_size(path: &String, file_size: u64, file_type: FileType, max: &MaxFileSize) -> (r:
    Result<LoadPlan, Error>)
    ensures
        r == size_verdict(*path, file_size, file_type, *max),
{
    match file_type {
        FileType::Zip => {
            if file_size > max.zip.0 {
                Err(Error::FileTooBig { path: path.clone(), type_: file_type, size: max.zip })
            } else {
                Ok(LoadPlan::Extract)
            }
        },
        FileType::Video => Err(Error::Unsupported(file_type)),
        _ => {
            if file_size > max.img.0 {
                Err(Error::FileTooBig { path: path.clone(), type_: file_type, size: max.img })
            } else {
                Ok(LoadPlan::Decode(file_type))
            }
        },
    }
}

/// What may be done with the file at `path`, `file_size` bytes long, whose
/// leading bytes were sniffed as the media type `detected`: first its type,
/// then its size against the limit for that type.
pub fn plan_load(path: &String, file_size: u64, detected: &String, max: &MaxFileSize) -> (r: Result<
    LoadPlan,
    Error,
>)
    ensures
        r == match sniff_result(*path, *detected, mime_of(detected@)) {
            Ok(t) => size_verdict(*path, file_size, t, *max),
            Err(e) => Err(e),
        },
{
    let file_type = guess_file_type(path, detected)?;
    check_size(path, file_size, file_type, max)
}

/// A file longer than the limit for its type is refused as too big, and is
/// neither decoded nor extracted.
pub proof fn law_size_limit(path: String, file_size: u64, t: FileType, max: MaxFileSize)
    requires
        t == FileType::Zip ==> file_size > max.zip.0,
        (t == FileType::Image || t == FileType::AnimatedImage) ==> file_size > max.img.0,
        t != FileType::Video,
    ensures
        size_verdict(path, file_size, t, max) matches Err(Error::FileTooBig { type_, .. })
            && type_ == t,
{
}

} // verus!
