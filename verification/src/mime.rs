//! Content-type resolution from a file name's extension and from the leading
//! bytes of the content.

use crate::text::{bytes_eq, lemma_boundary_after_ascii};
use vstd::prelude::*;
use vstd::string::*;
use vstd::utf8::*;

verus! {

/// Whether `b` separates the segments of a path (`/` or `\`).
pub open spec fn is_path_sep(b: u8) -> bool {
    b == 0x2f || b == 0x5c
}

/// Scanning `path` backwards from index `end`: the index just after the first
/// `.` met, unless a path separator or the start of the path comes first.
pub open spec fn ext_start(path: Seq<u8>, end: int) -> Option<int>
    decreases end,
{
    if end <= 0 || end > path.len() {
        None
    } else if path[end - 1] == 0x2e {
        Some(end)
    } else if is_path_sep(path[end - 1]) {
        None
    } else {
        ext_start(path, end - 1)
    }
}

/// The extension of `path`: what follows the last `.` of its last segment.
pub open spec fn file_ext_bytes(path: Seq<u8>) -> Option<Seq<u8>> {
    match ext_start(path, path.len() as int) {
        Some(i) => Some(path.skip(i)),
        None => None,
    }
}

/// `ext_start` finds the one index that follows a `.` and has neither `.` nor
/// a path separator from there to `end`; it finds none exactly when no such
/// index exists.
pub proof fn lemma_ext_start(path: Seq<u8>, end: int)
    requires
        0 <= end <= path.len(),
    ensures
        match ext_start(path, end) {
            Some(i) => {
                &&& 0 < i <= end
                &&& path[i - 1] == 0x2e
                &&& forall|j: int| i <= j < end ==> path[j] != 0x2e && !is_path_sep(#[trigger] path[j])
            },
            None => forall|i: int|
                0 < i <= end && #[trigger] path[i - 1] == 0x2e ==> exists|j: int|
                    i <= j < end && is_path_sep(#[trigger] path[j]),
        },
    decreases end,
{
    if end > 0 && path[end - 1] != 0x2e {
        lemma_ext_start(path, end - 1);
        if is_path_sep(path[end - 1]) {
            assert forall|i: int| 0 < i <= end && #[trigger] path[i - 1] == 0x2e implies exists|
                j: int,
            | i <= j < end && is_path_sep(#[trigger] path[j]) by {
                assert(is_path_sep(path[end - 1]));
            }
        } else {
            match ext_start(path, end - 1) {
                Some(i) => {},
                None => {
                    assert forall|i: int|
                        0 < i <= end && #[trigger] path[i - 1] == 0x2e implies exists|j: int|
                        i <= j < end && is_path_sep(#[trigger] path[j]) by {
                        let j = choose|j: int| i <= j < end - 1 && is_path_sep(#[trigger] path[j]);
                        assert(is_path_sep(path[j]));
                    }
                },
            }
        }
    }
}

/// Finds where the extension of `path` starts, if it has one.
pub fn file_ext_start(path: &[u8]) -> (res: Option<usize>)
    ensures
        match res {
            Some(i) => ext_start(path@, path@.len() as int) == Some(i as int),
            None => ext_start(path@, path@.len() as int) is None,
        },
{
    let mut i: usize = path.len();
    while i > 0
        invariant
            i <= path@.len(),
            ext_start(path@, path@.len() as int) == ext_start(path@, i as int),
        decreases i,
    {
        let b = path[i - 1];
        if b == 0x2e {
            return Some(i);
        }
        if b == 0x2f || b == 0x5c {
            return None;
        }
        i -= 1;
    }
    None
}

/// Returns the extension of a file path, if it has one: the text after the
/// last `.` of the last path segment. A path that ends in `.` has the empty
/// extension.
pub fn file_ext(path: &str) -> (res: Option<&str>)
    ensures
        match res {
            Some(e) => file_ext_bytes(path.spec_bytes()) == Some(e.spec_bytes()),
            None => file_ext_bytes(path.spec_bytes()) is None,
        },
{
    let bytes = path.as_bytes();
    match file_ext_start(bytes) {
        Some(i) => {
            proof {
                encode_utf8_valid_utf8(path@);
                lemma_ext_start(path.spec_bytes(), path.spec_bytes().len() as int);
                lemma_boundary_after_ascii(path.spec_bytes(), i - 1);
            }
            let (_, ext) = path.split_at(i);
            Some(ext)
        },
        None => None,
    }
}

/// The view of an optional string.
pub open spec fn opt_str_view(o: Option<&str>) -> Option<Seq<char>> {
    match o {
        Some(s) => Some(s@),
        None => None,
    }
}

/// The table from file extension to content type. Extensions are matched
/// exactly, case included.
pub open spec fn ext_mime(ext: Seq<u8>) -> Option<Seq<char>> {
    if ext == "css".spec_bytes() {
        Some("text/css"@)
    } else if ext == "html".spec_bytes() || ext == "htm".spec_bytes() {
        Some("text/html"@)
    } else if ext == "js".spec_bytes() || ext == "mjs".spec_bytes() {
        Some("application/javascript"@)
    } else if ext == "json".spec_bytes() {
        Some("application/json"@)
    } else if ext == "jsonld".spec_bytes() {
        Some("application/ld+json"@)
    } else if ext == "wasm".spec_bytes() {
        Some("application/wasm"@)
    } else if ext == "webmanifest".spec_bytes() {
        Some("application/manifest+json"@)
    } else if ext == "xhtml".spec_bytes() {
        Some("application/xhtml+xml"@)
    } else if ext == "yaml".spec_bytes() || ext == "yml".spec_bytes() {
        Some("application/x-yaml"@)
    } else if ext == "toml".spec_bytes() {
        Some("application/toml"@)
    } else if ext == "ini".spec_bytes() {
        Some("text/plain"@)
    } else if ext == "sh".spec_bytes() {
        Some("application/x-sh"@)
    } else if ext == "bat".spec_bytes() {
        Some("application/x-bat"@)
    } else if ext == "cmd".spec_bytes() {
        Some("application/x-cmd"@)
    } else if ext == "avif".spec_bytes() {
        Some("image/avif"@)
    } else if ext == "apng".spec_bytes() {
        Some("image/apng"@)
    } else if ext == "bmp".spec_bytes() {
        Some("image/bmp"@)
    } else if ext == "png".spec_bytes() {
        Some("image/png"@)
    } else if ext == "jpg".spec_bytes() || ext == "jpeg".spec_bytes() {
        Some("image/jpeg"@)
    } else if ext == "gif".spec_bytes() {
        Some("image/gif"@)
    } else if ext == "ico".spec_bytes() {
        Some("image/vnd.microsoft.icon"@)
    } else if ext == "svg".spec_bytes() {
        Some("image/svg+xml"@)
    } else if ext == "tiff".spec_bytes() || ext == "tif".spec_bytes() {
        Some("image/tiff"@)
    } else if ext == "webp".spec_bytes() {
        Some("image/webp"@)
    } else if ext == "eot".spec_bytes() {
        Some("application/vnd.ms-fontobject"@)
    } else if ext == "otf".spec_bytes() {
        Some("font/otf"@)
    } else if ext == "ttf".spec_bytes() {
        Some("font/ttf"@)
    } else if ext == "woff".spec_bytes() {
        Some("font/woff"@)
    } else if ext == "woff2".spec_bytes() {
        Some("font/woff2"@)
    } else if ext == "atom".spec_bytes() {
        Some("application/atom+xml"@)
    } else if ext == "csv".spec_bytes() {
        Some("text/csv"@)
    } else if ext == "doc".spec_bytes() {
        Some("application/msword"@)
    } else if ext == "docx".spec_bytes() {
        Some("application/vnd.openxmlformats-officedocument.wordprocessingml.document"@)
    } else if ext == "ics".spec_bytes() {
        Some("text/calendar"@)
    } else if ext == "md".spec_bytes() {
        Some("text/markdown"@)
    } else if ext == "odp".spec_bytes() {
        Some("application/vnd.oasis.opendocument.presentation"@)
    } else if ext == "ods".spec_bytes() {
        Some("application/vnd.oasis.opendocument.spreadsheet"@)
    } else if ext == "odt".spec_bytes() {
        Some("application/vnd.oasis.opendocument.text"@)
    } else if ext == "pdf".spec_bytes() {
        Some("application/pdf"@)
    } else if ext == "ppt".spec_bytes() {
        Some("application/vnd.ms-powerpoint"@)
    } else if ext == "pptx".spec_bytes() {
        Some("application/vnd.openxmlformats-officedocument.presentationml.presentation"@)
    } else if ext == "rss".spec_bytes() {
        Some("application/rss+xml"@)
    } else if ext == "rtf".spec_bytes() {
        Some("application/rtf"@)
    } else if ext == "txt".spec_bytes() {
        Some("text/plain"@)
    } else if ext == "vsd".spec_bytes() {
        Some("application/vnd.visio"@)
    } else if ext == "xls".spec_bytes() {
        Some("application/vnd.ms-excel"@)
    } else if ext == "xlsx".spec_bytes() {
        Some("application/vnd.openxmlformats-officedocument.spreadsheetml.sheet"@)
    } else if ext == "xml".spec_bytes() {
        Some("application/xml"@)
    } else if ext == "7z".spec_bytes() {
        Some("application/x-7z-compressed"@)
    } else if ext == "bz2".spec_bytes() {
        Some("application/x-bzip2"@)
    } else if ext == "gz".spec_bytes() {
        Some("application/gzip"@)
    } else if ext == "jar".spec_bytes() {
        Some("application/java-archive"@)
    } else if ext == "mpkg".spec_bytes() {
        Some("application/vnd.apple.installer+xml"@)
    } else if ext == "rar".spec_bytes() {
        Some("application/vnd.rar"@)
    } else if ext == "tar".spec_bytes() {
        Some("application/x-tar"@)
    } else if ext == "war".spec_bytes() {
        Some("application/java-archive"@)
    } else if ext == "xz".spec_bytes() {
        Some("application/x-xz"@)
    } else if ext == "zip".spec_bytes() {
        Some("application/zip"@)
    } else if ext == "aac".spec_bytes() {
        Some("audio/aac"@)
    } else if ext == "flac".spec_bytes() {
        Some("audio/flac"@)
    } else if ext == "m4a".spec_bytes() {
        Some("audio/mp4"@)
    } else if ext == "mid".spec_bytes() || ext == "midi".spec_bytes() {
        Some("audio/midi"@)
    } else if ext == "mp3".spec_bytes() {
        Some("audio/mpeg"@)
    } else if ext == "oga".spec_bytes() {
        Some("audio/ogg"@)
    } else if ext == "opus".spec_bytes() {
        Some("audio/opus"@)
    } else if ext == "wav".spec_bytes() {
        Some("audio/wav"@)
    } else if ext == "weba".spec_bytes() {
        Some("audio/webm"@)
    } else if ext == "mp4".spec_bytes() || ext == "m4v".spec_bytes() {
        Some("video/mp4"@)
    } else if ext == "mpeg".spec_bytes() || ext == "mpg".spec_bytes() {
        Some("video/mpeg"@)
    } else if ext == "mkv".spec_bytes() {
        Some("video/x-matroska"@)
    } else if ext == "webm".spec_bytes() {
        Some("video/webm"@)
    } else if ext == "m3u8".spec_bytes() {
        Some("application/x-mpegURL"@)
    } else if ext == "ogg".spec_bytes() || ext == "ogx".spec_bytes() {
        Some("application/ogg"@)
    } else {
        None
    }
}

/// Looks an extension up in the table of known content types.
pub fn mime_for_ext(ext: &[u8]) -> (res: Option<&'static str>)
    ensures
        opt_str_view(res) == ext_mime(ext@),
{
    if bytes_eq(ext, "css".as_bytes()) {
        Some("text/css")
    } else if bytes_eq(ext, "html".as_bytes()) || bytes_eq(ext, "htm".as_bytes()) {
        Some("text/html")
    } else if bytes_eq(ext, "js".as_bytes()) || bytes_eq(ext, "mjs".as_bytes()) {
        Some("application/javascript")
    } else if bytes_eq(ext, "json".as_bytes()) {
        Some("application/json")
    } else if bytes_eq(ext, "jsonld".as_bytes()) {
        Some("application/ld+json")
    } else if bytes_eq(ext, "wasm".as_bytes()) {
        Some("application/wasm")
    } else if bytes_eq(ext, "webmanifest".as_bytes()) {
        Some("application/manifest+json")
    } else if bytes_eq(ext, "xhtml".as_bytes()) {
        Some("application/xhtml+xml")
    } else if bytes_eq(ext, "yaml".as_bytes()) || bytes_eq(ext, "yml".as_bytes()) {
        Some("application/x-yaml")
    } else if bytes_eq(ext, "toml".as_bytes()) {
        Some("application/toml")
    } else if bytes_eq(ext, "ini".as_bytes()) {
        Some("text/plain")
    } else if bytes_eq(ext, "sh".as_bytes()) {
        Some("application/x-sh")
    } else if bytes_eq(ext, "bat".as_bytes()) {
        Some("application/x-bat")
    } else if bytes_eq(ext, "cmd".as_bytes()) {
        Some("application/x-cmd")
    } else if bytes_eq(ext, "avif".as_bytes()) {
        Some("image/avif")
    } else if bytes_eq(ext, "apng".as_bytes()) {
        Some("image/apng")
    } else if bytes_eq(ext, "bmp".as_bytes()) {
        Some("image/bmp")
    } else if bytes_eq(ext, "png".as_bytes()) {
        Some("image/png")
    } else if bytes_eq(ext, "jpg".as_bytes()) || bytes_eq(ext, "jpeg".as_bytes()) {
        Some("image/jpeg")
    } else if bytes_eq(ext, "gif".as_bytes()) {
        Some("image/gif")
    } else if bytes_eq(ext, "ico".as_bytes()) {
        Some("image/vnd.microsoft.icon")
    } else if bytes_eq(ext, "svg".as_bytes()) {
        Some("image/svg+xml")
    } else if bytes_eq(ext, "tiff".as_bytes()) || bytes_eq(ext, "tif".as_bytes()) {
        Some("image/tiff")
    } else if bytes_eq(ext, "webp".as_bytes()) {
        Some("image/webp")
    } else if bytes_eq(ext, "eot".as_bytes()) {
        Some("application/vnd.ms-fontobject")
    } else if bytes_eq(ext, "otf".as_bytes()) {
        Some("font/otf")
    } else if bytes_eq(ext, "ttf".as_bytes()) {
        Some("font/ttf")
    } else if bytes_eq(ext, "woff".as_bytes()) {
        Some("font/woff")
    } else if bytes_eq(ext, "woff2".as_bytes()) {
        Some("font/woff2")
    } else if bytes_eq(ext, "atom".as_bytes()) {
        Some("application/atom+xml")
    } else if bytes_eq(ext, "csv".as_bytes()) {
        Some("text/csv")
    } else if bytes_eq(ext, "doc".as_bytes()) {
        Some("application/msword")
    } else if bytes_eq(ext, "docx".as_bytes()) {
        Some("application/vnd.openxmlformats-officedocument.wordprocessingml.document")
    } else if bytes_eq(ext, "ics".as_bytes()) {
        Some("text/calendar")
    } else if bytes_eq(ext, "md".as_bytes()) {
        Some("text/markdown")
    } else if bytes_eq(ext, "odp".as_bytes()) {
        Some("application/vnd.oasis.opendocument.presentation")
    } else if bytes_eq(ext, "ods".as_bytes()) {
        Some("application/vnd.oasis.opendocument.spreadsheet")
    } else if bytes_eq(ext, "odt".as_bytes()) {
        Some("application/vnd.oasis.opendocument.text")
    } else if bytes_eq(ext, "pdf".as_bytes()) {
        Some("application/pdf")
    } else if bytes_eq(ext, "ppt".as_bytes()) {
        Some("application/vnd.ms-powerpoint")
    } else if bytes_eq(ext, "pptx".as_bytes()) {
        Some("application/vnd.openxmlformats-officedocument.presentationml.presentation")
    } else if bytes_eq(ext, "rss".as_bytes()) {
        Some("application/rss+xml")
    } else if bytes_eq(ext, "rtf".as_bytes()) {
        Some("application/rtf")
    } else if bytes_eq(ext, "txt".as_bytes()) {
        Some("text/plain")
    } else if bytes_eq(ext, "vsd".as_bytes()) {
        Some("application/vnd.visio")
    } else if bytes_eq(ext, "xls".as_bytes()) {
        Some("application/vnd.ms-excel")
    } else if bytes_eq(ext, "xlsx".as_bytes()) {
        Some("application/vnd.openxmlformats-officedocument.spreadsheetml.sheet")
    } else if bytes_eq(ext, "xml".as_bytes()) {
        Some("application/xml")
    } else if bytes_eq(ext, "7z".as_bytes()) {
        Some("application/x-7z-compressed")
    } else if bytes_eq(ext, "bz2".as_bytes()) {
        Some("application/x-bzip2")
    } else if bytes_eq(ext, "gz".as_bytes()) {
        Some("application/gzip")
    } else if bytes_eq(ext, "jar".as_bytes()) {
        Some("application/java-archive")
    } else if bytes_eq(ext, "mpkg".as_bytes()) {
        Some("application/vnd.apple.installer+xml")
    } else if bytes_eq(ext, "rar".as_bytes()) {
        Some("application/vnd.rar")
    } else if bytes_eq(ext, "tar".as_bytes()) {
        Some("application/x-tar")
    } else if bytes_eq(ext, "war".as_bytes()) {
        Some("application/java-archive")
    } else if bytes_eq(ext, "xz".as_bytes()) {
        Some("application/x-xz")
    } else if bytes_eq(ext, "zip".as_bytes()) {
        Some("application/zip")
    } else if bytes_eq(ext, "aac".as_bytes()) {
        Some("audio/aac")
    } else if bytes_eq(ext, "flac".as_bytes()) {
        Some("audio/flac")
    } else if bytes_eq(ext, "m4a".as_bytes()) {
        Some("audio/mp4")
    } else if bytes_eq(ext, "mid".as_bytes()) || bytes_eq(ext, "midi".as_bytes()) {
        Some("audio/midi")
    } else if bytes_eq(ext, "mp3".as_bytes()) {
        Some("audio/mpeg")
    } else if bytes_eq(ext, "oga".as_bytes()) {
        Some("audio/ogg")
    } else if bytes_eq(ext, "opus".as_bytes()) {
        Some("audio/opus")
    } else if bytes_eq(ext, "wav".as_bytes()) {
        Some("audio/wav")
    } else if bytes_eq(ext, "weba".as_bytes()) {
        Some("audio/webm")
    } else if bytes_eq(ext, "mp4".as_bytes()) || bytes_eq(ext, "m4v".as_bytes()) {
        Some("video/mp4")
    } else if bytes_eq(ext, "mpeg".as_bytes()) || bytes_eq(ext, "mpg".as_bytes()) {
        Some("video/mpeg")
    } else if bytes_eq(ext, "mkv".as_bytes()) {
        Some("video/x-matroska")
    } else if bytes_eq(ext, "webm".as_bytes()) {
        Some("video/webm")
    } else if bytes_eq(ext, "m3u8".as_bytes()) {
        Some("application/x-mpegURL")
    } else if bytes_eq(ext, "ogg".as_bytes()) || bytes_eq(ext, "ogx".as_bytes()) {
        Some("application/ogg")
    } else {
        None
    }
}

/// The content type that the extension of `path` stands for.
pub open spec fn path_mime(path: Seq<u8>) -> Option<Seq<char>> {
    match file_ext_bytes(path) {
        Some(ext) => ext_mime(ext),
        None => None,
    }
}

/// Detects the content type of a file from the extension of its path.
pub fn detect_mime_type_ext(path: &str) -> (res: Option<&'static str>)
    ensures
        opt_str_view(res) == path_mime(path.spec_bytes()),
{
    match file_ext(path) {
        Some(ext) => mime_for_ext(ext.as_bytes()),
        None => None,
    }
}

} // verus!
