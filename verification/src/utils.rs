//! String helpers and file-type classification: character-exact string
//! comparison, ASCII case folding, extension extraction, and the
//! extension tables for file types and audio codecs.
use crate::MediaError;
use vstd::prelude::*;
use vstd::string::StrSliceExecFns;

verus! {

/// Compare two string slices character by character.
pub fn str_eq(a: &str, b: &str) -> (r: bool)
    ensures
        r == (a@ == b@),
{
    let la = a.unicode_len();
    let lb = b.unicode_len();
    if la != lb {
        return false;
    }
    let mut i: usize = 0;
    while i < la
        invariant
            a@.len() == la,
            b@.len() == la,
            i <= la,
            forall|k: int| 0 <= k < i ==> a@[k] == b@[k],
        decreases la - i,
    {
        if a.get_char(i) != b.get_char(i) {
            return false;
        }
        i += 1;
    }
    proof {
        assert(a@ =~= b@);
    }
    true
}

/// An ASCII upper-case letter folded to lower case; any other
/// character is untouched.
pub open spec fn lower_char(c: char) -> char {
    if 65 <= c as u32 && c as u32 <= 90 {
        ((c as u32) + 32) as char
    } else {
        c
    }
}

/// A character sequence with every ASCII upper-case letter folded to
/// lower case.
pub open spec fn lower_seq(s: Seq<char>) -> Seq<char> {
    Seq::new(s.len(), |i: int| lower_char(s[i]))
}

fn lower_char_exec(c: char) -> (r: char)
    ensures
        r == lower_char(c),
{
    let v = c as u32;
    if 65 <= v && v <= 90 {
        ((v + 32) as u8) as char
    } else {
        c
    }
}

/// Compare a string against an all-lower-case pattern, folding ASCII
/// case on the left side only.
pub fn str_ieq(a: &str, lower: &str) -> (r: bool)
    ensures
        r == (lower_seq(a@) == lower@),
{
    let la = a.unicode_len();
    let lb = lower.unicode_len();
    if la != lb {
        return false;
    }
    let mut i: usize = 0;
    while i < la
        invariant
            a@.len() == la,
            lower@.len() == la,
            i <= la,
            forall|k: int| 0 <= k < i ==> lower_char(a@[k]) == lower@[k],
        decreases la - i,
    {
        if lower_char_exec(a.get_char(i)) != lower.get_char(i) {
            proof {
                assert(lower_seq(a@)[i as int] != lower@[i as int]);
            }
            return false;
        }
        i += 1;
    }
    proof {
        assert(lower_seq(a@) =~= lower@);
    }
    true
}

/// The three classes of media file the tool works with.
#[derive(Clone, Copy, Debug, PartialEq, Eq, Structural)]
pub enum FileType {
    Video,
    Image,
    Audio,
}

/// The file type an extension names, if any (case-sensitive).
pub open spec fn spec_file_type(e: Seq<char>) -> Option<FileType> {
    if e == "mp4"@ || e == "webm"@ || e == "mkv"@ || e == "avi"@ || e == "mov"@ || e == "mpeg"@
        || e == "mpegts"@ {
        Some(FileType::Video)
    } else if e == "jpg"@ || e == "png"@ || e == "webp"@ || e == "gif"@ || e == "bmp"@
        || e == "jpeg"@ || e == "tiff"@ || e == "svg"@ || e == "ico"@ || e == "icns"@ {
        Some(FileType::Image)
    } else if e == "mp3"@ || e == "wav"@ || e == "aac"@ || e == "flac"@ || e == "ogg"@
        || e == "opus"@ || e == "m4a"@ {
        Some(FileType::Audio)
    } else {
        None
    }
}

/// Classify a file extension (case-sensitive). An extension naming no
/// known media type fails with `UnsupportedFileType`.
pub fn file_type_from_extension(extension: &str) -> (r: Result<FileType, MediaError>)
    ensures
        spec_file_type(extension@) is Some ==> r == Ok::<FileType, MediaError>(
            spec_file_type(extension@)->0,
        ),
        spec_file_type(extension@) is None ==> r == Err::<FileType, MediaError>(
            MediaError::UnsupportedFileType,
        ),
{
    if str_eq(extension, "mp4") || str_eq(extension, "webm") || str_eq(extension, "mkv") || str_eq(
        extension,
        "avi",
    ) || str_eq(extension, "mov") || str_eq(extension, "mpeg") || str_eq(extension, "mpegts") {
        Ok(FileType::Video)
    } else if str_eq(extension, "jpg") || str_eq(extension, "png") || str_eq(extension, "webp")
        || str_eq(extension, "gif") || str_eq(extension, "bmp") || str_eq(extension, "jpeg")
        || str_eq(extension, "tiff") || str_eq(extension, "svg") || str_eq(extension, "ico")
        || str_eq(extension, "icns") {
        Ok(FileType::Image)
    } else if str_eq(extension, "mp3") || str_eq(extension, "wav") || str_eq(extension, "aac")
        || str_eq(extension, "flac") || str_eq(extension, "ogg") || str_eq(extension, "opus")
        || str_eq(extension, "m4a") {
        Ok(FileType::Audio)
    } else {
        Err(MediaError::UnsupportedFileType)
    }
}

/// The transcoder's audio encoder for an extension, compared after
/// ASCII case folding.
pub open spec fn spec_audio_codec(e: Seq<char>) -> Option<Seq<char>> {
    let l = lower_seq(e);
    if l == "mp3"@ {
        Some("libmp3lame"@)
    } else if l == "wav"@ {
        Some("pcm_s16le"@)
    } else if l == "aac"@ {
        Some("aac"@)
    } else if l == "flac"@ {
        Some("flac"@)
    } else if l == "ogg"@ {
        Some("libvorbis"@)
    } else if l == "opus"@ {
        Some("libopus"@)
    } else if l == "m4a"@ {
        Some("alac"@)
    } else {
        None
    }
}

/// The audio encoder name to hand the transcoder for an output
/// extension, ignoring ASCII case; `None` for an unknown extension.
pub fn audio_codec_by_ext(ext: &str) -> (r: Option<&'static str>)
    ensures
        (r is Some) == (spec_audio_codec(ext@) is Some),
        r is Some ==> r->0@ == spec_audio_codec(ext@)->0,
{
    if str_ieq(ext, "mp3") {
        Some("libmp3lame")
    } else if str_ieq(ext, "wav") {
        Some("pcm_s16le")
    } else if str_ieq(ext, "aac") {
        Some("aac")
    } else if str_ieq(ext, "flac") {
        Some("flac")
    } else if str_ieq(ext, "ogg") {
        Some("libvorbis")
    } else if str_ieq(ext, "opus") {
        Some("libopus")
    } else if str_ieq(ext, "m4a") {
        Some("alac")
    } else {
        None
    }
}

/// Scanning `s` backwards from position `i`: the extension found
/// before any path separator, if any. A dot that begins the file name
/// yields no extension, and a path whose last component is the parent
/// marker `..` names no file at all.
pub open spec fn spec_ext_scan(s: Seq<char>, i: int) -> Option<Seq<char>>
    decreases i,
{
    if i <= 0 {
        None
    } else if s[i - 1] == '/' {
        None
    } else if s[i - 1] == '.' {
        if i - 1 == 0 || s[i - 2] == '/' {
            None
        } else if i == s.len() && s[i - 2] == '.' && (i - 2 == 0 || s[i - 3] == '/') {
            None
        } else {
            Some(s.subrange(i, s.len() as int))
        }
    } else {
        spec_ext_scan(s, i - 1)
    }
}

/// The extension of the file a path names: what follows the last dot
/// of its last component, unless that dot begins the component or the
/// component is the parent marker `..`. The path is read verbatim:
/// separators and dot components elsewhere in it are not normalized.
pub open spec fn spec_ext(s: Seq<char>) -> Option<Seq<char>> {
    spec_ext_scan(s, s.len() as int)
}

/// The extension of the file `filename` names, or `None` when its last
/// component has no extension (or, being `.` or `..`, names no file).
pub fn ext_by_filename(filename: &str) -> (r: Option<String>)
    ensures
        (r is Some) == (spec_ext(filename@) is Some),
        r is Some ==> r->0@ == spec_ext(filename@)->0,
{
    let n = filename.unicode_len();
    let mut i: usize = n;
    while i > 0
        invariant
            filename@.len() == n,
            i <= n,
            spec_ext(filename@) == spec_ext_scan(filename@, i as int),
        decreases i,
    {
        let c = filename.get_char(i - 1);
        if c == '/' {
            return None;
        }
        if c == '.' {
            if i - 1 == 0 {
                return None;
            }
            if filename.get_char(i - 2) == '/' {
                return None;
            }
            if i == n && filename.get_char(i - 2) == '.' {
                if i - 2 == 0 {
                    return None;
                }
                if filename.get_char(i - 3) == '/' {
                    return None;
                }
            }
            let ext = filename.substring_char(i, n);
            return Some(String::from_str(ext));
        }
        i -= 1;
    }
    None
}

/// Whether a byte buffer equals an expected magic-number prefix.
pub fn magic_matches(buffer: &Vec<u8>, expected: &Vec<u8>) -> (r: bool)
    ensures
        r == (buffer@ == expected@),
{
    if buffer.len() != expected.len() {
        return false;
    }
    let mut i: usize = 0;
    while i < buffer.len()
        invariant
            buffer@.len() == expected@.len(),
            i <= buffer@.len(),
            forall|k: int| 0 <= k < i ==> buffer@[k] == expected@[k],
        decreases buffer@.len() - i,
    {
        if buffer[i] != expected[i] {
            return false;
        }
        i += 1;
    }
    proof {
        assert(buffer@ =~= expected@);
    }
    true
}

} // verus!
