//! Audio-file validation: format and size rules over what the shell
//! observed on disk.
//!
//! The shell probes the file system (existence, metadata) and hands plain
//! values in; the rules — which extensions are audio formats, the size cap,
//! which error text belongs to which failure — are verified here.

use vstd::prelude::*;

use crate::command::after_last_sep;
use crate::text::chars_of;
use crate::text::string_of;

verus! {

/// The outcome of validating one audio file path.
#[derive(PartialEq, Eq, Debug)]
pub struct FileValidationResult {
    pub valid: bool,
    pub error: Option<String>,
}

/// The largest audio file accepted, in bytes: five hundred megabytes.
pub const MAX_FILE_SIZE: u64 = 500 * 1024 * 1024;

/// The position just past the last `.` of `s` at or before `e`; zero when
/// there is none.
pub open spec fn after_last_dot(s: Seq<char>, e: int) -> int
    decreases e,
{
    if e <= 0 {
        0
    } else if s[e - 1] == '.' {
        e
    } else {
        after_last_dot(s, e - 1)
    }
}

/// The extension of a path: the text after the last `.` of its final
/// component (what follows the last `/` or `\`). A component without a
/// `.`, or one that starts with its only `.` (a hidden file), has the empty
/// extension.
pub open spec fn extension_of(path: Seq<char>) -> Seq<char> {
    let comp_start = after_last_sep(path, path.len() as int);
    let comp = path.subrange(comp_start, path.len() as int);
    let dot = after_last_dot(comp, comp.len() as int);
    if dot <= 1 {
        Seq::<char>::empty()
    } else {
        comp.subrange(dot, comp.len() as int)
    }
}

/// ASCII lowercase: the letters `A` to `Z` mapped down, all else kept.
pub open spec fn ascii_lower(c: char) -> char {
    if 65 <= c as u32 <= 90 {
        (((c as u32) + 32) as u32) as char
    } else {
        c
    }
}

fn ascii_lower_exec(c: char) -> (r: char)
    ensures
        r == ascii_lower(c),
{
    match c {
        'A' => 'a',
        'B' => 'b',
        'C' => 'c',
        'D' => 'd',
        'E' => 'e',
        'F' => 'f',
        'G' => 'g',
        'H' => 'h',
        'I' => 'i',
        'J' => 'j',
        'K' => 'k',
        'L' => 'l',
        'M' => 'm',
        'N' => 'n',
        'O' => 'o',
        'P' => 'p',
        'Q' => 'q',
        'R' => 'r',
        'S' => 's',
        'T' => 't',
        'U' => 'u',
        'V' => 'v',
        'W' => 'w',
        'X' => 'x',
        'Y' => 'y',
        'Z' => 'z',
        _ => c,
    }
}

/// `s` with every ASCII letter lowercased.
pub open spec fn lower_ascii_of(s: Seq<char>) -> Seq<char> {
    s.map(|_i: int, c: char| ascii_lower(c))
}

/// The extension of `path`, lowercased (ASCII).
#[verifier::loop_isolation(false)]
pub fn extension_lower(path: &str) -> (r: String)
    ensures
        r@ == lower_ascii_of(extension_of(path@)),
{
    let chars = chars_of(path);
    let n = chars.len();

    // The final path component starts after the last separator.
    let mut cs: usize = n;
    while cs > 0 && !(chars[cs - 1] == '/' || chars[cs - 1] == '\\')
        invariant
            cs <= n == path@.len(),
            chars@ == path@,
            after_last_sep(path@, n as int) == after_last_sep(path@, cs as int),
        decreases cs,
    {
        cs = cs - 1;
    }
    let ghost comp = path@.subrange(cs as int, n as int);

    // The extension starts after the last dot of that component.
    let mut d: usize = n;
    while d > cs && !(chars[d - 1] == '.')
        invariant
            cs <= d <= n,
            chars@ == path@,
            comp == path@.subrange(cs as int, n as int),
            after_last_dot(comp, comp.len() as int) == after_last_dot(comp, d - cs),
        decreases d,
    {
        proof {
            assert(comp[d - 1 - cs] == path@[d - 1]);
        }
        d = d - 1;
    }
    proof {
        if d > cs {
            assert(comp[d - 1 - cs] == path@[d - 1]);
        }
        assert(after_last_dot(comp, d - cs) == d - cs);
    }

    let ext_start: usize = if d - cs <= 1 {
        n
    } else {
        d
    };
    proof {
        assert(path@.subrange(n as int, n as int) =~= Seq::<char>::empty());
        assert(path@.subrange(ext_start as int, n as int) =~= extension_of(path@));
    }
    let mut out: Vec<char> = Vec::new();
    let mut i: usize = ext_start;
    while i < n
        invariant
            ext_start <= i <= n,
            chars@ == path@,
            out@ == lower_ascii_of(path@.subrange(ext_start as int, i as int)),
        decreases n - i,
    {
        out.push(ascii_lower_exec(chars[i]));
        i = i + 1;
        proof {
            assert(out@ =~= lower_ascii_of(path@.subrange(ext_start as int, i as int)));
        }
    }
    proof {
        assert(lower_ascii_of(path@.subrange(ext_start as int, n as int)) =~= lower_ascii_of(
            extension_of(path@),
        ));
    }
    string_of(&out)
}

/// The audio formats the pipeline accepts, by lowercased extension.
pub open spec fn is_supported_format(ext: Seq<char>) -> bool {
    ext == "mp3"@ || ext == "wav"@ || ext == "flac"@ || ext == "aiff"@ || ext == "m4a"@
}

fn supported_format(ext: &String) -> (r: bool)
    ensures
        r == is_supported_format(ext@),
{
    *ext == String::from_str("mp3") || *ext == String::from_str("wav") || *ext == String::from_str(
        "flac",
    ) || *ext == String::from_str("aiff") || *ext == String::from_str("m4a")
}

/// What validation says of one audio path, given what the shell observed:
/// whether anything exists there, and the file size (or the OS error from
/// reading the metadata). Valid means: it exists, its extension names a
/// supported format (case-insensitively), and it is within the size cap.
/// An invalid file is a result, not an error: the caller shows the text.
pub fn validate_audio_file(path: &str, path_exists: bool, size: Result<u64, String>) -> (r:
    FileValidationResult)
    ensures
        r.valid <==> (path_exists && is_supported_format(lower_ascii_of(extension_of(path@)))
            && size is Ok && size->Ok_0 <= MAX_FILE_SIZE),
        r.valid <==> r.error is None,
        !r.valid ==> r.error->Some_0@ == (if !path_exists {
            "File does not exist"@
        } else if !is_supported_format(lower_ascii_of(extension_of(path@))) {
            "Unsupported format. Supported: [\"mp3\", \"wav\", \"flac\", \"aiff\", \"m4a\"]"@
        } else if size is Err {
            "Cannot read file: "@ + size->Err_0@
        } else {
            "File too large. Maximum: 500 MB"@
        }),
{
    if !path_exists {
        return FileValidationResult {
            valid: false,
            error: Some(String::from_str("File does not exist")),
        };
    }
    let ext = extension_lower(path);
    if !supported_format(&ext) {
        return FileValidationResult {
            valid: false,
            error: Some(
                String::from_str(
                    "Unsupported format. Supported: [\"mp3\", \"wav\", \"flac\", \"aiff\", \"m4a\"]",
                ),
            ),
        };
    }
    match size {
        Ok(bytes) => {
            if bytes > MAX_FILE_SIZE {
                FileValidationResult {
                    valid: false,
                    error: Some(String::from_str("File too large. Maximum: 500 MB")),
                }
            } else {
                FileValidationResult { valid: true, error: None }
            }
        },
        Err(e) => FileValidationResult {
            valid: false,
            error: Some(String::from_str("Cannot read file: ").concat(e.as_str())),
        },
    }
}

/// Metadata of one audio file. The duration is in milliseconds, zero when
/// unknown: no real media inspection is wired up yet, so the values besides
/// the path are placeholders.
#[derive(PartialEq, Eq, Debug)]
pub struct AudioFileMetadata {
    pub path: String,
    pub duration_ms: u64,
    pub bitrate: u32,
    pub sample_rate: u32,
}

/// Metadata for an audio file: the placeholder values the pipeline reports
/// until real inspection exists. An absent file is an error.
pub fn get_file_metadata(path: String, path_exists: bool) -> (r: Result<AudioFileMetadata, String>)
    ensures
        r is Ok <==> path_exists,
        r is Ok ==> r->Ok_0 == (AudioFileMetadata {
            path,
            duration_ms: 0,
            bitrate: 0,
            sample_rate: 44100,
        }),
        r is Err ==> r->Err_0@ == "File not found"@,
{
    if path_exists {
        Ok(AudioFileMetadata { path, duration_ms: 0, bitrate: 0, sample_rate: 44100 })
    } else {
        Err(String::from_str("File not found"))
    }
}

/// Duration of an audio file in milliseconds: zero (unknown) until real
/// inspection exists. An absent file is an error.
pub fn get_audio_duration(path_exists: bool) -> (r: Result<u64, String>)
    ensures
        r is Ok <==> path_exists,
        r is Ok ==> r->Ok_0 == 0,
        r is Err ==> r->Err_0@ == "File not found"@,
{
    if path_exists {
        Ok(0)
    } else {
        Err(String::from_str("File not found"))
    }
}

} // verus!
