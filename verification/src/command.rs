//! The job command builder and the decisions of the render pipeline.
//!
//! A validated job request becomes the worker's argument vector here:
//! positional audio and output paths, then flag/value pairs. The shell
//! performs the file-system probes and the process work; every decision over
//! what it observed — input validity, which candidate script or weights file
//! to use, what a result or failure says to the caller — is verified here.

use vstd::prelude::*;

use crate::orchestrator::SpawnError;
use crate::orchestrator::WaitError;
use crate::text::dec_chars;
use crate::text::digit_char;
use crate::text::normalize_path_for_cli;
use crate::text::normalized_path;
use crate::text::push_char;
use crate::text::u64_to_string;

verus! {

/// A request to render one video, as the caller layer hands it in.
#[derive(Debug)]
pub struct GenerateVideoParams {
    /// Path of the source audio file; it must name an existing regular file
    /// before a process is spawned.
    pub audio_path: String,
    /// Path the video is to be written to.
    pub output_path: String,
    /// Resolution, in the worker's own textual form.
    pub resolution: String,
    /// Frame rate.
    pub fps: u32,
    /// Optional style identifier; empty or `default` means no style weights.
    pub style_name: Option<String>,
    /// Optional quality percentage, conventionally 0 to 100.
    pub quality: Option<u32>,
    /// Optional layer count.
    pub layers: Option<u32>,
    /// Optional hidden-dimension size.
    pub hidden_dim: Option<u32>,
}

/// The outcome the caller layer receives from a command.
#[derive(Debug)]
pub struct CommandResult<T = ()> {
    pub success: bool,
    pub message: String,
    pub data: Option<T>,
}

/// The data of a successful render: where the video is, how long it runs
/// (milliseconds; zero when unknown), and its size in bytes.
#[derive(Debug)]
pub struct GenerateVideoResult {
    pub video_path: String,
    pub duration_ms: u64,
    pub size: u64,
}

/// The audio-scale text for a quality percentage: the quality divided by
/// one hundred, written with exactly two decimal places.
pub open spec fn audio_scale_chars(q: nat) -> Seq<char> {
    dec_chars(q / 100) + seq!['.', digit_char(((q / 10) % 10) as int), digit_char((q % 10) as int)]
}

/// Render the audio-scale argument for a quality percentage: `50` becomes
/// `"0.50"`, `100` becomes `"1.00"`, `7` becomes `"0.07"`.
pub fn audio_scale_string(quality: u32) -> (r: String)
    ensures
        r@ == audio_scale_chars(quality as nat),
{
    let q = quality as u64;
    let mut s = u64_to_string(q / 100);
    push_char(&mut s, '.');
    let tens = u64_to_string((q / 10) % 10);
    let ones = u64_to_string(q % 10);
    let r = s.concat(tens.as_str()).concat(ones.as_str());
    proof {
        assert(r@ =~= audio_scale_chars(quality as nat));
    }
    r
}

/// The views of a vector of strings.
pub open spec fn views_of(v: Seq<String>) -> Seq<Seq<char>> {
    v.map_values(|s: String| s@)
}

/// The worker's argument vector for a request: the normalized audio and
/// output paths, then flag/value pairs for resolution and frame rate,
/// optionally the layer count, the hidden dimension, the audio scale (when
/// a quality is given), and the resolved style weights path (when one was
/// found; an unresolved style omits the flag and is no error).
pub open spec fn job_args(p: GenerateVideoParams, weights: Option<Seq<char>>) -> Seq<Seq<char>> {
    let base = seq![
        normalized_path(p.audio_path@),
        normalized_path(p.output_path@),
        "--resolution"@,
        p.resolution@,
        "--fps"@,
        dec_chars(p.fps as nat),
    ];
    let with_layers = if p.layers is Some {
        base + seq!["--layers"@, dec_chars(p.layers->Some_0 as nat)]
    } else {
        base
    };
    let with_hidden = if p.hidden_dim is Some {
        with_layers + seq!["--hidden-dim"@, dec_chars(p.hidden_dim->Some_0 as nat)]
    } else {
        with_layers
    };
    let with_quality = if p.quality is Some {
        with_hidden + seq!["--audio-scale"@, audio_scale_chars(p.quality->Some_0 as nat)]
    } else {
        with_hidden
    };
    if weights is Some {
        with_quality + seq!["--load-weights"@, normalized_path(weights->Some_0)]
    } else {
        with_quality
    }
}

/// Build the worker's argument vector from a request and the resolved style
/// weights path, if any.
pub fn build_job_args(params: &GenerateVideoParams, weights: Option<&String>) -> (r: Vec<String>)
    ensures
        views_of(r@) == job_args(*params, match weights {
            Some(w) => Some(w@),
            None => None,
        }),
{
    let mut args: Vec<String> = Vec::new();
    args.push(normalize_path_for_cli(params.audio_path.as_str()));
    args.push(normalize_path_for_cli(params.output_path.as_str()));
    args.push(String::from_str("--resolution"));
    args.push(params.resolution.clone());
    args.push(String::from_str("--fps"));
    args.push(u64_to_string(params.fps as u64));
    match &params.layers {
        Some(l) => {
            args.push(String::from_str("--layers"));
            args.push(u64_to_string(*l as u64));
        },
        None => {},
    }
    match &params.hidden_dim {
        Some(h) => {
            args.push(String::from_str("--hidden-dim"));
            args.push(u64_to_string(*h as u64));
        },
        None => {},
    }
    match &params.quality {
        Some(q) => {
            args.push(String::from_str("--audio-scale"));
            args.push(audio_scale_string(*q));
        },
        None => {},
    }
    match weights {
        Some(w) => {
            args.push(String::from_str("--load-weights"));
            args.push(normalize_path_for_cli(w.as_str()));
        },
        None => {},
    }
    proof {
        assert(views_of(args@) =~= job_args(*params, match weights {
            Some(w) => Some(w@),
            None => None,
        }));
    }
    args
}

/// A request with a quality and a resolved weights file yields an argument
/// vector carrying both the audio-scale flag and the load-weights flag.
pub proof fn lemma_args_carry_scale_and_weights(p: GenerateVideoParams, weights: Option<Seq<char>>)
    requires
        p.quality is Some,
        weights is Some,
    ensures
        job_args(p, weights).contains("--audio-scale"@),
        job_args(p, weights).contains("--load-weights"@),
{
    let args = job_args(p, weights);
    let extra = (if p.layers is Some {
        2int
    } else {
        0int
    }) + (if p.hidden_dim is Some {
        2int
    } else {
        0int
    });
    assert(args[6 + extra] == "--audio-scale"@);
    assert(args[args.len() - 2] == "--load-weights"@);
}

/// Whether a style name calls for a weights lookup: present, non-empty, and
/// not the built-in default style.
pub open spec fn wants_weights_lookup(style_name: Option<Seq<char>>) -> bool {
    match style_name {
        Some(s) => s.len() > 0 && s != "default"@,
        None => false,
    }
}

/// Decide whether the shell should look for a weights file for this
/// request's style.
pub fn style_needs_weights(style_name: &Option<String>) -> (r: bool)
    ensures
        r == wants_weights_lookup(match style_name {
            Some(s) => Some(s@),
            None => None,
        }),
{
    match style_name {
        Some(s) => !s.as_str().is_empty() && !(*s == String::from_str("default")),
        None => false,
    }
}

/// The file name a style's weights are stored under.
pub fn style_weights_filename(style: &str) -> (r: String)
    ensures
        r@ == style@ + ".pth"@,
{
    String::from_str(style).concat(".pth")
}

/// `dir` and `name` joined with a forward slash, the separator the worker
/// expects everywhere.
pub fn join_path(dir: &str, name: &str) -> (r: String)
    ensures
        r@ == dir@ + "/"@ + name@,
{
    let r = String::from_str(dir).concat("/").concat(name);
    proof {
        assert(r@ =~= dir@ + "/"@ + name@);
    }
    r
}

/// The position of the first set flag, if any.
pub open spec fn first_true(flags: Seq<bool>) -> Option<int>
    decreases flags.len(),
{
    if flags.len() == 0 {
        None
    } else if flags[0] {
        Some(0)
    } else {
        match first_true(flags.subrange(1, flags.len() as int)) {
            None => None,
            Some(i) => Some(i + 1),
        }
    }
}

/// `first_true` returns the least set index, or `None` when no flag is set.
pub proof fn lemma_first_true(flags: Seq<bool>)
    ensures
        match first_true(flags) {
            None => forall|i: int| 0 <= i < flags.len() ==> !flags[i],
            Some(i) => 0 <= i < flags.len() && flags[i] && (forall|j: int| 0 <= j < i ==> !flags[j]),
        },
    decreases flags.len(),
{
    if flags.len() == 0 {
    } else if flags[0] {
    } else {
        let rest = flags.subrange(1, flags.len() as int);
        lemma_first_true(rest);
        match first_true(rest) {
            None => {
                assert forall|i: int| 0 <= i < flags.len() implies !flags[i] by {
                    if i > 0 {
                        assert(rest[i - 1] == flags[i]);
                    }
                }
            },
            Some(i) => {
                assert(flags[i + 1] == rest[i]);
                assert forall|j: int| 0 <= j < i + 1 implies !flags[j] by {
                    if j > 0 {
                        assert(rest[j - 1] == flags[j]);
                    }
                }
            },
        }
    }
}

/// Among candidates probed by the shell, pick the first that exists:
/// `exists[i]` reports the shell's probe of candidate `i`.
#[verifier::loop_isolation(false)]
pub fn first_existing(exists: &Vec<bool>) -> (r: Option<usize>)
    ensures
        match r {
            None => first_true(exists@) is None,
            Some(i) => first_true(exists@) == Some(i as int),
        },
{
    let mut i: usize = 0;
    while i < exists.len() && !exists[i]
        invariant
            i <= exists@.len(),
            forall|j: int| 0 <= j < i ==> !exists@[j],
        decreases exists@.len() - i,
    {
        i = i + 1;
    }
    proof {
        lemma_first_true(exists@);
    }
    if i < exists.len() {
        Some(i)
    } else {
        None
    }
}

/// Decide input validity from what the shell observed of the audio path:
/// whether something exists there, and what the metadata probe said
/// (`Ok(is_regular_file)`, or the OS error text). Nothing is spawned when
/// this is an error.
pub fn validate_input_file(path: &str, exists: bool, metadata: Result<bool, String>) -> (r: Result<
    (),
    String,
>)
    ensures
        r is Ok <==> (exists && metadata == Ok::<bool, String>(true)),
        r is Err ==> r->Err_0@ == (if !exists {
            "Input file not found: "@ + path@
        } else if metadata is Err {
            "Cannot access input file: "@ + metadata->Err_0@
        } else {
            "Input path is not a file: "@ + path@
        }),
{
    if !exists {
        Err(String::from_str("Input file not found: ").concat(path))
    } else {
        match metadata {
            Ok(is_file) => {
                if is_file {
                    Ok(())
                } else {
                    Err(String::from_str("Input path is not a file: ").concat(path))
                }
            },
            Err(e) => Err(String::from_str("Cannot access input file: ").concat(e.as_str())),
        }
    }
}

/// The position just past the last path separator at or before `e`; zero
/// when there is none.
pub open spec fn after_last_sep(path: Seq<char>, e: int) -> int
    decreases e,
{
    if e <= 0 {
        0
    } else if path[e - 1] == '/' || path[e - 1] == '\\' {
        e
    } else {
        after_last_sep(path, e - 1)
    }
}

/// The parent portion of a path: everything before the last separator
/// (`/` or `\`), empty when there is none. The shell creates this directory
/// when it does not exist yet.
pub open spec fn parent_of(path: Seq<char>) -> Seq<char> {
    let cut = after_last_sep(path, path.len() as int);
    if cut == 0 {
        Seq::<char>::empty()
    } else {
        path.subrange(0, cut - 1)
    }
}

/// The parent directory portion of `path`.
#[verifier::loop_isolation(false)]
pub fn parent_path(path: &str) -> (r: String)
    ensures
        r@ == parent_of(path@),
{
    let chars = crate::text::chars_of(path);
    let n = chars.len();
    let mut e: usize = n;
    while e > 0 && !(chars[e - 1] == '/' || chars[e - 1] == '\\')
        invariant
            e <= n == path@.len(),
            chars@ == path@,
            after_last_sep(path@, n as int) == after_last_sep(path@, e as int),
        decreases e,
    {
        e = e - 1;
    }
    if e == 0 {
        String::new()
    } else {
        String::from_str(path.substring_char(0, e - 1))
    }
}

/// Whether the output path's parent directory must be created first: there
/// is a parent and the shell found nothing there.
pub fn needs_parent_creation(parent: &str, parent_exists: bool) -> (r: bool)
    ensures
        r <==> (parent@.len() > 0 && !parent_exists),
{
    !parent.is_empty() && !parent_exists
}

/// The caller's text when the output directory cannot be created.
pub fn output_dir_failure_text(oserr: &str) -> (r: String)
    ensures
        r@ == "Cannot create output directory: "@ + oserr@,
{
    String::from_str("Cannot create output directory: ").concat(oserr)
}

/// The caller's text for a spawn that failed.
pub fn spawn_failure_text(err: &SpawnError) -> (r: String)
    ensures
        r@ == "Failed to start video generation: "@ + err.message_spec(),
{
    String::from_str("Failed to start video generation: ").concat(err.message().as_str())
}

/// The caller's text for a wait that failed.
pub fn wait_failure_text(err: &WaitError) -> (r: String)
    ensures
        r@ == "Process failed: "@ + err.message_spec(),
{
    String::from_str("Process failed: ").concat(err.message().as_str())
}

/// The caller's text when the produced file's metadata cannot be read.
pub fn output_metadata_failure_text(oserr: &str) -> (r: String)
    ensures
        r@ == "Failed to get output file info: "@ + oserr@,
{
    String::from_str("Failed to get output file info: ").concat(oserr)
}

/// The caller-facing result of a successful render: the video path as
/// handed in, an unknown duration reported as zero, and the file size the
/// shell measured.
pub fn success_result(video_path: String, size: u64) -> (r: CommandResult<GenerateVideoResult>)
    ensures
        r.success == true,
        r.message@ == "Video generated successfully"@,
        r.data is Some,
        r.data->Some_0.video_path == video_path,
        r.data->Some_0.duration_ms == 0,
        r.data->Some_0.size == size,
{
    CommandResult {
        success: true,
        message: String::from_str("Video generated successfully"),
        data: Some(GenerateVideoResult { video_path, duration_ms: 0, size }),
    }
}

/// The caller-facing result of an interpreter version test: success exactly
/// on exit code zero, with the code named in the message.
pub fn python_test_result(code: i32) -> (r: CommandResult<()>)
    ensures
        r.success <==> code == 0,
        r.message@ == "Python exited with code "@ + crate::text::dec_chars_signed(code as int),
        r.data is None,
{
    CommandResult {
        success: code == 0,
        message: String::from_str("Python exited with code ").concat(
            crate::text::i32_to_string(code).as_str(),
        ),
        data: None,
    }
}

} // verus!
