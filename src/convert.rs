//! The converter's rules: which directory entries are converted, where the result
//! goes, when a file is skipped, and the transcoder's command line.
use vstd::prelude::*;
use crate::links::strings_view;
use crate::text::{chars_of, matches_at, occurs_at};

verus! {

/// The file extension of the media that is converted.
pub const MEDIA_EXTENSION: &'static str = "mp4";

/// What is appended to a source's base name to name its conversion.
pub const VR_SUFFIX: &'static str = "_VR.mp4";

/// The filter graph that scales two copies of the picture to half width and
/// places them side by side.
pub const SBS_FILTER: &'static str =
    "[0:v]scale=iw/2:ih[left];[0:v]scale=iw/2:ih[right];[left][right]hstack";

/// The last `.` of `s[0..end]`, if any.
pub open spec fn last_dot_before(s: Seq<char>, end: int) -> Option<int>
    decreases end,
{
    if end <= 0 {
        None
    } else if s[end - 1] == '.' {
        Some(end - 1)
    } else {
        last_dot_before(s, end - 1)
    }
}

/// The dot that starts a file name's extension: its last dot, unless that is the
/// first character (a hidden file has no extension).
pub open spec fn extension_dot(name: Seq<char>) -> Option<int> {
    match last_dot_before(name, name.len() as int) {
        Some(k) => if k > 0 {
            Some(k)
        } else {
            None
        },
        None => None,
    }
}

/// A file name whose extension marks it as media to convert.
pub open spec fn is_media_name(name: Seq<char>) -> bool {
    extension_dot(name) matches Some(k) && name.subrange(k + 1, name.len() as int)
        == MEDIA_EXTENSION@
}

/// A file name without its extension.
pub open spec fn stem_of(name: Seq<char>) -> Seq<char> {
    match extension_dot(name) {
        Some(k) => name.subrange(0, k),
        None => name,
    }
}

/// Where the conversion of the source with base name `stem` is written.
pub open spec fn vr_output_path(dir: Seq<char>, stem: Seq<char>) -> Seq<char> {
    dir + "/"@ + stem + VR_SUFFIX@
}

/// A source file that is to be converted.
#[derive(Debug, Clone)]
pub struct Candidate {
    /// The path the transcoder reads.
    pub input_path: String,
    /// The source's base name.
    pub stem: String,
    /// The path the transcoder writes.
    pub output_path: String,
}

fn last_dot(s: &Vec<char>) -> (r: Option<usize>)
    ensures
        r matches Some(k) ==> last_dot_before(s@, s@.len() as int) == Some(k as int) && k
            < s@.len(),
        r is None ==> last_dot_before(s@, s@.len() as int) is None,
{
    let mut e = s.len();
    while e > 0 && s[e - 1] != '.'
        invariant
            e <= s@.len(),
            last_dot_before(s@, s@.len() as int) == last_dot_before(s@, e as int),
        decreases e,
    {
        e = e - 1;
    }
    if e == 0 {
        None
    } else {
        Some(e - 1)
    }
}

/// The directory entry `file_name`, found at `input_path`, as a source to convert
/// into `output_dir`; `None` where it is not media of the converted kind.
pub fn candidate(input_path: &str, file_name: &str, output_dir: &str) -> (r: Option<Candidate>)
    ensures
        r is Some <==> is_media_name(file_name@),
        r matches Some(c) ==> {
            &&& c.input_path@ == input_path@
            &&& c.stem@ == stem_of(file_name@)
            &&& c.output_path@ == vr_output_path(output_dir@, stem_of(file_name@))
        },
{
    let s = chars_of(file_name);
    let n = s.len();
    match last_dot(&s) {
        None => None,
        Some(k) => {
            if k == 0 {
                return None;
            }
            let is_media = n - (k + 1) == 3 && matches_at(&s, MEDIA_EXTENSION, k + 1);
            proof {
                reveal_strlit("mp4");
                if is_media_name(file_name@) {
                    assert(occurs_at(s@, MEDIA_EXTENSION@, k + 1));
                }
                if is_media {
                    assert(s@.subrange(k + 1, n as int) =~= MEDIA_EXTENSION@);
                }
            }
            if !is_media {
                return None;
            }
            let stem = file_name.substring_char(0, k).to_owned();
            let mut output_path = output_dir.to_owned();
            output_path.append("/");
            output_path.append(stem.as_str());
            output_path.append(VR_SUFFIX);
            Some(Candidate { input_path: input_path.to_owned(), stem, output_path })
        },
    }
}

/// The encoder that a conversion uses.
#[derive(Debug, Clone, Copy, PartialEq, Eq, Structural)]
pub enum EncodingMode {
    /// The software encoder.
    Cpu,
    /// The hardware-accelerated encoder.
    Gpu,
}

/// `c` is `lower`, or its ASCII capital.
pub open spec fn same_letter(c: char, lower: char) -> bool {
    c == lower || ('A' <= c && c <= 'Z' && c as u32 + 32 == lower as u32)
}

/// `s` equals the lower-case word `lower` when ASCII case is ignored.
pub open spec fn equals_ignoring_case(s: Seq<char>, lower: Seq<char>) -> bool {
    s.len() == lower.len() && forall|i: int| 0 <= i < s.len() ==> same_letter(#[trigger] s[i], lower[i])
}

/// The mode that a selector names, whatever its case.
pub open spec fn mode_spec(selector: Seq<char>) -> Option<EncodingMode> {
    if equals_ignoring_case(selector, "cpu"@) {
        Some(EncodingMode::Cpu)
    } else if equals_ignoring_case(selector, "gpu"@) {
        Some(EncodingMode::Gpu)
    } else {
        None
    }
}

fn equals_ignoring_case_exec(s: &Vec<char>, lower: &str) -> (r: bool)
    ensures
        r == equals_ignoring_case(s@, lower@),
{
    let n = lower.unicode_len();
    if s.len() != n {
        return false;
    }
    let mut i: usize = 0;
    while i < n
        invariant
            n == s@.len(),
            n == lower@.len(),
            i <= n,
            forall|k: int| 0 <= k < i ==> same_letter(#[trigger] s@[k], lower@[k]),
        decreases n - i,
    {
        let c = s[i];
        let l = lower.get_char(i);
        if !(c == l || ('A' <= c && c <= 'Z' && c as u32 + 32 == l as u32)) {
            return false;
        }
        i = i + 1;
    }
    true
}

/// The encoding mode that `selector` names, `cpu` or `gpu` in any case.
pub fn parse_mode(selector: &str) -> (r: Option<EncodingMode>)
    ensures
        r == mode_spec(selector@),
{
    let s = chars_of(selector);
    if equals_ignoring_case_exec(&s, "cpu") {
        Some(EncodingMode::Cpu)
    } else if equals_ignoring_case_exec(&s, "gpu") {
        Some(EncodingMode::Gpu)
    } else {
        None
    }
}

/// The encoder arguments of a mode: quality factor 18 and the slow preset.
pub open spec fn encoder_args_spec(mode: EncodingMode) -> Seq<Seq<char>> {
    match mode {
        EncodingMode::Cpu => seq!["-c:v"@, "libx264"@, "-crf"@, "18"@, "-preset"@, "slow"@],
        EncodingMode::Gpu => seq!["-c:v"@, "h264_nvenc"@, "-cq"@, "18"@, "-preset"@, "slow"@],
    }
}

/// The transcoder's arguments for converting `input` into `output`.
pub open spec fn transcode_args_spec(
    input: Seq<char>,
    output: Seq<char>,
    mode: EncodingMode,
) -> Seq<Seq<char>> {
    seq!["-i"@, input, "-filter_complex"@, SBS_FILTER@] + encoder_args_spec(mode) + seq![output]
}

/// The transcoder's arguments for converting a candidate in a mode.
pub fn transcode_args(c: &Candidate, mode: EncodingMode) -> (r: Vec<String>)
    ensures
        strings_view(r@) == transcode_args_spec(c.input_path@, c.output_path@, mode),
{
    let mut r: Vec<String> = Vec::new();
    r.push("-i".to_owned());
    r.push(c.input_path.clone());
    r.push("-filter_complex".to_owned());
    r.push(SBS_FILTER.to_owned());
    r.push("-c:v".to_owned());
    match mode {
        EncodingMode::Cpu => {
            r.push("libx264".to_owned());
            r.push("-crf".to_owned());
        },
        EncodingMode::Gpu => {
            r.push("h264_nvenc".to_owned());
            r.push("-cq".to_owned());
        },
    }
    r.push("18".to_owned());
    r.push("-preset".to_owned());
    r.push("slow".to_owned());
    r.push(c.output_path.clone());
    assert(strings_view(r@) =~= transcode_args_spec(c.input_path@, c.output_path@, mode));
    r
}

/// What the converter does with one candidate.
#[derive(Debug, Clone)]
pub enum ConvertStep {
    /// The output already exists: nothing is run.
    Skip,
    /// The mode selector names no mode: nothing is run, and an error is reported.
    Reject,
    /// The transcoder is run with these arguments.
    Run(Vec<String>),
}

/// Decides what to do with a candidate, given the mode selector and whether its
/// output already exists: an existing output is never redone, and an unknown mode
/// runs nothing.
pub fn convert_step(c: &Candidate, selector: &str, output_exists: bool) -> (r: ConvertStep)
    ensures
        output_exists ==> r is Skip,
        !output_exists && mode_spec(selector@) is None ==> r is Reject,
        !output_exists && mode_spec(selector@) is Some ==> (r matches ConvertStep::Run(args)
            && strings_view(args@) == transcode_args_spec(
            c.input_path@,
            c.output_path@,
            mode_spec(selector@)->0,
        )),
{
    if output_exists {
        return ConvertStep::Skip;
    }
    match parse_mode(selector) {
        Some(m) => ConvertStep::Run(transcode_args(c, m)),
        None => ConvertStep::Reject,
    }
}

} // verus!
