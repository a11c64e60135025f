//! The video commands: their argument records and the transcoder
//! argument lists they build.
use crate::audio::{audio_labels, audio_labels_exec, input_pairs, push_input_pairs};
use crate::numfmt::{dec_rep, u64_to_string};
use crate::utils::{audio_codec_by_ext, ext_by_filename, spec_audio_codec, spec_ext, str_eq};
use crate::MediaError;
use vstd::prelude::*;
use vstd::string::StringExecFns;

verus! {

/// The audio codec the transcoder is told to use for an output or
/// audio-input extension, with the given fallback for paths without a
/// recognized extension.
pub open spec fn spec_codec_for(path: Seq<char>, fallback: Seq<char>) -> Seq<char> {
    let ext = if spec_ext(path) is Some {
        spec_ext(path)->0
    } else {
        ""@
    };
    if spec_audio_codec(ext) is Some {
        spec_audio_codec(ext)->0
    } else {
        fallback
    }
}

/// Look up the audio codec for the extension of `path`, with
/// `fallback` when the path has no recognized audio extension.
fn codec_for(path: &str, fallback: &'static str) -> (r: &'static str)
    ensures
        r@ == spec_codec_for(path@, fallback@),
{
    let ext = ext_by_filename(path);
    let looked = match &ext {
        Some(e) => audio_codec_by_ext(e.as_str()),
        None => audio_codec_by_ext(""),
    };
    match looked {
        Some(c) => c,
        None => fallback,
    }
}

/// Arguments of the extract-audio command.
pub struct ExtractAudioArgs {
    pub input: String,
    pub output: String,
}

/// The transcoder argument list that extracts a video's audio track:
/// video disabled, the codec chosen by the output extension (`copy`
/// when unknown), and for PCM output a fixed 44.1 kHz stereo layout.
pub open spec fn spec_extract_audio_args(input: Seq<char>, output: Seq<char>) -> Seq<Seq<char>> {
    let codec = spec_codec_for(output, "copy"@);
    let base = seq!["-i"@, input, "-vn"@, "-acodec"@, codec, "-y"@, output];
    if codec == "pcm_s16le"@ {
        base + seq!["-ar"@, "44100"@, "-ac"@, "2"@]
    } else {
        base
    }
}

impl ExtractAudioArgs {
    /// Build the transcoder argument list that extracts the audio
    /// track of the input into the output.
    pub fn ffmpeg_args(&self) -> (r: Vec<String>)
        ensures
            r.deep_view() == spec_extract_audio_args(self.input@, self.output@),
    {
        let codec = codec_for(self.output.as_str(), "copy");
        let mut v: Vec<String> = Vec::new();
        v.push(String::from_str("-i"));
        v.push(self.input.clone());
        v.push(String::from_str("-vn"));
        v.push(String::from_str("-acodec"));
        v.push(String::from_str(codec));
        v.push(String::from_str("-y"));
        v.push(self.output.clone());
        if str_eq(codec, "pcm_s16le") {
            v.push(String::from_str("-ar"));
            v.push(String::from_str("44100"));
            v.push(String::from_str("-ac"));
            v.push(String::from_str("2"));
        }
        proof {
            assert(v.deep_view() =~~= spec_extract_audio_args(self.input@, self.output@));
        }
        v
    }
}

/// Arguments of the mute command.
pub struct MuteVideoArgs {
    pub input: String,
    pub output: String,
}

/// The transcoder argument list that strips a video's audio: audio
/// disabled, the video stream copied unchanged.
pub open spec fn spec_mute_args(input: Seq<char>, output: Seq<char>) -> Seq<Seq<char>> {
    seq!["-i"@, input, "-an"@, "-c:v"@, "copy"@, "-y"@, output]
}

impl MuteVideoArgs {
    /// Build the transcoder argument list that strips the input's
    /// audio.
    pub fn ffmpeg_args(&self) -> (r: Vec<String>)
        ensures
            r.deep_view() == spec_mute_args(self.input@, self.output@),
    {
        let mut v: Vec<String> = Vec::new();
        v.push(String::from_str("-i"));
        v.push(self.input.clone());
        v.push(String::from_str("-an"));
        v.push(String::from_str("-c:v"));
        v.push(String::from_str("copy"));
        v.push(String::from_str("-y"));
        v.push(self.output.clone());
        proof {
            assert(v.deep_view() =~~= spec_mute_args(self.input@, self.output@));
        }
        v
    }
}

/// Arguments of the trim command: optional start and end timestamps,
/// in seconds or `HH:MM:SS`.
pub struct TrimArgs {
    pub input: String,
    pub output: String,
    pub start: Option<String>,
    pub end: Option<String>,
}

/// The transcoder argument list that trims a video: a seek for the
/// start bound and a stop for the end bound, each only when given,
/// with all streams copied unchanged.
pub open spec fn spec_trim_args(
    input: Seq<char>,
    output: Seq<char>,
    start: Option<Seq<char>>,
    end: Option<Seq<char>>,
) -> Seq<Seq<char>> {
    seq!["-i"@, input] + (if start is Some {
        seq!["-ss"@, start->0]
    } else {
        seq![]
    }) + (if end is Some {
        seq!["-to"@, end->0]
    } else {
        seq![]
    }) + seq!["-c"@, "copy"@, "-y"@, output]
}

impl TrimArgs {
    /// Build the transcoder argument list that trims the input between
    /// the given bounds.
    pub fn ffmpeg_args(&self) -> (r: Vec<String>)
        ensures
            r.deep_view() == spec_trim_args(
                self.input@,
                self.output@,
                match self.start {
                    Some(ref s) => Some(s@),
                    None => None,
                },
                match self.end {
                    Some(ref e) => Some(e@),
                    None => None,
                },
            ),
    {
        let mut v: Vec<String> = Vec::new();
        v.push(String::from_str("-i"));
        v.push(self.input.clone());
        match &self.start {
            Some(s) => {
                v.push(String::from_str("-ss"));
                v.push(s.clone());
            },
            None => {},
        }
        match &self.end {
            Some(e) => {
                v.push(String::from_str("-to"));
                v.push(e.clone());
            },
            None => {},
        }
        v.push(String::from_str("-c"));
        v.push(String::from_str("copy"));
        v.push(String::from_str("-y"));
        v.push(self.output.clone());
        proof {
            assert(v.deep_view() =~~= spec_trim_args(
                self.input@,
                self.output@,
                match self.start {
                    Some(ref s) => Some(s@),
                    None => None,
                },
                match self.end {
                    Some(ref e) => Some(e@),
                    None => None,
                },
            ));
        }
        v
    }
}

/// Arguments of the cut command: the segment between `start` and `end`
/// is removed and the remainder joined back together.
pub struct CutArgs {
    pub input: String,
    pub output: String,
    pub start: String,
    pub end: String,
}

/// The three transcoder invocations and the concat list file that a
/// cut needs: the part before the cut into one temporary file, the
/// part after it into another, and a concat run that joins them.
pub struct CutPlan {
    pub first_args: Vec<String>,
    pub second_args: Vec<String>,
    pub concat_contents: String,
    pub concat_args: Vec<String>,
}

/// One line of a concat list file: `file '<path>'` and a newline.
pub open spec fn spec_concat_line(path: Seq<char>) -> Seq<char> {
    "file '"@ + path + "'\n"@
}

impl CutArgs {
    /// The extension the cut's temporary files take: the input's, or
    /// `mp4` when the input has none.
    pub fn temp_extension(&self) -> (r: String)
        ensures
            spec_ext(self.input@) is Some ==> r@ == spec_ext(self.input@)->0,
            spec_ext(self.input@) is None ==> r@ == "mp4"@,
    {
        match ext_by_filename(self.input.as_str()) {
            Some(e) => e,
            None => String::from_str("mp4"),
        }
    }

    /// Build the cut's plan, given the two temporary file paths and
    /// the path of the concat list file.
    pub fn ffmpeg_plan(&self, temp1: &str, temp2: &str, list_path: &str) -> (r: CutPlan)
        ensures
            r.first_args.deep_view() == seq![
                "-i"@,
                self.input@,
                "-t"@,
                self.start@,
                "-c"@,
                "copy"@,
                "-y"@,
                temp1@,
            ],
            r.second_args.deep_view() == seq![
                "-i"@,
                self.input@,
                "-ss"@,
                self.end@,
                "-c"@,
                "copy"@,
                "-y"@,
                temp2@,
            ],
            r.concat_contents@ == spec_concat_line(temp1@) + spec_concat_line(temp2@),
            r.concat_args.deep_view() == seq![
                "-f"@,
                "concat"@,
                "-safe"@,
                "0"@,
                "-i"@,
                list_path@,
                "-c"@,
                "copy"@,
                "-y"@,
                self.output@,
            ],
    {
        let mut first: Vec<String> = Vec::new();
        first.push(String::from_str("-i"));
        first.push(self.input.clone());
        first.push(String::from_str("-t"));
        first.push(self.start.clone());
        first.push(String::from_str("-c"));
        first.push(String::from_str("copy"));
        first.push(String::from_str("-y"));
        first.push(String::from_str(temp1));
        let mut second: Vec<String> = Vec::new();
        second.push(String::from_str("-i"));
        second.push(self.input.clone());
        second.push(String::from_str("-ss"));
        second.push(self.end.clone());
        second.push(String::from_str("-c"));
        second.push(String::from_str("copy"));
        second.push(String::from_str("-y"));
        second.push(String::from_str(temp2));
        let mut contents = String::from_str("file '");
        contents.append(temp1);
        contents.append("'\n");
        contents.append("file '");
        contents.append(temp2);
        contents.append("'\n");
        let mut concat: Vec<String> = Vec::new();
        concat.push(String::from_str("-f"));
        concat.push(String::from_str("concat"));
        concat.push(String::from_str("-safe"));
        concat.push(String::from_str("0"));
        concat.push(String::from_str("-i"));
        concat.push(String::from_str(list_path));
        concat.push(String::from_str("-c"));
        concat.push(String::from_str("copy"));
        concat.push(String::from_str("-y"));
        concat.push(self.output.clone());
        let r = CutPlan {
            first_args: first,
            second_args: second,
            concat_contents: contents,
            concat_args: concat,
        };
        proof {
            assert(r.first_args.deep_view() =~~= seq![
                "-i"@,
                self.input@,
                "-t"@,
                self.start@,
                "-c"@,
                "copy"@,
                "-y"@,
                temp1@,
            ]);
            assert(r.second_args.deep_view() =~~= seq![
                "-i"@,
                self.input@,
                "-ss"@,
                self.end@,
                "-c"@,
                "copy"@,
                "-y"@,
                temp2@,
            ]);
            assert(r.concat_contents@ =~= spec_concat_line(temp1@) + spec_concat_line(temp2@));
            assert(r.concat_args.deep_view() =~~= seq![
                "-f"@,
                "concat"@,
                "-safe"@,
                "0"@,
                "-i"@,
                list_path@,
                "-c"@,
                "copy"@,
                "-y"@,
                self.output@,
            ]);
        }
        r
    }
}

/// Arguments of the replace-audio command.
pub struct ReplaceAudioArgs {
    pub video: String,
    pub audio: String,
    pub output: String,
}

/// The transcoder argument list that replaces a video's audio track:
/// video copied, audio re-encoded with the codec the audio file's
/// extension names (`aac` when unknown), the shorter stream deciding
/// the length; PCM gets a fixed 44.1 kHz stereo layout, anything else
/// a 192k bitrate.
pub open spec fn spec_replace_audio_args(
    video: Seq<char>,
    audio: Seq<char>,
    output: Seq<char>,
) -> Seq<Seq<char>> {
    let codec = spec_codec_for(audio, "aac"@);
    let base = seq![
        "-i"@,
        video,
        "-i"@,
        audio,
        "-c:v"@,
        "copy"@,
        "-c:a"@,
        codec,
        "-map"@,
        "0:v:0"@,
        "-map"@,
        "1:a:0"@,
        "-shortest"@,
        "-y"@,
        output,
    ];
    if codec == "pcm_s16le"@ {
        base + seq!["-ar"@, "44100"@, "-ac"@, "2"@]
    } else {
        base + seq!["-b:a"@, "192k"@]
    }
}

impl ReplaceAudioArgs {
    /// Build the transcoder argument list that replaces the video's
    /// audio with the given audio file.
    pub fn ffmpeg_args(&self) -> (r: Vec<String>)
        ensures
            r.deep_view() == spec_replace_audio_args(self.video@, self.audio@, self.output@),
    {
        let codec = codec_for(self.audio.as_str(), "aac");
        let mut v: Vec<String> = Vec::new();
        v.push(String::from_str("-i"));
        v.push(self.video.clone());
        v.push(String::from_str("-i"));
        v.push(self.audio.clone());
        v.push(String::from_str("-c:v"));
        v.push(String::from_str("copy"));
        v.push(String::from_str("-c:a"));
        v.push(String::from_str(codec));
        v.push(String::from_str("-map"));
        v.push(String::from_str("0:v:0"));
        v.push(String::from_str("-map"));
        v.push(String::from_str("1:a:0"));
        v.push(String::from_str("-shortest"));
        v.push(String::from_str("-y"));
        v.push(self.output.clone());
        if str_eq(codec, "pcm_s16le") {
            v.push(String::from_str("-ar"));
            v.push(String::from_str("44100"));
            v.push(String::from_str("-ac"));
            v.push(String::from_str("2"));
        } else {
            v.push(String::from_str("-b:a"));
            v.push(String::from_str("192k"));
        }
        proof {
            assert(v.deep_view() =~~= spec_replace_audio_args(self.video@, self.audio@, self.output@));
        }
        v
    }
}

/// Arguments of the video combine command.
pub struct CombineVideoArgs {
    pub inputs: Vec<String>,
    pub output: String,
    pub mode: String,
}

/// The per-input scale filters of a horizontal video stack:
/// `[i:v]scale=-1:ih[i];` for each input.
pub open spec fn hscale_filters(n: int) -> Seq<char>
    decreases n,
{
    if n <= 0 {
        Seq::<char>::empty()
    } else {
        hscale_filters(n - 1) + "["@ + dec_rep(n - 1) + ":v]scale=-1:ih["@ + dec_rep(n - 1) + "];"@
    }
}

/// The per-input scale filters of a vertical video stack:
/// `[i:v]scale=iw:<total>[i];` for each input, where `<total>` is the
/// number of inputs.
pub open spec fn vscale_filters(n: int, total: int) -> Seq<char>
    decreases n,
{
    if n <= 0 {
        Seq::<char>::empty()
    } else {
        vscale_filters(n - 1, total) + "["@ + dec_rep(n - 1) + ":v]scale=iw:"@ + dec_rep(total)
            + "["@ + dec_rep(n - 1) + "];"@
    }
}

/// The plain stream labels `[0][1]...` of the first `n` inputs.
pub open spec fn plain_labels(n: int) -> Seq<char>
    decreases n,
{
    if n <= 0 {
        Seq::<char>::empty()
    } else {
        plain_labels(n - 1) + "["@ + dec_rep(n - 1) + "]"@
    }
}

/// The video half of a combine filter, by mode: scaled inputs stacked
/// horizontally or vertically, or a two-input overlay. An unknown mode
/// fails with `InvalidMode`; overlay with other than two inputs fails
/// with `InvalidInputCount`.
pub open spec fn spec_video_filter(mode: Seq<char>, n: int) -> Result<Seq<char>, MediaError> {
    if mode == "horizontal"@ {
        Ok(hscale_filters(n) + plain_labels(n) + "hstack[v]"@)
    } else if mode == "vertical"@ {
        Ok(vscale_filters(n, n) + plain_labels(n) + "vstack[v]"@)
    } else if mode == "overlay"@ {
        if n == 2 {
            Ok("[0:v][1:v]overlay=0:0[v]"@)
        } else {
            Err(MediaError::InvalidInputCount)
        }
    } else {
        Err(MediaError::InvalidMode)
    }
}

/// The audio half of a combine filter: all audio streams mixed, the
/// longest input deciding the length.
pub open spec fn spec_audio_mix(n: int) -> Seq<char> {
    audio_labels(n) + "amix=inputs="@ + dec_rep(n) + ":duration=longest[a]"@
}

/// The transcoder argument list of a video combine: the inputs, the
/// combined video-and-audio filter, and the mapped output.
pub open spec fn spec_combine_video_args(
    inputs: Seq<Seq<char>>,
    output: Seq<char>,
    filter: Seq<char>,
) -> Seq<Seq<char>> {
    input_pairs(inputs, inputs.len() as int) + seq![
        "-filter_complex"@,
        filter,
        "-map"@,
        "[v]"@,
        "-map"@,
        "[a]"@,
        "-y"@,
        output,
    ]
}

fn hscale_filters_exec(n: usize) -> (s: String)
    ensures
        s@ == hscale_filters(n as int),
{
    let mut s = String::new();
    let mut i: usize = 0;
    while i < n
        invariant
            i <= n,
            s@ == hscale_filters(i as int),
        decreases n - i,
    {
        let d = u64_to_string(i as u64);
        s.append("[");
        s.append(d.as_str());
        s.append(":v]scale=-1:ih[");
        s.append(d.as_str());
        s.append("];");
        proof {
            assert(s@ =~= hscale_filters(i as int + 1));
        }
        i += 1;
    }
    s
}

fn vscale_filters_exec(n: usize) -> (s: String)
    ensures
        s@ == vscale_filters(n as int, n as int),
{
    let total = u64_to_string(n as u64);
    let mut s = String::new();
    let mut i: usize = 0;
    while i < n
        invariant
            i <= n,
            total@ == dec_rep(n as int),
            s@ == vscale_filters(i as int, n as int),
        decreases n - i,
    {
        let d = u64_to_string(i as u64);
        s.append("[");
        s.append(d.as_str());
        s.append(":v]scale=iw:");
        s.append(total.as_str());
        s.append("[");
        s.append(d.as_str());
        s.append("];");
        proof {
            assert(s@ =~= vscale_filters(i as int + 1, n as int));
        }
        i += 1;
    }
    s
}

fn plain_labels_exec(n: usize) -> (s: String)
    ensures
        s@ == plain_labels(n as int),
{
    let mut s = String::new();
    let mut i: usize = 0;
    while i < n
        invariant
            i <= n,
            s@ == plain_labels(i as int),
        decreases n - i,
    {
        let d = u64_to_string(i as u64);
        s.append("[");
        s.append(d.as_str());
        s.append("]");
        proof {
            assert(s@ =~= plain_labels(i as int + 1));
        }
        i += 1;
    }
    s
}

impl CombineVideoArgs {
    /// Build the transcoder argument list that combines the input
    /// videos by the given mode. Fails with `EmptyInput` on zero
    /// inputs, `InvalidMode` on an unknown mode, and
    /// `InvalidInputCount` when overlay is given other than two
    /// inputs.
    pub fn ffmpeg_args(&self) -> (r: Result<Vec<String>, MediaError>)
        ensures
            self.inputs.deep_view().len() == 0 ==> r == Err::<Vec<String>, MediaError>(
                MediaError::EmptyInput,
            ),
            self.inputs.deep_view().len() > 0 ==> {
                let vf = spec_video_filter(self.mode@, self.inputs.deep_view().len() as int);
                &&& vf is Err ==> r == Err::<Vec<String>, MediaError>(vf->Err_0)
                &&& vf is Ok ==> r is Ok && r->Ok_0.deep_view() == spec_combine_video_args(
                    self.inputs.deep_view(),
                    self.output@,
                    vf->Ok_0 + ","@ + spec_audio_mix(self.inputs.deep_view().len() as int),
                )
            },
    {
        if self.inputs.len() == 0 {
            return Err(MediaError::EmptyInput);
        }
        let n = self.inputs.len();
        let video_filter: String = if str_eq(self.mode.as_str(), "horizontal") {
            let mut f = hscale_filters_exec(n);
            let labels = plain_labels_exec(n);
            f.append(labels.as_str());
            f.append("hstack[v]");
            f
        } else if str_eq(self.mode.as_str(), "vertical") {
            let mut f = vscale_filters_exec(n);
            let labels = plain_labels_exec(n);
            f.append(labels.as_str());
            f.append("vstack[v]");
            f
        } else if str_eq(self.mode.as_str(), "overlay") {
            if n != 2 {
                return Err(MediaError::InvalidInputCount);
            }
            String::from_str("[0:v][1:v]overlay=0:0[v]")
        } else {
            return Err(MediaError::InvalidMode);
        };
        let mut audio_filter = audio_labels_exec(n);
        audio_filter.append("amix=inputs=");
        let d = u64_to_string(n as u64);
        audio_filter.append(d.as_str());
        audio_filter.append(":duration=longest[a]");
        let combined = video_filter.concat(",").concat(audio_filter.as_str());
        let mut v: Vec<String> = Vec::new();
        push_input_pairs(&mut v, &self.inputs);
        v.push(String::from_str("-filter_complex"));
        v.push(combined);
        v.push(String::from_str("-map"));
        v.push(String::from_str("[v]"));
        v.push(String::from_str("-map"));
        v.push(String::from_str("[a]"));
        v.push(String::from_str("-y"));
        v.push(self.output.clone());
        proof {
            let vf = spec_video_filter(self.mode@, self.inputs.deep_view().len() as int);
            assert(v.deep_view() =~~= spec_combine_video_args(
                self.inputs.deep_view(),
                self.output@,
                vf->Ok_0 + ","@ + spec_audio_mix(self.inputs.deep_view().len() as int),
            ));
        }
        Ok(v)
    }
}

/// The transcoder argument list that loops one still frame into a
/// video of `duration` seconds, H.264-encoded with a widely supported
/// pixel format.
pub open spec fn spec_video_from_image_args(
    frame: Seq<char>,
    output: Seq<char>,
    duration: int,
) -> Seq<Seq<char>> {
    seq![
        "-loop"@,
        "1"@,
        "-i"@,
        frame,
        "-c:v"@,
        "libx264"@,
        "-t"@,
        dec_rep(duration),
        "-pix_fmt"@,
        "yuv420p"@,
        "-y"@,
        output,
    ]
}

/// Build the transcoder argument list that loops the still frame at
/// `frame_path` into a video of `duration` seconds at `output`.
pub fn video_from_image_args(frame_path: &str, output: &str, duration: u32) -> (r: Vec<String>)
    ensures
        r.deep_view() == spec_video_from_image_args(frame_path@, output@, duration as int),
{
    let mut v: Vec<String> = Vec::new();
    v.push(String::from_str("-loop"));
    v.push(String::from_str("1"));
    v.push(String::from_str("-i"));
    v.push(String::from_str(frame_path));
    v.push(String::from_str("-c:v"));
    v.push(String::from_str("libx264"));
    v.push(String::from_str("-t"));
    v.push(u64_to_string(duration as u64));
    v.push(String::from_str("-pix_fmt"));
    v.push(String::from_str("yuv420p"));
    v.push(String::from_str("-y"));
    v.push(String::from_str(output));
    proof {
        assert(v.deep_view() =~~= spec_video_from_image_args(frame_path@, output@, duration as int));
    }
    v
}

/// The video manipulation commands.
pub enum VideoCommand {
    ExtractAudio(ExtractAudioArgs),
    Mute(MuteVideoArgs),
    Trim(TrimArgs),
    Cut(CutArgs),
    ReplaceAudio(ReplaceAudioArgs),
    Combine(CombineVideoArgs),
}

} // verus!
