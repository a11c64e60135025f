use omu::audio::CombineAudioArgs;
use omu::convert::{convert_file, split_whitespace};
use omu::numfmt::u64_to_string;
use omu::utils::{audio_codec_by_ext, ext_by_filename, file_type_from_extension, magic_matches, str_eq, FileType};
use omu::video::{
    video_from_image_args, CombineVideoArgs, CutArgs, ExtractAudioArgs, MuteVideoArgs,
    ReplaceAudioArgs, TrimArgs,
};
use omu::MediaError;

fn strings(items: &[&str]) -> Vec<String> {
    items.iter().map(|s| s.to_string()).collect()
}

#[test]
fn decimal_rendering() {
    assert_eq!(u64_to_string(0), "0");
    assert_eq!(u64_to_string(7), "7");
    assert_eq!(u64_to_string(10), "10");
    assert_eq!(u64_to_string(204), "204");
    assert_eq!(u64_to_string(4294967295), "4294967295");
    assert_eq!(u64_to_string(u64::MAX), "18446744073709551615");
}

#[test]
fn string_comparison_helpers() {
    assert!(str_eq("abc", "abc"));
    assert!(!str_eq("abc", "abd"));
    assert!(!str_eq("abc", "ab"));
    assert!(magic_matches(&vec![0x52, 0x49, 0x46, 0x46], &vec![0x52, 0x49, 0x46, 0x46]));
    assert!(!magic_matches(&vec![0x52, 0x49], &vec![0x52, 0x49, 0x46, 0x46]));
    assert!(!magic_matches(&vec![0x52, 0x49, 0x46, 0x47], &vec![0x52, 0x49, 0x46, 0x46]));
}

#[test]
fn audio_codec_lookup_ignores_case() {
    assert_eq!(audio_codec_by_ext("mp3"), Some("libmp3lame"));
    assert_eq!(audio_codec_by_ext("MP3"), Some("libmp3lame"));
    assert_eq!(audio_codec_by_ext("wav"), Some("pcm_s16le"));
    assert_eq!(audio_codec_by_ext("aac"), Some("aac"));
    assert_eq!(audio_codec_by_ext("flac"), Some("flac"));
    assert_eq!(audio_codec_by_ext("ogg"), Some("libvorbis"));
    assert_eq!(audio_codec_by_ext("Opus"), Some("libopus"));
    assert_eq!(audio_codec_by_ext("m4a"), Some("alac"));
    assert_eq!(audio_codec_by_ext("xyz"), None);
    assert_eq!(audio_codec_by_ext(""), None);
}

#[test]
fn extension_extraction() {
    assert_eq!(ext_by_filename("a/b.tar.gz"), Some("gz".to_string()));
    assert_eq!(ext_by_filename("movie.mp4"), Some("mp4".to_string()));
    assert_eq!(ext_by_filename("noext"), None);
    assert_eq!(ext_by_filename(".bashrc"), None);
    assert_eq!(ext_by_filename("dir/.bashrc"), None);
    assert_eq!(ext_by_filename("foo."), Some("".to_string()));
    assert_eq!(ext_by_filename("dir.d/file"), None);
    // `.` and `..` name no file, so they carry no extension
    assert_eq!(ext_by_filename("."), None);
    assert_eq!(ext_by_filename(".."), None);
    assert_eq!(ext_by_filename("a/.."), None);
    assert_eq!(ext_by_filename("dir.d/.."), None);
    // but dots elsewhere still split as usual
    assert_eq!(ext_by_filename("..."), Some("".to_string()));
    assert_eq!(ext_by_filename("a.."), Some("".to_string()));
    assert_eq!(ext_by_filename("..a"), Some("a".to_string()));
}

#[test]
fn file_type_classification() {
    assert_eq!(file_type_from_extension("mp4"), Ok(FileType::Video));
    assert_eq!(file_type_from_extension("mpegts"), Ok(FileType::Video));
    assert_eq!(file_type_from_extension("png"), Ok(FileType::Image));
    assert_eq!(file_type_from_extension("icns"), Ok(FileType::Image));
    assert_eq!(file_type_from_extension("wav"), Ok(FileType::Audio));
    assert_eq!(file_type_from_extension("doc"), Err(MediaError::UnsupportedFileType));
}

#[test]
fn whitespace_splitting() {
    let empty: Vec<String> = vec![];
    assert_eq!(split_whitespace(""), empty);
    assert_eq!(split_whitespace("   "), empty);
    assert_eq!(split_whitespace("one"), strings(&["one"]));
    assert_eq!(split_whitespace("  -b:v  1M\t-r\n30 "), strings(&["-b:v", "1M", "-r", "30"]));
    // Unicode whitespace separates tokens too, as str::split_whitespace does
    assert_eq!(split_whitespace("a\u{a0}b\u{2028}c"), strings(&["a", "b", "c"]));
    assert_eq!(split_whitespace("\u{3000}x\u{2009}y\u{85}"), strings(&["x", "y"]));
}

#[test]
fn convert_args() {
    assert_eq!(
        convert_file("in.mp4", "out.webm", None),
        strings(&["-i", "in.mp4", "-y", "out.webm"])
    );
    assert_eq!(
        convert_file("in.mp3", "out.wav", Some("-b:a 192k")),
        strings(&["-i", "in.mp3", "-y", "-b:a", "192k", "out.wav"])
    );
}

#[test]
fn combine_audio_args() {
    let args = CombineAudioArgs {
        inputs: strings(&["a.mp3", "b.wav"]),
        output: "combined.mp3".to_string(),
    };
    assert_eq!(
        args.ffmpeg_args(),
        Ok(strings(&[
            "-y",
            "-i",
            "a.mp3",
            "-i",
            "b.wav",
            "-filter_complex",
            "[0:a][1:a]concat=n=2:v=0:a=1[out]",
            "-map",
            "[out]",
            "combined.mp3",
        ]))
    );
    let none = CombineAudioArgs { inputs: vec![], output: "x.mp3".to_string() };
    assert_eq!(none.ffmpeg_args(), Err(MediaError::EmptyInput));
}

#[test]
fn extract_audio_args() {
    let wav = ExtractAudioArgs { input: "v.mp4".to_string(), output: "a.wav".to_string() };
    assert_eq!(
        wav.ffmpeg_args(),
        strings(&[
            "-i", "v.mp4", "-vn", "-acodec", "pcm_s16le", "-y", "a.wav", "-ar", "44100", "-ac",
            "2",
        ])
    );
    let mp3 = ExtractAudioArgs { input: "v.mp4".to_string(), output: "a.mp3".to_string() };
    assert_eq!(
        mp3.ffmpeg_args(),
        strings(&["-i", "v.mp4", "-vn", "-acodec", "libmp3lame", "-y", "a.mp3"])
    );
    let unknown = ExtractAudioArgs { input: "v.mp4".to_string(), output: "a.xyz".to_string() };
    assert_eq!(
        unknown.ffmpeg_args(),
        strings(&["-i", "v.mp4", "-vn", "-acodec", "copy", "-y", "a.xyz"])
    );
}

#[test]
fn mute_args() {
    let args = MuteVideoArgs { input: "v.mp4".to_string(), output: "m.mp4".to_string() };
    assert_eq!(
        args.ffmpeg_args(),
        strings(&["-i", "v.mp4", "-an", "-c:v", "copy", "-y", "m.mp4"])
    );
}

#[test]
fn trim_args() {
    let both = TrimArgs {
        input: "v.mp4".to_string(),
        output: "t.mp4".to_string(),
        start: Some("00:00:01".to_string()),
        end: Some("00:00:03".to_string()),
    };
    assert_eq!(
        both.ffmpeg_args(),
        strings(&[
            "-i", "v.mp4", "-ss", "00:00:01", "-to", "00:00:03", "-c", "copy", "-y", "t.mp4",
        ])
    );
    let only_start = TrimArgs {
        input: "v.mp4".to_string(),
        output: "t.mp4".to_string(),
        start: Some("5".to_string()),
        end: None,
    };
    assert_eq!(
        only_start.ffmpeg_args(),
        strings(&["-i", "v.mp4", "-ss", "5", "-c", "copy", "-y", "t.mp4"])
    );
    let neither = TrimArgs {
        input: "v.mp4".to_string(),
        output: "t.mp4".to_string(),
        start: None,
        end: None,
    };
    assert_eq!(
        neither.ffmpeg_args(),
        strings(&["-i", "v.mp4", "-c", "copy", "-y", "t.mp4"])
    );
}

#[test]
fn cut_plan() {
    let args = CutArgs {
        input: "movie.mkv".to_string(),
        output: "cut.mkv".to_string(),
        start: "00:00:10".to_string(),
        end: "00:00:20".to_string(),
    };
    assert_eq!(args.temp_extension(), "mkv");
    let plan = args.ffmpeg_plan("/tmp/t1.mkv", "/tmp/t2.mkv", "/tmp/list.txt");
    assert_eq!(
        plan.first_args,
        strings(&["-i", "movie.mkv", "-t", "00:00:10", "-c", "copy", "-y", "/tmp/t1.mkv"])
    );
    assert_eq!(
        plan.second_args,
        strings(&["-i", "movie.mkv", "-ss", "00:00:20", "-c", "copy", "-y", "/tmp/t2.mkv"])
    );
    assert_eq!(plan.concat_contents, "file '/tmp/t1.mkv'\nfile '/tmp/t2.mkv'\n");
    assert_eq!(
        plan.concat_args,
        strings(&[
            "-f", "concat", "-safe", "0", "-i", "/tmp/list.txt", "-c", "copy", "-y", "cut.mkv",
        ])
    );
    let noext = CutArgs {
        input: "clip".to_string(),
        output: "o".to_string(),
        start: "1".to_string(),
        end: "2".to_string(),
    };
    assert_eq!(noext.temp_extension(), "mp4");
}

#[test]
fn replace_audio_args() {
    let pcm = ReplaceAudioArgs {
        video: "v.mp4".to_string(),
        audio: "a.wav".to_string(),
        output: "o.mp4".to_string(),
    };
    assert_eq!(
        pcm.ffmpeg_args(),
        strings(&[
            "-i", "v.mp4", "-i", "a.wav", "-c:v", "copy", "-c:a", "pcm_s16le", "-map", "0:v:0",
            "-map", "1:a:0", "-shortest", "-y", "o.mp4", "-ar", "44100", "-ac", "2",
        ])
    );
    let mp3 = ReplaceAudioArgs {
        video: "v.mp4".to_string(),
        audio: "a.mp3".to_string(),
        output: "o.mp4".to_string(),
    };
    assert_eq!(
        mp3.ffmpeg_args(),
        strings(&[
            "-i", "v.mp4", "-i", "a.mp3", "-c:v", "copy", "-c:a", "libmp3lame", "-map", "0:v:0",
            "-map", "1:a:0", "-shortest", "-y", "o.mp4", "-b:a", "192k",
        ])
    );
    let unknown = ReplaceAudioArgs {
        video: "v.mp4".to_string(),
        audio: "a.xyz".to_string(),
        output: "o.mp4".to_string(),
    };
    assert_eq!(
        unknown.ffmpeg_args(),
        strings(&[
            "-i", "v.mp4", "-i", "a.xyz", "-c:v", "copy", "-c:a", "aac", "-map", "0:v:0", "-map",
            "1:a:0", "-shortest", "-y", "o.mp4", "-b:a", "192k",
        ])
    );
}

#[test]
fn combine_video_args() {
    let horizontal = CombineVideoArgs {
        inputs: strings(&["a.mp4", "b.mp4"]),
        output: "o.mp4".to_string(),
        mode: "horizontal".to_string(),
    };
    assert_eq!(
        horizontal.ffmpeg_args(),
        Ok(strings(&[
            "-i",
            "a.mp4",
            "-i",
            "b.mp4",
            "-filter_complex",
            "[0:v]scale=-1:ih[0];[1:v]scale=-1:ih[1];[0][1]hstack[v],[0:a][1:a]amix=inputs=2:duration=longest[a]",
            "-map",
            "[v]",
            "-map",
            "[a]",
            "-y",
            "o.mp4",
        ]))
    );
    let vertical = CombineVideoArgs {
        inputs: strings(&["a.mp4", "b.mp4", "c.mp4"]),
        output: "o.mp4".to_string(),
        mode: "vertical".to_string(),
    };
    assert_eq!(
        vertical.ffmpeg_args(),
        Ok(strings(&[
            "-i",
            "a.mp4",
            "-i",
            "b.mp4",
            "-i",
            "c.mp4",
            "-filter_complex",
            "[0:v]scale=iw:3[0];[1:v]scale=iw:3[1];[2:v]scale=iw:3[2];[0][1][2]vstack[v],[0:a][1:a][2:a]amix=inputs=3:duration=longest[a]",
            "-map",
            "[v]",
            "-map",
            "[a]",
            "-y",
            "o.mp4",
        ]))
    );
    let overlay = CombineVideoArgs {
        inputs: strings(&["a.mp4", "b.mp4"]),
        output: "o.mp4".to_string(),
        mode: "overlay".to_string(),
    };
    assert_eq!(
        overlay.ffmpeg_args(),
        Ok(strings(&[
            "-i",
            "a.mp4",
            "-i",
            "b.mp4",
            "-filter_complex",
            "[0:v][1:v]overlay=0:0[v],[0:a][1:a]amix=inputs=2:duration=longest[a]",
            "-map",
            "[v]",
            "-map",
            "[a]",
            "-y",
            "o.mp4",
        ]))
    );
    let overlay_three = CombineVideoArgs {
        inputs: strings(&["a.mp4", "b.mp4", "c.mp4"]),
        output: "o.mp4".to_string(),
        mode: "overlay".to_string(),
    };
    assert_eq!(overlay_three.ffmpeg_args(), Err(MediaError::InvalidInputCount));
    let bad_mode = CombineVideoArgs {
        inputs: strings(&["a.mp4"]),
        output: "o.mp4".to_string(),
        mode: "diagonal".to_string(),
    };
    assert_eq!(bad_mode.ffmpeg_args(), Err(MediaError::InvalidMode));
    let none = CombineVideoArgs {
        inputs: vec![],
        output: "o.mp4".to_string(),
        mode: "horizontal".to_string(),
    };
    assert_eq!(none.ffmpeg_args(), Err(MediaError::EmptyInput));
}

#[test]
fn video_from_image() {
    assert_eq!(
        video_from_image_args("frame.png", "out.mp4", 5),
        strings(&[
            "-loop", "1", "-i", "frame.png", "-c:v", "libx264", "-t", "5", "-pix_fmt", "yuv420p",
            "-y", "out.mp4",
        ])
    );
}
