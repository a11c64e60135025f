//! The audio combine command: its argument record and the transcoder
//! argument list it builds.
use crate::numfmt::{dec_rep, u64_to_string};
use crate::MediaError;
use vstd::prelude::*;
use vstd::string::StringExecFns;

verus! {

/// The audio stream labels `[0:a][1:a]...` of the first `n` inputs.
pub open spec fn audio_labels(n: int) -> Seq<char>
    decreases n,
{
    if n <= 0 {
        Seq::<char>::empty()
    } else {
        audio_labels(n - 1) + "["@ + dec_rep(n - 1) + ":a]"@
    }
}

/// The `-i path` pairs of the first `k` inputs.
pub open spec fn input_pairs(inputs: Seq<Seq<char>>, k: int) -> Seq<Seq<char>>
    decreases k,
{
    if k <= 0 {
        seq![]
    } else {
        input_pairs(inputs, k - 1) + seq!["-i"@, inputs[k - 1]]
    }
}

/// Render the audio stream labels of `n` inputs.
pub(crate) fn audio_labels_exec(n: usize) -> (s: String)
    ensures
        s@ == audio_labels(n as int),
{
    let mut s = String::new();
    let mut i: usize = 0;
    while i < n
        invariant
            i <= n,
            s@ == audio_labels(i as int),
        decreases n - i,
    {
        s.append("[");
        let d = u64_to_string(i as u64);
        s.append(d.as_str());
        s.append(":a]");
        proof {
            assert(s@ =~= audio_labels(i as int + 1));
        }
        i += 1;
    }
    s
}

/// Append the `-i path` pairs for all of `inputs` to `v`.
pub(crate) fn push_input_pairs(v: &mut Vec<String>, inputs: &Vec<String>)
    ensures
        final(v).deep_view() == old(v).deep_view() + input_pairs(
            inputs.deep_view(),
            inputs.deep_view().len() as int,
        ),
{
    let ghost base = v.deep_view();
    let mut k: usize = 0;
    proof {
        assert(v.deep_view() =~~= base + input_pairs(inputs.deep_view(), 0));
    }
    while k < inputs.len()
        invariant
            k <= inputs@.len(),
            v.deep_view() == base + input_pairs(inputs.deep_view(), k as int),
        decreases inputs@.len() - k,
    {
        let ghost pre = v.deep_view();
        v.push(String::from_str("-i"));
        v.push(inputs[k].clone());
        proof {
            let d = inputs.deep_view();
            assert(input_pairs(d, k as int + 1) =~~= input_pairs(d, k as int) + seq![
                "-i"@,
                d[k as int],
            ]);
            assert(v.deep_view() =~~= pre + seq!["-i"@, d[k as int]]);
            assert(v.deep_view() =~~= base + input_pairs(d, k as int + 1));
        }
        k += 1;
    }
}

/// Arguments of the audio combine command: the input audio files and
/// the output path.
pub struct CombineAudioArgs {
    pub inputs: Vec<String>,
    pub output: String,
}

/// The transcoder argument list that concatenates the input audio
/// files into one: the overwrite flag, the inputs, a concat filter
/// over all audio streams, and the mapped output.
pub open spec fn spec_combine_audio_args(inputs: Seq<Seq<char>>, output: Seq<char>) -> Seq<
    Seq<char>,
> {
    seq!["-y"@] + input_pairs(inputs, inputs.len() as int) + seq![
        "-filter_complex"@,
        audio_labels(inputs.len() as int) + "concat=n="@ + dec_rep(inputs.len() as int)
            + ":v=0:a=1[out]"@,
        "-map"@,
        "[out]"@,
        output,
    ]
}

impl CombineAudioArgs {
    /// Build the transcoder argument list that concatenates the
    /// inputs. Fails with `EmptyInput` when there are no inputs.
    pub fn ffmpeg_args(&self) -> (r: Result<Vec<String>, MediaError>)
        ensures
            self.inputs.deep_view().len() == 0 ==> r == Err::<Vec<String>, MediaError>(
                MediaError::EmptyInput,
            ),
            self.inputs.deep_view().len() > 0 ==> r is Ok && r->Ok_0.deep_view()
                == spec_combine_audio_args(self.inputs.deep_view(), self.output@),
    {
        if self.inputs.len() == 0 {
            return Err(MediaError::EmptyInput);
        }
        let ghost dv = self.inputs.deep_view();
        let ghost n = dv.len() as int;
        let mut v: Vec<String> = Vec::new();
        v.push(String::from_str("-y"));
        proof {
            assert(v.deep_view() =~~= seq!["-y"@]);
            assert(self.inputs.len() as int == n);
        }
        push_input_pairs(&mut v, &self.inputs);
        proof {
            assert(v.deep_view() =~~= seq!["-y"@] + input_pairs(dv, n));
        }
        let ghost mid = v.deep_view();
        let mut filter = audio_labels_exec(self.inputs.len());
        filter.append("concat=n=");
        let d = u64_to_string(self.inputs.len() as u64);
        filter.append(d.as_str());
        filter.append(":v=0:a=1[out]");
        proof {
            assert(filter@ =~= audio_labels(n) + "concat=n="@ + dec_rep(n) + ":v=0:a=1[out]"@);
        }
        v.push(String::from_str("-filter_complex"));
        v.push(filter);
        v.push(String::from_str("-map"));
        v.push(String::from_str("[out]"));
        v.push(self.output.clone());
        proof {
            assert(v.deep_view() =~~= mid + seq![
                "-filter_complex"@,
                audio_labels(n) + "concat=n="@ + dec_rep(n) + ":v=0:a=1[out]"@,
                "-map"@,
                "[out]"@,
                self.output@,
            ]);
            assert(v.deep_view() =~~= spec_combine_audio_args(dv, self.output@));
        }
        Ok(v)
    }
}

} // verus!
