//! The file-conversion command: its argument record and the transcoder
//! argument list it builds. Extra transcoder parameters arrive as one
//! string and are split at runs of whitespace.
use vstd::prelude::*;
use vstd::string::{StrSliceExecFns, StringExecFns};

verus! {

/// The characters with the Unicode `White_Space` property.
pub open spec fn is_ws(c: char) -> bool {
    let u = c as u32;
    ||| (9 <= u && u <= 13)  // tab, line feed, vertical tab, form feed, carriage return
    ||| u == 32  // space
    ||| u == 0x85  // next line
    ||| u == 0xa0  // no-break space
    ||| u == 0x1680  // ogham space mark
    ||| (0x2000 <= u && u <= 0x200a)  // en quad .. hair space
    ||| u == 0x2028  // line separator
    ||| u == 0x2029  // paragraph separator
    ||| u == 0x202f  // narrow no-break space
    ||| u == 0x205f  // medium mathematical space
    ||| u == 0x3000  // ideographic space
}

fn is_ws_exec(c: char) -> (r: bool)
    ensures
        r == is_ws(c),
{
    let u = c as u32;
    (9 <= u && u <= 13) || u == 32 || u == 0x85 || u == 0xa0 || u == 0x1680 || (0x2000 <= u && u
        <= 0x200a) || u == 0x2028 || u == 0x2029 || u == 0x202f || u == 0x205f || u == 0x3000
}

/// The maximal runs of non-whitespace characters of `s`, in order.
pub open spec fn split_ws(s: Seq<char>) -> Seq<Seq<char>>
    decreases s.len(),
{
    if s.len() == 0 {
        seq![]
    } else {
        let rest = split_ws(s.drop_first());
        if is_ws(s[0]) {
            rest
        } else if s.len() > 1 && !is_ws(s[1]) {
            seq![seq![s[0]] + rest[0]] + rest.drop_first()
        } else {
            seq![seq![s[0]]] + rest
        }
    }
}

/// Split a string at runs of whitespace into its tokens.
pub fn split_whitespace(s: &str) -> (r: Vec<String>)
    ensures
        r.deep_view() == split_ws(s@),
    decreases s@.len(),
{
    let n = s.unicode_len();
    if n == 0 {
        let r: Vec<String> = Vec::new();
        proof {
            assert(r.deep_view() =~= split_ws(s@));
        }
        return r;
    }
    let tail = s.substring_char(1, n);
    proof {
        assert(tail@ =~= s@.drop_first());
    }
    let mut rest = split_whitespace(tail);
    let c0 = s.get_char(0);
    if is_ws_exec(c0) {
        proof {
            assert(rest.deep_view() == split_ws(s@));
        }
        rest
    } else {
        let head = s.substring_char(0, 1);
        proof {
            assert(head@ =~= seq![s@[0]]);
        }
        if n > 1 && !is_ws_exec(s.get_char(1)) {
            proof {
                assert(s@.drop_first().len() > 0);
                assert(s@.drop_first()[0] == s@[1]);
                assert(split_ws(s@.drop_first()).len() >= 1);
                assert(rest@.len() >= 1);
            }
            let ghost old_deep = rest.deep_view();
            let first = String::from_str(head).concat(rest[0].as_str());
            rest[0] = first;
            proof {
                assert(rest.deep_view() =~= seq![seq![s@[0]] + old_deep[0]] + old_deep.drop_first());
                assert(rest.deep_view() == split_ws(s@));
            }
            rest
        } else {
            let mut v: Vec<String> = Vec::new();
            v.push(String::from_str(head));
            v.append(&mut rest);
            proof {
                assert(v.deep_view() =~= seq![seq![s@[0]]] + split_ws(s@.drop_first()));
                assert(v.deep_view() == split_ws(s@));
            }
            v
        }
    }
}

/// Arguments of the convert command: an input path, an optional output
/// path, and optional extra transcoder parameters as one string.
pub struct ConvertArgs {
    pub input: String,
    pub output: Option<String>,
    pub extra_args: Option<String>,
}

/// The transcoder argument list of a conversion: the input, the
/// overwrite flag, any extra parameters split at whitespace, and the
/// output last.
pub open spec fn spec_convert_args(
    input: Seq<char>,
    output: Seq<char>,
    extra: Option<Seq<char>>,
) -> Seq<Seq<char>> {
    seq!["-i"@, input, "-y"@] + (if extra is Some {
        split_ws(extra->0)
    } else {
        seq![]
    }) + seq![output]
}

/// Build the transcoder argument list that converts `input` into
/// `output`, with `extra_args` split at whitespace in between.
pub fn convert_file(input: &str, output: &str, extra_args: Option<&str>) -> (args: Vec<String>)
    ensures
        args.deep_view() == spec_convert_args(
            input@,
            output@,
            match extra_args {
                Some(e) => Some(e@),
                None => None,
            },
        ),
{
    let mut v: Vec<String> = Vec::new();
    v.push(String::from_str("-i"));
    v.push(String::from_str(input));
    v.push(String::from_str("-y"));
    match extra_args {
        Some(e) => {
            let mut toks = split_whitespace(e);
            v.append(&mut toks);
        },
        None => {},
    }
    v.push(String::from_str(output));
    proof {
        assert(v.deep_view() =~= spec_convert_args(
            input@,
            output@,
            match extra_args {
                Some(e) => Some(e@),
                None => None,
            },
        ));
    }
    v
}

} // verus!
