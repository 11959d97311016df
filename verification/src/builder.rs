//! The job description: global options, input and output files, redirection
//! policies, and the rendering of the whole model into an argument list.

use vstd::prelude::*;

verus! {

use crate::num::dec_str;
use crate::num::dec_of_u16;

/// A global or per-file option to be passed to ffmpeg.  The leading `-` is
/// never stored; the renderer inserts it.
#[derive(Debug, Clone, PartialEq)]
pub enum Parameter {
    /// An option without a value, such as `-y`.
    Single(String),
    /// An option with a value, such as `-t 10`: rendered as two arguments.
    KeyValue(String, String),
}

/// A file ffmpeg operates on: a url (a plain path works) with the options
/// scoped to it.  Whether it is an input or an output depends on what it is
/// added as.
#[derive(Debug, Clone, PartialEq)]
pub struct File {
    /// The url of the file.
    pub url: String,
    /// The options corresponding to this file.
    pub options: Vec<Parameter>,
}

/// Where one of the subprocess's standard streams goes.
#[derive(Debug, Clone, Copy, PartialEq, Eq, Structural)]
pub enum Redirect {
    /// The stream is discarded.
    Discard,
    /// The stream is inherited from the parent.
    Inherit,
    /// The stream is captured through a pipe.
    Piped,
}

/// The job description: everything needed to render an ffmpeg invocation.
#[derive(Debug, Clone, PartialEq)]
pub struct FfmpegBuilder {
    /// The global options.
    pub options: Vec<Parameter>,
    /// The input files.
    pub inputs: Vec<File>,
    /// The output files.
    pub outputs: Vec<File>,
    /// The executable to run, usually just `ffmpeg`.
    pub ffmpeg_command: String,
    /// Where the subprocess's standard input comes from.
    pub stdin: Redirect,
    /// Where the subprocess's standard output goes.
    pub stdout: Redirect,
    /// Where the subprocess's standard error goes.
    pub stderr: Redirect,
}

/// The views of a rendered argument list.
pub open spec fn arg_views(args: Seq<String>) -> Seq<Seq<char>> {
    args.map_values(|s: String| s@)
}

/// `-` in front of an option name.
pub open spec fn dash(s: Seq<char>) -> Seq<char> {
    "-"@ + s
}

/// How one parameter renders: `-name` for a flag, `-key value` as two
/// arguments for a pair, and one empty argument for a flag with an empty
/// name (a preserved quirk, not normalized).
pub open spec fn param_args(p: Parameter) -> Seq<Seq<char>> {
    match p {
        Parameter::Single(name) => if name@.len() > 0 {
            seq![dash(name@)]
        } else {
            seq![Seq::<char>::empty()]
        },
        Parameter::KeyValue(k, v) => seq![dash(k@), v@],
    }
}

/// How a sequence of parameters renders, in order.
pub open spec fn params_args(ps: Seq<Parameter>) -> Seq<Seq<char>>
    decreases ps.len(),
{
    if ps.len() == 0 {
        Seq::empty()
    } else {
        params_args(ps.drop_last()) + param_args(ps.last())
    }
}

/// How one file renders: its options, then for an input the `-i` marker,
/// then its url.
pub open spec fn file_args(f: File, input: bool) -> Seq<Seq<char>> {
    params_args(f.options@) + (if input {
        seq!["-i"@]
    } else {
        Seq::<Seq<char>>::empty()
    }) + seq![f.url@]
}

/// How a sequence of files renders, in order.
pub open spec fn files_args(fs: Seq<File>, input: bool) -> Seq<Seq<char>>
    decreases fs.len(),
{
    if fs.len() == 0 {
        Seq::empty()
    } else {
        files_args(fs.drop_last(), input) + file_args(fs.last(), input)
    }
}

/// The whole argument list a builder renders to: global options, then each
/// input (options, `-i`, url), then each output (options, url).
pub open spec fn builder_args(b: FfmpegBuilder) -> Seq<Seq<char>> {
    params_args(b.options@) + files_args(b.inputs@, true) + files_args(b.outputs@, false)
}

impl Parameter {
    /// Appends this parameter's rendered form to an argument list.
    pub fn push_to(&self, args: &mut Vec<String>)
        ensures
            arg_views(final(args)@) == arg_views(old(args)@) + param_args(*self),
    {
        match self {
            Parameter::Single(name) => {
                if name.as_str().unicode_len() > 0 {
                    args.push(String::from_str("-").concat(name.as_str()));
                } else {
                    args.push(String::new());
                }
            },
            Parameter::KeyValue(k, v) => {
                args.push(String::from_str("-").concat(k.as_str()));
                args.push(v.clone());
            },
        }
        proof {
            assert(arg_views(final(args)@) =~= arg_views(old(args)@) + param_args(*self));
        }
    }
}

impl File {
    /// A file without any options set.
    pub fn new(url: String) -> (r: File)
        ensures
            r.url == url,
            r.options@.len() == 0,
    {
        File { url, options: Vec::new() }
    }

    /// Adds an option scoped to this file.
    pub fn option(self, option: Parameter) -> (r: File)
        ensures
            r.url == self.url,
            r.options@ == self.options@.push(option),
    {
        let mut f = self;
        f.options.push(option);
        f
    }

    /// Appends this file's rendered form to an argument list: its options,
    /// an `-i` marker when it is an input, then its url.
    pub fn push_to(&self, args: &mut Vec<String>, input: bool)
        ensures
            arg_views(final(args)@) == arg_views(old(args)@) + file_args(*self, input),
    {
        let mut i: usize = 0;
        while i < self.options.len()
            invariant
                i <= self.options@.len(),
                arg_views(args@) == arg_views(old(args)@) + params_args(
                    self.options@.subrange(0, i as int),
                ),
            decreases self.options@.len() - i,
        {
            self.options[i].push_to(args);
            proof {
                let ps = self.options@;
                assert(ps.subrange(0, i + 1).drop_last() =~= ps.subrange(0, i as int));
                assert(ps.subrange(0, i + 1).last() == ps[i as int]);
            }
            i += 1;
        }
        proof {
            assert(self.options@.subrange(0, self.options@.len() as int) =~= self.options@);
        }
        let ghost mid = args@;
        if input {
            args.push(String::from_str("-i"));
        }
        args.push(self.url.clone());
        proof {
            let rhs = arg_views(old(args)@) + file_args(*self, input);
            assert(arg_views(mid) == arg_views(old(args)@) + params_args(self.options@));
            if input {
                assert(args@.len() == mid.len() + 2);
                assert(args@[mid.len() as int]@ == "-i"@);
            } else {
                assert(args@.len() == mid.len() + 1);
            }
            assert(args@[args@.len() - 1]@ == self.url@);
            assert(forall|j: int| 0 <= j < mid.len() ==> args@[j] == mid[j]);
            assert(arg_views(args@).len() == rhs.len());
            assert forall|j: int| 0 <= j < arg_views(args@).len() implies arg_views(args@)[j]
                == rhs[j] by {
                if j < mid.len() {
                    assert(args@[j] == mid[j]);
                    assert(arg_views(args@)[j] == arg_views(mid)[j]);
                } else if input && j == mid.len() {
                    assert(arg_views(args@)[j] == "-i"@);
                } else {
                    assert(arg_views(args@)[j] == self.url@);
                }
            }
            assert(arg_views(args@) =~= rhs);
        }
    }
}

impl FfmpegBuilder {
    /// A builder with nothing set: no options or files, the conventional
    /// executable name, and every stream discarded.
    pub fn new() -> (r: FfmpegBuilder)
        ensures
            r.options@.len() == 0,
            r.inputs@.len() == 0,
            r.outputs@.len() == 0,
            r.ffmpeg_command@ == "ffmpeg"@,
            r.stdin == Redirect::Discard,
            r.stdout == Redirect::Discard,
            r.stderr == Redirect::Discard,
    {
        FfmpegBuilder {
            options: Vec::new(),
            inputs: Vec::new(),
            outputs: Vec::new(),
            ffmpeg_command: String::from_str("ffmpeg"),
            stdin: Redirect::Discard,
            stdout: Redirect::Discard,
            stderr: Redirect::Discard,
        }
    }

    /// Adds a global option.
    pub fn option(self, option: Parameter) -> (r: Self)
        ensures
            r.options@ == self.options@.push(option),
            r.inputs == self.inputs,
            r.outputs == self.outputs,
            r.ffmpeg_command == self.ffmpeg_command,
            r.stdin == self.stdin,
            r.stdout == self.stdout,
            r.stderr == self.stderr,
    {
        let mut b = self;
        b.options.push(option);
        b
    }

    /// Adds an input file.
    pub fn input(self, input: File) -> (r: Self)
        ensures
            r.inputs@ == self.inputs@.push(input),
            r.options == self.options,
            r.outputs == self.outputs,
            r.ffmpeg_command == self.ffmpeg_command,
            r.stdin == self.stdin,
            r.stdout == self.stdout,
            r.stderr == self.stderr,
    {
        let mut b = self;
        b.inputs.push(input);
        b
    }

    /// Adds an output file.
    pub fn output(self, output: File) -> (r: Self)
        ensures
            r.outputs@ == self.outputs@.push(output),
            r.options == self.options,
            r.inputs == self.inputs,
            r.ffmpeg_command == self.ffmpeg_command,
            r.stdin == self.stdin,
            r.stdout == self.stdout,
            r.stderr == self.stderr,
    {
        let mut b = self;
        b.outputs.push(output);
        b
    }

    /// Sets the subprocess's standard input policy.
    pub fn stdin(self, stdin: Redirect) -> (r: Self)
        ensures
            r.stdin == stdin,
            r.options == self.options,
            r.inputs == self.inputs,
            r.outputs == self.outputs,
            r.ffmpeg_command == self.ffmpeg_command,
            r.stdout == self.stdout,
            r.stderr == self.stderr,
    {
        let mut b = self;
        b.stdin = stdin;
        b
    }

    /// Sets the subprocess's standard output policy.
    pub fn stdout(self, stdout: Redirect) -> (r: Self)
        ensures
            r.stdout == stdout,
            r.options == self.options,
            r.inputs == self.inputs,
            r.outputs == self.outputs,
            r.ffmpeg_command == self.ffmpeg_command,
            r.stdin == self.stdin,
            r.stderr == self.stderr,
    {
        let mut b = self;
        b.stdout = stdout;
        b
    }

    /// Sets the subprocess's standard error policy.
    pub fn stderr(self, stderr: Redirect) -> (r: Self)
        ensures
            r.stderr == stderr,
            r.options == self.options,
            r.inputs == self.inputs,
            r.outputs == self.outputs,
            r.ffmpeg_command == self.ffmpeg_command,
            r.stdin == self.stdin,
            r.stdout == self.stdout,
    {
        let mut b = self;
        b.stderr = stderr;
        b
    }

    /// Renders the whole model into the argument list the subprocess is
    /// started with: global options, then each input's options, `-i` and url,
    /// then each output's options and url.  Arbitrary strings pass through
    /// unescaped; nothing is validated.
    pub fn to_args(&self) -> (args: Vec<String>)
        ensures
            arg_views(args@) == builder_args(*self),
    {
        let mut args: Vec<String> = Vec::new();
        let mut i: usize = 0;
        while i < self.options.len()
            invariant
                i <= self.options@.len(),
                arg_views(args@) == params_args(self.options@.subrange(0, i as int)),
            decreases self.options@.len() - i,
        {
            self.options[i].push_to(&mut args);
            proof {
                let ps = self.options@;
                assert(ps.subrange(0, i + 1).drop_last() =~= ps.subrange(0, i as int));
                assert(ps.subrange(0, i + 1).last() == ps[i as int]);
            }
            i += 1;
        }
        proof {
            assert(self.options@.subrange(0, self.options@.len() as int) =~= self.options@);
        }
        let ghost base = params_args(self.options@);
        let mut i: usize = 0;
        while i < self.inputs.len()
            invariant
                i <= self.inputs@.len(),
                arg_views(args@) == base + files_args(self.inputs@.subrange(0, i as int), true),
            decreases self.inputs@.len() - i,
        {
            self.inputs[i].push_to(&mut args, true);
            proof {
                let fs = self.inputs@;
                assert(fs.subrange(0, i + 1).drop_last() =~= fs.subrange(0, i as int));
                assert(fs.subrange(0, i + 1).last() == fs[i as int]);
                assert(base + files_args(fs.subrange(0, i as int), true) + file_args(
                    fs[i as int],
                    true,
                ) =~= base + files_args(fs.subrange(0, i + 1), true));
            }
            i += 1;
        }
        proof {
            assert(self.inputs@.subrange(0, self.inputs@.len() as int) =~= self.inputs@);
        }
        let ghost base2 = base + files_args(self.inputs@, true);
        let mut i: usize = 0;
        while i < self.outputs.len()
            invariant
                i <= self.outputs@.len(),
                arg_views(args@) == base2 + files_args(self.outputs@.subrange(0, i as int), false),
            decreases self.outputs@.len() - i,
        {
            self.outputs[i].push_to(&mut args, false);
            proof {
                let fs = self.outputs@;
                assert(fs.subrange(0, i + 1).drop_last() =~= fs.subrange(0, i as int));
                assert(fs.subrange(0, i + 1).last() == fs[i as int]);
                assert(base2 + files_args(fs.subrange(0, i as int), false) + file_args(
                    fs[i as int],
                    false,
                ) =~= base2 + files_args(fs.subrange(0, i + 1), false));
            }
            i += 1;
        }
        proof {
            assert(self.outputs@.subrange(0, self.outputs@.len() as int) =~= self.outputs@);
            assert(base2 + files_args(self.outputs@, false) =~= builder_args(*self));
        }
        args
    }

    /// Appends the global option that tells ffmpeg to stream its progress to
    /// the loopback endpoint on `port`, after all user-supplied options.
    pub fn report_to(self, port: u16) -> (r: Self)
        ensures
            r.options@.len() == self.options@.len() + 1,
            r.options@.subrange(0, self.options@.len() as int) == self.options@,
            match r.options@.last() {
                Parameter::KeyValue(k, v) => k@ == "progress"@ && v@ == "tcp://127.0.0.1:"@
                    + dec_str(port as int),
                _ => false,
            },
            r.inputs == self.inputs,
            r.outputs == self.outputs,
            r.ffmpeg_command == self.ffmpeg_command,
            r.stdin == self.stdin,
            r.stdout == self.stdout,
            r.stderr == self.stderr,
    {
        let url = progress_url(port);
        let r = self.option(Parameter::KeyValue(String::from_str("progress"), url));
        proof {
            assert(r.options@.subrange(0, r.options@.len() - 1) =~= self.options@);
        }
        r
    }
}

/// The reporting destination handed to ffmpeg for a loopback listener on the
/// given port.
pub fn progress_url(port: u16) -> (r: String)
    ensures
        r@ == "tcp://127.0.0.1:"@ + dec_str(port as int),
{
    let mut s = String::from_str("tcp://127.0.0.1:");
    let digits = dec_of_u16(port);
    s.append(digits.as_str());
    s
}

} // verus!
