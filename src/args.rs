use vstd::prelude::*;
use vstd::string::*;

verus! {

/// The operation asked for on the command line.
#[derive(Debug, Clone, Copy, PartialEq, Eq, Structural)]
pub enum Op {
    Enc,
    Dec,
}

/// A parsed command line.
#[derive(Debug)]
pub struct Args {
    pub op: Op,
    pub input_path: String,
    pub output_path: String,
    pub password: Option<String>,
    pub quiet: bool,
}

/// A parsed command line, as text.
pub ghost struct ArgsView {
    pub op: Op,
    pub input_path: Seq<char>,
    pub output_path: Seq<char>,
    pub password: Option<Seq<char>>,
    pub quiet: bool,
}

impl View for Args {
    type V = ArgsView;

    open spec fn view(&self) -> ArgsView {
        ArgsView {
            op: self.op,
            input_path: self.input_path@,
            output_path: self.output_path@,
            password: match self.password {
                Some(p) => Some(p@),
                None => None,
            },
            quiet: self.quiet,
        }
    }
}

/// The command-line words as text.
pub open spec fn arg_views(args: Seq<String>) -> Seq<Seq<char>> {
    args.map_values(|s: String| s@)
}

/// The operation a word names, if any.
pub open spec fn op_spec(word: Seq<char>) -> Option<Op> {
    if word == "-e"@ || word == "--encrypt"@ {
        Some(Op::Enc)
    } else if word == "-d"@ || word == "--decrypt"@ {
        Some(Op::Dec)
    } else {
        None
    }
}

/// The options from word `i` on, given what earlier options set: the quiet
/// flag, the output path and the password, or the message of the first error.
pub open spec fn options_spec(
    args: Seq<Seq<char>>,
    i: int,
    quiet: bool,
    output: Option<Seq<char>>,
    password: Option<Seq<char>>,
) -> Result<(bool, Option<Seq<char>>, Option<Seq<char>>), Seq<char>>
    decreases args.len() - i,
{
    if i < 0 || i >= args.len() {
        Ok((quiet, output, password))
    } else {
        let v = args[i];
        if v == "-q"@ || v == "--quiet"@ {
            options_spec(args, i + 1, true, output, password)
        } else if v == "-p"@ || v == "--password"@ {
            if password is Some {
                Err("one password option only"@)
            } else if i + 1 >= args.len() {
                Err("missing option value"@)
            } else {
                options_spec(args, i + 2, quiet, output, Some(args[i + 1]))
            }
        } else if v == "-o"@ || v == "--output"@ {
            if output is Some {
                Err("one output option only"@)
            } else if i + 1 >= args.len() {
                Err("missing option value"@)
            } else {
                options_spec(args, i + 2, quiet, Some(args[i + 1]), password)
            }
        } else {
            Err("unknown option"@)
        }
    }
}

/// Whether `s` ends with the container file extension `.decx`.
pub open spec fn has_container_extension(s: Seq<char>) -> bool {
    s.len() >= 5 && s.subrange(s.len() - 5, s.len() as int) == ".decx"@
}

/// The output path used when none is given: `<input>.decx` when encrypting;
/// when decrypting, the input without its `.decx` extension, or `<input>.out`.
pub open spec fn default_output_spec(op: Op, input: Seq<char>) -> Seq<char> {
    match op {
        Op::Enc => input + ".decx"@,
        Op::Dec => if has_container_extension(input) {
            input.subrange(0, input.len() - 5)
        } else {
            input + ".out"@
        },
    }
}

/// What parsing the command-line words gives, where `input_exists` says
/// whether the input path names an existing file.
pub open spec fn parse_args_spec(args: Seq<Seq<char>>, input_exists: bool) -> Result<ArgsView, Seq<char>> {
    if args.len() < 2 {
        Err("arg too short"@)
    } else if op_spec(args[0]) is None {
        Err("unknown operation"@)
    } else if !input_exists {
        Err("no such file"@)
    } else {
        let op = op_spec(args[0]).unwrap();
        match options_spec(args, 2, false, None, None) {
            Err(e) => Err(e),
            Ok((quiet, output, password)) => Ok(
                ArgsView {
                    op,
                    input_path: args[1],
                    output_path: match output {
                        Some(o) => o,
                        None => default_output_spec(op, args[1]),
                    },
                    password,
                    quiet,
                },
            ),
        }
    }
}

/// A parse result seen as text.
pub open spec fn parse_result_view(r: Result<Args, String>) -> Result<ArgsView, Seq<char>> {
    match r {
        Ok(a) => Ok(a@),
        Err(e) => Err(e@),
    }
}

/// Relies on `std::path::Path::exists`: whether the path names something on
/// disk at the moment of the call. That changes over time, so nothing is
/// stated of the answer.
#[verifier::external_body]
fn path_exists(path: &str) -> (r: bool) {
    std::path::Path::new(path).exists()
}

fn is_word(s: &String, short: &str, long: &str) -> (r: bool)
    ensures
        r == (s@ == short@ || s@ == long@),
{
    let a = String::from_str(short);
    let b = String::from_str(long);
    *s == a || *s == b
}

fn copy_string(s: &String) -> (r: String)
    ensures
        r@ == s@,
{
    String::from_str(s.as_str())
}

/// The default output path for `op` and `input`.
pub fn default_output(op: Op, input: &String) -> (r: String)
    ensures
        r@ == default_output_spec(op, input@),
{
    match op {
        Op::Enc => copy_string(input).concat(".decx"),
        Op::Dec => {
            let n = input.as_str().unicode_len();
            if n >= 5 {
                let tail = String::from_str(input.as_str().substring_char(n - 5, n));
                let ext = String::from_str(".decx");
                if tail == ext {
                    return String::from_str(input.as_str().substring_char(0, n - 5));
                }
            }
            copy_string(input).concat(".out")
        },
    }
}

/// Parses the command-line words (without the program name) given whether
/// the input path names an existing file: operation, input path, then the
/// options `-q`/`--quiet`, `-p`/`--password <pw>`, `-o`/`--output <path>`.
pub fn parse_args_with(args: &Vec<String>, input_exists: bool) -> (r: Result<Args, String>)
    ensures
        parse_result_view(r) == parse_args_spec(arg_views(args@), input_exists),
{
    let ghost words = arg_views(args@);
    if args.len() < 2 {
        return Err(String::from_str("arg too short"));
    }
    let op = if is_word(&args[0], "-e", "--encrypt") {
        Op::Enc
    } else if is_word(&args[0], "-d", "--decrypt") {
        Op::Dec
    } else {
        return Err(String::from_str("unknown operation"));
    };
    if !input_exists {
        return Err(String::from_str("no such file"));
    }
    let input_path = copy_string(&args[1]);
    assert(words[0] == args@[0]@ && words[1] == args@[1]@);
    let mut quiet = false;
    let mut output_path: Option<String> = None;
    let mut password: Option<String> = None;
    let mut i: usize = 2;
    while i < args.len()
        invariant
            words == arg_views(args@),
            words.len() == args@.len(),
            op_spec(words[0]) == Some(op),
            input_exists,
            input_path@ == words[1],
            2 <= i <= args@.len() + 1,
            options_spec(words, 2, false, None, None) == options_spec(
                words,
                i as int,
                quiet,
                match output_path {
                    Some(o) => Some(o@),
                    None => None,
                },
                match password {
                    Some(p) => Some(p@),
                    None => None,
                },
            ),
        decreases args@.len() + 1 - i,
    {
        let v = &args[i];
        assert(words[i as int] == v@);
        if is_word(v, "-q", "--quiet") {
            quiet = true;
            i = i + 1;
        } else if is_word(v, "-p", "--password") {
            if password.is_some() {
                return Err(String::from_str("one password option only"));
            }
            if i + 1 >= args.len() {
                return Err(String::from_str("missing option value"));
            }
            assert(words[i + 1] == args@[i + 1]@);
            password = Some(copy_string(&args[i + 1]));
            i = i + 2;
        } else if is_word(v, "-o", "--output") {
            if output_path.is_some() {
                return Err(String::from_str("one output option only"));
            }
            if i + 1 >= args.len() {
                return Err(String::from_str("missing option value"));
            }
            assert(words[i + 1] == args@[i + 1]@);
            output_path = Some(copy_string(&args[i + 1]));
            i = i + 2;
        } else {
            return Err(String::from_str("unknown option"));
        }
    }
    let output = match output_path {
        Some(o) => o,
        None => default_output(op, &input_path),
    };
    Ok(Args { op, input_path, output_path: output, password, quiet })
}

/// Parses the command-line words (without the program name), checking on
/// disk, once the operation is known, whether the input path exists.
pub fn parse_args(args: &Vec<String>) -> (r: Result<Args, String>)
    ensures
        exists|input_exists: bool|
            parse_result_view(r) == parse_args_spec(arg_views(args@), input_exists),
{
    let input_exists = if args.len() >= 2 {
        path_exists(args[1].as_str())
    } else {
        false
    };
    let r = parse_args_with(args, input_exists);
    assert(parse_result_view(r) == parse_args_spec(arg_views(args@), input_exists));
    r
}

} // verus!
