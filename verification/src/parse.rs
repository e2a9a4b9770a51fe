//! Command-line parsing.

use vstd::prelude::*;
use vstd::slice::slice_subrange;
use crate::plan::opt_chars;
use crate::text::str_eq;

verus! {

/// Arguments parsed from the command line.
pub struct Args<'a> {
    /// Path to the root filesystem.
    pub rootfs: Option<String>,
    /// Docker image name to pull/use.
    pub image: Option<&'a str>,
    /// Volume path on the host to mount into the container.
    pub volume: Option<String>,
    /// Command to execute inside the container, along with its arguments.
    pub command: &'a [String],
}

/// Why the command line was refused.
#[derive(Clone, Copy, Debug, PartialEq, Eq, Structural)]
pub enum ParseError {
    /// `-v` is the last argument.
    MissingVolumeValue,
    /// `-I` is the last argument.
    MissingImageValue,
    /// `-R` is the last argument.
    MissingRootfsValue,
    /// The command comes before any root filesystem or image.
    MissingSource,
    /// Both a root filesystem and an image are given; they exclude each other.
    ConflictingSources,
    /// The arguments end before a command.
    MissingCommand,
}

/// The message of each parse error.
pub open spec fn parse_error_message(e: ParseError) -> Seq<char> {
    match e {
        ParseError::MissingVolumeValue => "Missing value for -v"@,
        ParseError::MissingImageValue => "Missing value for -I"@,
        ParseError::MissingRootfsValue => "Missing value for -R"@,
        ParseError::MissingSource => "You must provide a rootfs path or use -I <image>"@,
        ParseError::ConflictingSources => "A rootfs path and -I <image> exclude each other"@,
        ParseError::MissingCommand => "You must provide a command to execute"@,
    }
}

impl ParseError {
    /// The message that the error is reported with.
    pub fn message(&self) -> (res: &'static str)
        ensures
            res@ == parse_error_message(*self),
    {
        match self {
            ParseError::MissingVolumeValue => "Missing value for -v",
            ParseError::MissingImageValue => "Missing value for -I",
            ParseError::MissingRootfsValue => "Missing value for -R",
            ParseError::MissingSource => "You must provide a rootfs path or use -I <image>",
            ParseError::ConflictingSources => "A rootfs path and -I <image> exclude each other",
            ParseError::MissingCommand => "You must provide a command to execute",
        }
    }
}

/// The outcome of parsing, over plain values.
pub enum Parsed {
    /// `-h` was given before the command.
    Help,
    /// The options, and the index at which the command starts.
    Run { rootfs: Option<Seq<char>>, image: Option<Seq<char>>, volume: Option<Seq<char>>, start: int },
    /// The command line is refused.
    Failed(ParseError),
}

/// The characters of each argument.
pub open spec fn words(args: Seq<String>) -> Seq<Seq<char>> {
    args.map_values(|s: String| s@)
}

/// Parsing from the argument at `i` on, with the options seen so far: `-h`
/// asks for help, `-v`, `-I` and `-R` take the next argument as the volume,
/// the image and the root filesystem (a later one replaces an earlier one),
/// and the first other argument starts the command, which needs exactly one
/// of a root filesystem and an image before it.
pub open spec fn parse_from(
    w: Seq<Seq<char>>,
    i: int,
    rootfs: Option<Seq<char>>,
    image: Option<Seq<char>>,
    volume: Option<Seq<char>>,
) -> Parsed
    decreases w.len() - i,
{
    if i < 0 || i >= w.len() {
        Parsed::Failed(ParseError::MissingCommand)
    } else if w[i] == "-h"@ {
        Parsed::Help
    } else if w[i] == "-v"@ {
        if i + 1 >= w.len() {
            Parsed::Failed(ParseError::MissingVolumeValue)
        } else {
            parse_from(w, i + 2, rootfs, image, Some(w[i + 1]))
        }
    } else if w[i] == "-I"@ {
        if i + 1 >= w.len() {
            Parsed::Failed(ParseError::MissingImageValue)
        } else {
            parse_from(w, i + 2, rootfs, Some(w[i + 1]), volume)
        }
    } else if w[i] == "-R"@ {
        if i + 1 >= w.len() {
            Parsed::Failed(ParseError::MissingRootfsValue)
        } else {
            parse_from(w, i + 2, Some(w[i + 1]), image, volume)
        }
    } else if rootfs is None && image is None {
        Parsed::Failed(ParseError::MissingSource)
    } else if rootfs is Some && image is Some {
        Parsed::Failed(ParseError::ConflictingSources)
    } else {
        Parsed::Run { rootfs, image, volume, start: i }
    }
}

/// What parsing the whole command line gives.
pub open spec fn parse_spec(w: Seq<Seq<char>>) -> Parsed {
    parse_from(w, 0, None, None, None)
}

/// The characters of an optional string slice.
pub open spec fn opt_str(o: Option<&str>) -> Option<Seq<char>> {
    match o {
        Some(s) => Some(s@),
        None => None,
    }
}

/// Whether `res` is what `parse_args` owes for `args`.
pub open spec fn parse_result_matches(args: Seq<String>, res: Result<Option<Args>, ParseError>) -> bool {
    match parse_spec(words(args)) {
        Parsed::Help => res matches Ok(None),
        Parsed::Run { rootfs, image, volume, start } => res matches Ok(Some(a)) && opt_chars(a.rootfs)
            == rootfs && opt_str(a.image) == image && opt_chars(a.volume) == volume && a.command@
            == args.subrange(start, args.len() as int),
        Parsed::Failed(e) => res == Err::<Option<Args>, ParseError>(e),
    }
}

/// Parses command line arguments.
///
/// Handles the flags for volume (`-v`), image (`-I`) and rootfs (`-R`); the
/// remaining arguments are the command to execute. `Ok(None)` stands for
/// `-h`, on which the caller shows the usage.
pub fn parse_args<'a>(args: &'a [String]) -> (res: Result<Option<Args<'a>>, ParseError>)
    ensures
        parse_result_matches(args@, res),
{
    let mut rootfs: Option<String> = None;
    let mut image: Option<&'a str> = None;
    let mut volume: Option<String> = None;
    let len: usize = args.len();
    let mut i: usize = 0;
    let ghost w = words(args@);
    while i < len
        invariant
            len == args@.len(),
            i <= len,
            w == words(args@),
            parse_spec(w) == parse_from(w, i as int, opt_chars(rootfs), opt_str(image), opt_chars(volume)),
        decreases len - i,
    {
        let arg = args[i].as_str();
        assert(w[i as int] == arg@);
        if str_eq(arg, "-h") {
            return Ok(None);
        } else if str_eq(arg, "-v") {
            if i + 1 >= len {
                return Err(ParseError::MissingVolumeValue);
            }
            volume = Some(args[i + 1].clone());
            assert(w[i + 1] == args@[i + 1]@);
        } else if str_eq(arg, "-I") {
            if i + 1 >= len {
                return Err(ParseError::MissingImageValue);
            }
            image = Some(args[i + 1].as_str());
            assert(w[i + 1] == args@[i + 1]@);
        } else if str_eq(arg, "-R") {
            if i + 1 >= len {
                return Err(ParseError::MissingRootfsValue);
            }
            rootfs = Some(args[i + 1].clone());
            assert(w[i + 1] == args@[i + 1]@);
        } else {
            let command = slice_subrange(args, i, len);
            if rootfs.is_none() && image.is_none() {
                return Err(ParseError::MissingSource);
            }
            if rootfs.is_some() && image.is_some() {
                return Err(ParseError::ConflictingSources);
            }
            return Ok(Some(Args { rootfs, image, volume, command }));
        }
        i = i + 2;
    }
    Err(ParseError::MissingCommand)
}

proof fn lemma_parse_from_run(
    w: Seq<Seq<char>>,
    i: int,
    rootfs: Option<Seq<char>>,
    image: Option<Seq<char>>,
    volume: Option<Seq<char>>,
)
    requires
        0 <= i,
    ensures
        parse_from(w, i, rootfs, image, volume) matches Parsed::Run { rootfs: r, image: m, start, .. }
            ==> (r is Some != m is Some) && i <= start < w.len(),
    decreases w.len() - i,
{
    if i < w.len() && i + 1 < w.len() {
        if w[i] == "-h"@ {
        } else if w[i] == "-v"@ {
            lemma_parse_from_run(w, i + 2, rootfs, image, Some(w[i + 1]));
        } else if w[i] == "-I"@ {
            lemma_parse_from_run(w, i + 2, rootfs, Some(w[i + 1]), volume);
        } else if w[i] == "-R"@ {
            lemma_parse_from_run(w, i + 2, Some(w[i + 1]), image, volume);
        }
    }
}

/// A command line that is accepted names either a root filesystem or an
/// image, not both, and a command of at least one argument, which runs to the
/// end of the line.
pub proof fn law_accepted_has_source_and_command(args: Seq<String>)
    ensures
        parse_spec(words(args)) matches Parsed::Run { rootfs, image, start, .. } ==> (rootfs is Some
            != image is Some) && 0 <= start < args.len(),
{
    lemma_parse_from_run(words(args), 0, None, None, None);
}

/// The flags that take a value: `-v`, `-I` and `-R`.
pub open spec fn is_option_flag(word: Seq<char>) -> bool {
    word == "-v"@ || word == "-I"@ || word == "-R"@
}

/// The flags that the parser knows: `-h` and those that take a value.
pub open spec fn is_flag(word: Seq<char>) -> bool {
    word == "-h"@ || is_option_flag(word)
}

/// Whether the first `k` arguments are options: at each even index below
/// `k` a flag that takes a value, followed by its value.
pub open spec fn options_before(w: Seq<Seq<char>>, k: int) -> bool {
    &&& 0 <= k
    &&& k % 2 == 0
    &&& forall|j: int| 0 <= j < k && j % 2 == 0 ==> #[trigger] is_option_flag(w[j]) && j + 1 < w.len()
}

/// The value after the last `flag` at an even index below `k`, if any.
pub open spec fn last_value(w: Seq<Seq<char>>, k: int, flag: Seq<char>) -> Option<Seq<char>>
    decreases k,
{
    if k < 2 {
        None
    } else if w[k - 2] == flag {
        Some(w[k - 1])
    } else {
        last_value(w, k - 2, flag)
    }
}

/// Parsing from `k`, with the options before `k` read.
pub open spec fn parse_after_options(w: Seq<Seq<char>>, k: int) -> Parsed {
    parse_from(w, k, last_value(w, k, "-R"@), last_value(w, k, "-I"@), last_value(w, k, "-v"@))
}

proof fn lemma_flags_differ()
    ensures
        "-h"@ != "-v"@,
        "-h"@ != "-I"@,
        "-h"@ != "-R"@,
        "-v"@ != "-I"@,
        "-v"@ != "-R"@,
        "-I"@ != "-R"@,
{
    reveal_strlit("-h");
    reveal_strlit("-v");
    reveal_strlit("-I");
    reveal_strlit("-R");
    assert("-h"@[1] != "-v"@[1]);
    assert("-h"@[1] != "-I"@[1]);
    assert("-h"@[1] != "-R"@[1]);
    assert("-v"@[1] != "-I"@[1]);
    assert("-v"@[1] != "-R"@[1]);
    assert("-I"@[1] != "-R"@[1]);
}

/// The options at the start of the line are read in order.
proof fn lemma_consume_options(w: Seq<Seq<char>>, k: int)
    requires
        options_before(w, k),
    ensures
        parse_spec(w) == parse_after_options(w, k),
    decreases k,
{
    lemma_flags_differ();
    if k >= 2 {
        let j = k - 2;
        assert(j % 2 == 0);
        assert(0 <= j < k);
        assert(forall|i: int| 0 <= i < k && i % 2 == 0 ==> #[trigger] is_option_flag(w[i]) && i + 1 < w.len());
        assert(is_option_flag(w[j]));
        assert(options_before(w, j)) by {
            assert forall|i: int| 0 <= i < j && i % 2 == 0 implies #[trigger] is_option_flag(w[i]) && i + 1
                < w.len() by {
                assert(is_option_flag(w[i]) && i + 1 < w.len());
            }
        }
        assert(is_option_flag(w[j]) && j + 1 < w.len());
        lemma_consume_options(w, j);
    }
}

/// How parsing goes on from options read up to `k`: help, a run, or a
/// failure, each as the line is made up from `k` on.
proof fn lemma_after_options(w: Seq<Seq<char>>, k: int)
    requires
        options_before(w, k),
    ensures
        parse_after_options(w, k) is Help ==> exists|m: int|
            options_before(w, m) && m < w.len() && #[trigger] w[m] == "-h"@,
        parse_after_options(w, k) matches Parsed::Run { rootfs, image, volume, start } ==> {
            &&& options_before(w, start)
            &&& start < w.len()
            &&& !is_flag(w[start])
            &&& rootfs == last_value(w, start, "-R"@)
            &&& image == last_value(w, start, "-I"@)
            &&& volume == last_value(w, start, "-v"@)
            &&& (rootfs is Some != image is Some)
        },
    decreases w.len() - k,
{
    lemma_flags_differ();
    if k < w.len() {
        if w[k] == "-h"@ {
        } else if is_option_flag(w[k]) && k + 1 < w.len() {
            assert(options_before(w, k + 2)) by {
                assert forall|i: int| 0 <= i < k + 2 && i % 2 == 0 implies #[trigger] is_option_flag(w[i])
                    && i + 1 < w.len() by {
                    if i < k {
                        assert(is_option_flag(w[i]) && i + 1 < w.len());
                    }
                }
            }
            lemma_after_options(w, k + 2);
        }
    }
}

/// `-h` asks for help exactly where an option is expected: the line asks
/// for help if and only if its first arguments are options with their
/// values, and the next one is `-h`.
pub proof fn law_help_exactly_where_option_expected(args: Seq<String>)
    ensures
        parse_spec(words(args)) is Help <==> exists|m: int|
            options_before(words(args), m) && m < args.len() && #[trigger] words(args)[m] == "-h"@,
{
    let w = words(args);
    assert(options_before(w, 0));
    lemma_consume_options(w, 0);
    lemma_after_options(w, 0);
    if exists|m: int| options_before(w, m) && m < w.len() && #[trigger] w[m] == "-h"@ {
        let m = choose|m: int| options_before(w, m) && m < w.len() && #[trigger] w[m] == "-h"@;
        lemma_consume_options(w, m);
    }
}

/// How an accepted line is made up: options with their values, each flag
/// at an even index, then a command whose first word is no flag; the
/// options hold the value after the last `-R`, `-I` and `-v` respectively,
/// and exactly one of a root filesystem and an image is given. Every such
/// line is accepted.
pub proof fn law_accepted_line_shape(args: Seq<String>)
    ensures
        parse_spec(words(args)) matches Parsed::Run { rootfs, image, volume, start } ==> {
            let w = words(args);
            &&& options_before(w, start)
            &&& start < args.len()
            &&& !is_flag(w[start])
            &&& rootfs == last_value(w, start, "-R"@)
            &&& image == last_value(w, start, "-I"@)
            &&& volume == last_value(w, start, "-v"@)
            &&& (rootfs is Some != image is Some)
        },
        forall|k: int|
            options_before(words(args), k) && k < args.len() && !is_flag(#[trigger] words(args)[k])
                && (last_value(words(args), k, "-R"@) is Some != last_value(words(args), k, "-I"@) is Some)
                ==> parse_spec(words(args)) == (Parsed::Run {
                rootfs: last_value(words(args), k, "-R"@),
                image: last_value(words(args), k, "-I"@),
                volume: last_value(words(args), k, "-v"@),
                start: k,
            }),
{
    let w = words(args);
    assert(options_before(w, 0));
    lemma_consume_options(w, 0);
    lemma_after_options(w, 0);
    assert forall|k: int|
        options_before(w, k) && k < args.len() && !is_flag(#[trigger] w[k]) && (last_value(w, k, "-R"@) is Some
            != last_value(w, k, "-I"@) is Some) implies parse_spec(w) == (Parsed::Run {
        rootfs: last_value(w, k, "-R"@),
        image: last_value(w, k, "-I"@),
        volume: last_value(w, k, "-v"@),
        start: k,
    }) by {
        lemma_consume_options(w, k);
    }
}

} // verus!
