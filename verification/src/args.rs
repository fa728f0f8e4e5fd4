//! Command-line arguments: `--model-dir <dir> [--engine vits|kokoro|supertonic]`.
use vstd::prelude::*;
use crate::text::same_text;

verus! {

/// What the sidecar was asked to run.
pub struct Args {
    /// `vits`, `kokoro` or `supertonic`; `vits` when not given.
    pub engine: String,
    /// The model directory.
    pub model_dir: String,
}

/// The outcome of a well-formed command line.
pub enum ArgsOutcome {
    /// Run the service with these arguments.
    Run(Args),
    /// Print the usage line and exit successfully.
    Help,
}

/// Why a command line was refused.
pub enum ArgsError {
    /// `--engine` was the last argument.
    EngineValueMissing,
    /// `--model-dir` was the last argument.
    ModelDirValueMissing,
    /// An argument that is none of the known flags.
    UnknownArgument(String),
    /// No `--model-dir` was given.
    ModelDirRequired,
}

/// The text of an argument error.
pub open spec fn args_error_text(e: ArgsError) -> Seq<char> {
    match e {
        ArgsError::EngineValueMissing => "--engine value missing"@,
        ArgsError::ModelDirValueMissing => "--model-dir value missing"@,
        ArgsError::UnknownArgument(a) => "unknown argument: "@ + a@,
        ArgsError::ModelDirRequired => "--model-dir required"@,
    }
}

impl ArgsError {
    /// The message that reports this error.
    pub fn message(&self) -> (r: String)
        ensures
            r@ == args_error_text(*self),
    {
        match self {
            ArgsError::EngineValueMissing => String::from_str("--engine value missing"),
            ArgsError::ModelDirValueMissing => String::from_str("--model-dir value missing"),
            ArgsError::UnknownArgument(a) => {
                let mut s = String::from_str("unknown argument: ");
                s.append(a.as_str());
                s
            },
            ArgsError::ModelDirRequired => String::from_str("--model-dir required"),
        }
    }
}

/// The usage line that help prints.
pub open spec fn usage_text() -> Seq<char> {
    "usage: soksak-sidecar-speech-sherpa --model-dir <dir> [--engine vits|kokoro|supertonic]"@
}

/// The usage line.
pub fn usage() -> (r: String)
    ensures
        r@ == usage_text(),
{
    String::from_str("usage: soksak-sidecar-speech-sherpa --model-dir <dir> [--engine vits|kokoro|supertonic]")
}

/// The outcome of parsing, over char sequences.
pub enum ArgsVerdict {
    Run { engine: Seq<char>, model_dir: Seq<char> },
    Help,
    EngineValueMissing,
    ModelDirValueMissing,
    UnknownArgument(Seq<char>),
    ModelDirRequired,
}

/// The arguments from position `i` on are read, left to right, with the
/// engine and model directory chosen so far: a flag that takes a value takes
/// the next argument (a later one overrides an earlier one), the first help
/// flag ends parsing successfully, and the first bad argument ends it with
/// an error.
pub open spec fn parse_from(
    args: Seq<Seq<char>>,
    i: int,
    engine: Seq<char>,
    model_dir: Option<Seq<char>>,
) -> ArgsVerdict
    decreases args.len() - i,
{
    if i < 0 || i >= args.len() {
        match model_dir {
            Some(d) => ArgsVerdict::Run { engine, model_dir: d },
            None => ArgsVerdict::ModelDirRequired,
        }
    } else if args[i] == "--engine"@ {
        if i + 1 < args.len() {
            parse_from(args, i + 2, args[i + 1], model_dir)
        } else {
            ArgsVerdict::EngineValueMissing
        }
    } else if args[i] == "--model-dir"@ {
        if i + 1 < args.len() {
            parse_from(args, i + 2, engine, Some(args[i + 1]))
        } else {
            ArgsVerdict::ModelDirValueMissing
        }
    } else if args[i] == "--help"@ || args[i] == "-h"@ {
        ArgsVerdict::Help
    } else {
        ArgsVerdict::UnknownArgument(args[i])
    }
}

/// The verdict on a whole command line (without the program name).
pub open spec fn parse_spec(args: Seq<Seq<char>>) -> ArgsVerdict {
    parse_from(args, 0, "vits"@, None)
}

/// How command lines read: without `--model-dir` nothing runs; the engine is
/// `vits` unless `--engine` names another; each flag takes the argument after
/// it, in any order, a later one overriding an earlier one; a help flag
/// first ends parsing with help whatever follows; a flag with nothing after
/// it and an argument that is no flag are refused.
pub proof fn lemma_command_lines(e: Seq<char>, d: Seq<char>, d0: Seq<char>, a: Seq<char>, rest: Seq<Seq<char>>)
    ensures
        parse_spec(Seq::<Seq<char>>::empty()) == ArgsVerdict::ModelDirRequired,
        parse_spec(seq!["--model-dir"@, d]) == (ArgsVerdict::Run { engine: "vits"@, model_dir: d }),
        parse_spec(seq!["--engine"@, e, "--model-dir"@, d]) == (ArgsVerdict::Run { engine: e, model_dir: d }),
        parse_spec(seq!["--model-dir"@, d, "--engine"@, e]) == (ArgsVerdict::Run { engine: e, model_dir: d }),
        parse_spec(seq!["--model-dir"@, d0, "--model-dir"@, d]) == (ArgsVerdict::Run { engine: "vits"@, model_dir: d }),
        parse_spec(seq!["--help"@] + rest) == ArgsVerdict::Help,
        parse_spec(seq!["-h"@] + rest) == ArgsVerdict::Help,
        parse_spec(seq!["--engine"@]) == ArgsVerdict::EngineValueMissing,
        parse_spec(seq!["--model-dir"@]) == ArgsVerdict::ModelDirValueMissing,
        a != "--engine"@ && a != "--model-dir"@ && a != "--help"@ && a != "-h"@
            ==> parse_spec(seq![a] + rest) == ArgsVerdict::UnknownArgument(a),
{
    reveal_strlit("--engine");
    reveal_strlit("--model-dir");
    reveal_strlit("--help");
    reveal_strlit("-h");
    let en = "--engine"@;
    let md = "--model-dir"@;
    let he = "--help"@;
    let h = "-h"@;
    assert(en != md && en != he && en != h && md != he && md != h && he != h) by {
        assert(en.len() != md.len());
        assert(en[2] != he[2]);
        assert(en.len() != h.len());
        assert(md.len() != he.len());
        assert(md.len() != h.len());
        assert(he.len() != h.len());
    }
    let l1 = seq![md, d];
    assert(parse_from(l1, 2, "vits"@, Some(d)) == ArgsVerdict::Run { engine: "vits"@, model_dir: d });
    let l2 = seq![en, e, md, d];
    assert(parse_from(l2, 4, e, Some(d)) == ArgsVerdict::Run { engine: e, model_dir: d });
    assert(parse_from(l2, 2, e, None) == ArgsVerdict::Run { engine: e, model_dir: d });
    let l3 = seq![md, d, en, e];
    assert(parse_from(l3, 4, e, Some(d)) == ArgsVerdict::Run { engine: e, model_dir: d });
    assert(parse_from(l3, 2, "vits"@, Some(d)) == ArgsVerdict::Run { engine: e, model_dir: d });
    let l4 = seq![md, d0, md, d];
    assert(parse_from(l4, 4, "vits"@, Some(d)) == ArgsVerdict::Run { engine: "vits"@, model_dir: d });
    assert(parse_from(l4, 2, "vits"@, Some(d0)) == ArgsVerdict::Run { engine: "vits"@, model_dir: d });
    assert((seq![he] + rest)[0] == he);
    assert((seq![h] + rest)[0] == h);
    assert((seq![a] + rest)[0] == a);
}

/// The char sequences of a list of strings.
pub open spec fn views(args: Seq<String>) -> Seq<Seq<char>> {
    args.map_values(|a: String| a@)
}

/// The verdict that a parse result stands for.
pub open spec fn verdict_of(r: Result<ArgsOutcome, ArgsError>) -> ArgsVerdict {
    match r {
        Ok(ArgsOutcome::Run(a)) => ArgsVerdict::Run { engine: a.engine@, model_dir: a.model_dir@ },
        Ok(ArgsOutcome::Help) => ArgsVerdict::Help,
        Err(ArgsError::EngineValueMissing) => ArgsVerdict::EngineValueMissing,
        Err(ArgsError::ModelDirValueMissing) => ArgsVerdict::ModelDirValueMissing,
        Err(ArgsError::UnknownArgument(a)) => ArgsVerdict::UnknownArgument(a@),
        Err(ArgsError::ModelDirRequired) => ArgsVerdict::ModelDirRequired,
    }
}

/// Parses the command line that follows the program name.
pub fn parse_args(args: &Vec<String>) -> (r: Result<ArgsOutcome, ArgsError>)
    ensures
        verdict_of(r) == parse_spec(views(args@)),
{
    let ghost va = views(args@);
    let n = args.len();
    let mut engine = String::from_str("vits");
    let mut model_dir: Option<String> = None;
    let mut i: usize = 0;
    while i < n
        invariant
            n == args@.len(),
            va == views(args@),
            i <= n,
            parse_from(va, i as int, engine@, match model_dir { Some(d) => Some(d@), None => None })
                == parse_spec(va),
        decreases n - i,
    {
        let a = args[i].as_str();
        assert(va[i as int] == a@);
        if same_text(a, "--engine") {
            if i + 1 < n {
                engine = args[i + 1].clone();
                assert(va[i + 1] == engine@);
                i = i + 2;
            } else {
                return Err(ArgsError::EngineValueMissing);
            }
        } else if same_text(a, "--model-dir") {
            if i + 1 < n {
                let d = args[i + 1].clone();
                assert(va[i + 1] == d@);
                model_dir = Some(d);
                i = i + 2;
            } else {
                return Err(ArgsError::ModelDirValueMissing);
            }
        } else if same_text(a, "--help") || same_text(a, "-h") {
            return Ok(ArgsOutcome::Help);
        } else {
            return Err(ArgsError::UnknownArgument(args[i].clone()));
        }
    }
    match model_dir {
        Some(d) => Ok(ArgsOutcome::Run(Args { engine, model_dir: d })),
        None => Err(ArgsError::ModelDirRequired),
    }
}

} // verus!
