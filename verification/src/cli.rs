//! The command line of the admission-only gateway.
use crate::text::same_text;
use vstd::prelude::*;

verus! {

/// What to print when asked for help.
pub fn usage() -> (text: &'static str)
    ensures
        text@ == "streamguard-gateway-v2 (admission-only; no TUN/NAT)\n\nUSAGE:\n    streamguard-gateway-v2 --config <path>\n\nENV:\n    STREAMGUARD_V2_CONFIG    config file path when --config is absent\n\nThe config file holds strict-permission filesystem references only. Any\nSTREAMGUARD_SECRET value present refuses startup."@,
{
    "streamguard-gateway-v2 (admission-only; no TUN/NAT)\n\nUSAGE:\n    streamguard-gateway-v2 --config <path>\n\nENV:\n    STREAMGUARD_V2_CONFIG    config file path when --config is absent\n\nThe config file holds strict-permission filesystem references only. Any\nSTREAMGUARD_SECRET value present refuses startup."
}

/// What the command line asks for.
pub enum Request {
    /// Run with the configuration at this path.
    Run(String),
    /// Print the usage.
    Help,
}

/// What is wrong with a command line.
pub enum CommandLineError {
    /// `--config` has no value.
    MissingValue,
    /// `--config` is given twice.
    Duplicate,
    /// `--config` is empty.
    Empty,
    /// An argument is not known.
    Unknown(String),
    /// There is no `--config`, and the environment names no configuration.
    NoConfig,
}

/// A command line's meaning, as text.
pub enum Meaning {
    Run(Seq<char>),
    Help,
    MissingValue,
    Duplicate,
    Empty,
    Unknown(Seq<char>),
    NoConfig,
}

/// The arguments' texts.
pub open spec fn words(args: Seq<String>) -> Seq<Seq<char>> {
    Seq::new(args.len(), |i: int| args[i]@)
}

/// The text of what may be absent.
pub open spec fn optional_text(value: Option<String>) -> Option<Seq<char>> {
    match value {
        Some(text) => Some(text@),
        None => None,
    }
}

/// What arguments mean from the `i`-th on, with the configuration named so far
/// and the one that the environment names. Arguments are taken in order: the
/// first that is wrong decides, or the first that asks for help.
pub open spec fn meaning(
    args: Seq<Seq<char>>,
    i: int,
    named: Option<Seq<char>>,
    fallback: Option<Seq<char>>,
) -> Meaning
    decreases args.len() - i,
{
    if i >= args.len() {
        match (named, fallback) {
            (Some(path), _) => Meaning::Run(path),
            (None, Some(path)) => Meaning::Run(path),
            (None, None) => Meaning::NoConfig,
        }
    } else if args[i] == "--config"@ {
        if i + 1 >= args.len() {
            Meaning::MissingValue
        } else if named is Some {
            Meaning::Duplicate
        } else if args[i + 1].len() == 0 {
            Meaning::Empty
        } else {
            meaning(args, i + 2, Some(args[i + 1]), fallback)
        }
    } else if args[i] == "--help"@ || args[i] == "-h"@ {
        Meaning::Help
    } else {
        Meaning::Unknown(args[i])
    }
}

/// A result that says what arguments mean.
pub open spec fn says(result: Result<Request, CommandLineError>, meaning: Meaning) -> bool {
    match (result, meaning) {
        (Ok(Request::Run(path)), Meaning::Run(text)) => path@ == text,
        (Ok(Request::Help), Meaning::Help) => true,
        (Err(CommandLineError::MissingValue), Meaning::MissingValue) => true,
        (Err(CommandLineError::Duplicate), Meaning::Duplicate) => true,
        (Err(CommandLineError::Empty), Meaning::Empty) => true,
        (Err(CommandLineError::Unknown(argument)), Meaning::Unknown(text)) => argument@ == text,
        (Err(CommandLineError::NoConfig), Meaning::NoConfig) => true,
        _ => false,
    }
}

/// Which configuration to run with: `--config` wins over the environment. The
/// first argument is the program's name.
pub fn resolve_config_path(args: &Vec<String>, fallback: Option<String>) -> (result: Result<
    Request,
    CommandLineError,
>)
    ensures
        says(
            result,
            meaning(words(args@), 1, None, optional_text(fallback)),
        ),
{
    let ghost all = words(args@);
    let ghost other = optional_text(fallback);
    let mut config: Option<String> = None;
    let mut index: usize = 1;
    while index < args.len()
        invariant
            1 <= index,
            index <= args@.len() || index == 1,
            all == words(args@),
            meaning(all, 1, None, other) == meaning(
                all,
                index as int,
                optional_text(config),
                other,
            ),
            other == optional_text(fallback),
        decreases args@.len() - index,
    {
        let argument = args[index].as_str();
        assert(all[index as int] == argument@);
        if same_text(argument, "--config") {
            if index + 1 >= args.len() {
                return Err(CommandLineError::MissingValue);
            }
            let value = args[index + 1].as_str();
            assert(all[index + 1] == value@);
            if config.is_some() {
                return Err(CommandLineError::Duplicate);
            }
            if value.is_empty() {
                return Err(CommandLineError::Empty);
            }
            config = Some(value.to_owned());
            index = index + 2;
        } else if same_text(argument, "--help") || same_text(argument, "-h") {
            return Ok(Request::Help);
        } else {
            return Err(CommandLineError::Unknown(argument.to_owned()));
        }
    }
    match config {
        Some(path) => Ok(Request::Run(path)),
        None => match fallback {
            Some(path) => Ok(Request::Run(path)),
            None => Err(CommandLineError::NoConfig),
        },
    }
}

/// A configuration named on the command line wins over the environment's.
pub proof fn law_named_configuration_wins(
    args: Seq<Seq<char>>,
    path: Seq<char>,
    fallback: Option<Seq<char>>,
)
    requires
        args.len() == 3,
        args[1] == "--config"@,
        args[2] == path,
        path.len() > 0,
    ensures
        meaning(args, 1, None, fallback) == Meaning::Run(path),
{
    reveal_with_fuel(meaning, 2);
}

/// Without arguments the environment's configuration is run with, where it names one.
pub proof fn law_environment_is_the_fallback(
    args: Seq<Seq<char>>,
    fallback: Option<Seq<char>>,
)
    requires
        args.len() <= 1,
    ensures
        fallback matches Some(path) ==> meaning(args, 1, None, fallback) == Meaning::Run(path),
        fallback is None ==> meaning(args, 1, None, fallback) is NoConfig,
{
}

/// Help is printed where it is asked for, whatever comes behind it, with or without a
/// configuration before it.
pub proof fn law_help_is_printed(
    args: Seq<Seq<char>>,
    i: int,
    named: Option<Seq<char>>,
    fallback: Option<Seq<char>>,
)
    requires
        0 <= i < args.len(),
        args[i] == "--help"@ || args[i] == "-h"@,
    ensures
        meaning(args, i, named, fallback) is Help,
{
    reveal_strlit("--help");
    reveal_strlit("-h");
    reveal_strlit("--config");
    assert("--help"@.len() == 6 && "-h"@.len() == 2 && "--config"@.len() == 8);
}

/// A configuration is named once, and by something: a `--config` with nothing behind
/// it, a second one, and one with an empty path behind it are each told apart, in that
/// order.
pub proof fn law_a_configuration_is_named_once(
    args: Seq<Seq<char>>,
    i: int,
    named: Option<Seq<char>>,
    fallback: Option<Seq<char>>,
)
    requires
        0 <= i < args.len(),
        args[i] == "--config"@,
    ensures
        i + 1 == args.len() ==> meaning(args, i, named, fallback) is MissingValue,
        i + 1 < args.len() && named is Some ==> meaning(args, i, named, fallback) is Duplicate,
        i + 1 < args.len() && named is None && args[i + 1].len() == 0 ==> meaning(
            args,
            i,
            named,
            fallback,
        ) is Empty,
        i + 2 == args.len() && named is None && args[i + 1].len() > 0 ==> meaning(
            args,
            i,
            named,
            fallback,
        ) == Meaning::Run(args[i + 1]),
        i + 2 < args.len() && named is None && args[i + 1].len() > 0 && args[i + 2] == "--config"@
            ==> meaning(args, i, named, fallback) is Duplicate || meaning(args, i, named, fallback)
            is MissingValue,
{
    reveal_with_fuel(meaning, 2);
}

/// What is neither `--config` nor a request for help is not known.
pub proof fn law_other_arguments_are_unknown(
    args: Seq<Seq<char>>,
    i: int,
    named: Option<Seq<char>>,
    fallback: Option<Seq<char>>,
)
    requires
        0 <= i < args.len(),
        args[i] != "--config"@,
        args[i] != "--help"@,
        args[i] != "-h"@,
    ensures
        meaning(args, i, named, fallback) == Meaning::Unknown(args[i]),
{
}

/// How a command line is answered, one argument behind the program's name after
/// another.
pub proof fn law_command_lines_are_answered(
    args: &Vec<String>,
    fallback: Option<String>,
    result: Result<Request, CommandLineError>,
)
    requires
        call_ensures(resolve_config_path, (args, fallback), result),
    ensures
        args@.len() <= 1 ==> match fallback {
            Some(text) => result matches Ok(Request::Run(path)) && path@ == text@,
            None => result matches Err(CommandLineError::NoConfig),
        },
        args@.len() >= 2 && (args@[1]@ == "--help"@ || args@[1]@ == "-h"@) ==> (result matches Ok(
            Request::Help,
        )),
        args@.len() >= 2 && args@[1]@ != "--config"@ && args@[1]@ != "--help"@ && args@[1]@
            != "-h"@ ==> (result matches Err(CommandLineError::Unknown(text)) && text@
            == args@[1]@),
        args@.len() == 2 && args@[1]@ == "--config"@ ==> (result matches Err(
            CommandLineError::MissingValue,
        )),
        args@.len() >= 3 && args@[1]@ == "--config"@ && args@[2]@.len() == 0 ==> (
        result matches Err(CommandLineError::Empty)),
        args@.len() == 3 && args@[1]@ == "--config"@ && args@[2]@.len() > 0 ==> (
        result matches Ok(Request::Run(path)) && path@ == args@[2]@),
        args@.len() >= 4 && args@[1]@ == "--config"@ && args@[2]@.len() > 0 ==> {
            &&& args@[3]@ == "--help"@ || args@[3]@ == "-h"@ ==> (result matches Ok(Request::Help))
            &&& args@[3]@ != "--config"@ && args@[3]@ != "--help"@ && args@[3]@ != "-h"@ ==> (
            result matches Err(CommandLineError::Unknown(text)) && text@ == args@[3]@)
            &&& args@[3]@ == "--config"@ && args@.len() == 4 ==> (result matches Err(
                CommandLineError::MissingValue,
            ))
            &&& args@[3]@ == "--config"@ && args@.len() > 4 ==> (result matches Err(
                CommandLineError::Duplicate,
            ))
        },
{
    let all = words(args@);
    let other = optional_text(fallback);
    reveal_strlit("--help");
    reveal_strlit("-h");
    reveal_strlit("--config");
    assert("--help"@.len() == 6 && "-h"@.len() == 2 && "--config"@.len() == 8);
    if args@.len() >= 2 {
        assert(all[1] == args@[1]@);
        if args@.len() >= 3 {
            assert(all[2] == args@[2]@);
            if args@[1]@ == "--config"@ && args@[2]@.len() > 0 {
                assert(meaning(all, 1, None, other) == meaning(all, 3, Some(all[2]), other));
                if args@.len() >= 4 {
                    assert(all[3] == args@[3]@);
                }
            }
        }
    }
}

} // verus!
