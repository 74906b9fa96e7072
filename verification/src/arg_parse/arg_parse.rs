//! What the arguments of the command line ask for.
use crate::man_parse::man_section::ManSection;
use crate::text::{chars_of, starts_with, str_eq, string_of_range};
use vstd::prelude::*;

verus! {

/// What was asked for on the command line.
pub struct ExplainArgs {
    /// The command whose manual page is to be rendered.
    pub command_name: String,
    /// The arguments that follow the command.
    pub command_args: Vec<String>,
    /// Whether to print what was found on the way.
    pub debug: bool,
    /// Whether help was asked for.
    pub help: bool,
    /// The one section to render, if one was asked for.
    pub section: Option<ManSection>,
}

/// [`ExplainArgs`] with the texts of its strings.
pub struct ArgsView {
    pub command_name: Seq<char>,
    pub command_args: Seq<Seq<char>>,
    pub debug: bool,
    pub help: bool,
    pub section: Option<ManSection>,
}

impl View for ExplainArgs {
    type V = ArgsView;

    open spec fn view(&self) -> ArgsView {
        ArgsView {
            command_name: self.command_name@,
            command_args: self.command_args@.map_values(|arg: String| arg@),
            debug: self.debug,
            help: self.help,
            section: self.section,
        }
    }
}

impl Default for ExplainArgs {
    fn default() -> (args: Self)
        ensures
            args@ == ArgsView::empty(),
    {
        let args = ExplainArgs {
            command_name: String::new(),
            command_args: Vec::new(),
            debug: false,
            help: false,
            section: None,
        };
        assert(args@.command_args =~= seq![]);
        assert(args@.command_name =~= seq![]);
        args
    }
}

/// `-s=`, which a section's name follows.
pub open spec fn short_section_arg() -> Seq<char> {
    "-s="@
}

/// `--section=`, which a section's name follows.
pub open spec fn long_section_arg() -> Seq<char> {
    "--section="@
}

/// The section that the argument `arg` asks for: the one named behind `-s=`
/// or `--section=`; `None` for any other argument.
pub open spec fn section_arg(arg: Seq<char>) -> Option<ManSection> {
    if short_section_arg().is_prefix_of(arg) {
        Some(
            crate::man_parse::man_section::section_named(
                arg.skip(short_section_arg().len() as int),
            ),
        )
    } else if long_section_arg().is_prefix_of(arg) {
        Some(
            crate::man_parse::man_section::section_named(
                arg.skip(long_section_arg().len() as int),
            ),
        )
    } else {
        None
    }
}

/// Whether `arg` is an option: it begins with `-`.
pub open spec fn is_option(arg: Seq<char>) -> bool {
    arg.len() > 0 && arg[0] == '-'
}

impl ArgsView {
    /// Nothing was asked for.
    pub open spec fn empty() -> ArgsView {
        ArgsView {
            command_name: seq![],
            command_args: seq![],
            debug: false,
            help: false,
            section: None,
        }
    }

    /// After the option `arg` was taken in: `-d` and `--debug` ask for
    /// debugging, `-h` and `--help` for help, `-s=` and `--section=` for a
    /// section. Any other option is passed over.
    pub open spec fn with_option(self, arg: Seq<char>) -> ArgsView {
        if arg == "-d"@ || arg == "--debug"@ {
            ArgsView { debug: true, ..self }
        } else if arg == "-h"@ || arg == "--help"@ {
            ArgsView { help: true, ..self }
        } else if section_arg(arg) is Some {
            ArgsView { section: section_arg(arg), ..self }
        } else {
            self
        }
    }

    /// After the arguments `args[from..]` were taken in: options up to the
    /// first argument that is none, which names the command; what follows
    /// are the command's own arguments.
    pub open spec fn with_args(self, args: Seq<Seq<char>>, from: int) -> ArgsView
        decreases args.len() - from,
    {
        if from < 0 || from >= args.len() {
            self
        } else if is_option(args[from]) {
            self.with_option(args[from]).with_args(args, from + 1)
        } else {
            ArgsView {
                command_name: args[from],
                command_args: args.subrange(from + 1, args.len() as int),
                ..self
            }
        }
    }
}

/// What the arguments `args` of the command line ask for. The first of them
/// is the path of the program and is passed over.
pub open spec fn parsed_args(args: Seq<Seq<char>>) -> ArgsView {
    ArgsView::empty().with_args(args, 1)
}

/// The section that the option `section_arg` asks for, if it is `-s=` or
/// `--section=` with a name.
pub fn parse_section_arg(section_arg: &str) -> (section: Option<ManSection>)
    ensures
        section == self::section_arg(section_arg@),
{
    let chars = chars_of(section_arg);
    proof {
        reveal_strlit("-s=");
        reveal_strlit("--section=");
    }
    if starts_with(&chars, "-s=") {
        let name = string_of_range(&chars, 3, chars.len());
        assert(chars@.subrange(3, chars@.len() as int) =~= section_arg@.skip(3));
        Some(ManSection::from(name.as_str()))
    } else if starts_with(&chars, "--section=") {
        let name = string_of_range(&chars, 10, chars.len());
        assert(chars@.subrange(10, chars@.len() as int) =~= section_arg@.skip(10));
        Some(ManSection::from(name.as_str()))
    } else {
        None
    }
}

/// Tells whether `arg` is an option.
fn arg_is_option(arg: &str) -> (option: bool)
    ensures
        option == is_option(arg@),
{
    arg.unicode_len() > 0 && arg.get_char(0) == '-'
}

/// Takes the arguments of the command line in; the first of them is the
/// path of the program.
pub fn parse_args(args: Vec<String>) -> (parsed: ExplainArgs)
    ensures
        parsed@ == parsed_args(args@.map_values(|arg: String| arg@)),
{
    let ghost texts = args@.map_values(|arg: String| arg@);
    let mut result = ExplainArgs::default();
    let mut args = args;
    let len = args.len();
    let mut at: usize = 1;
    // the options come first
    while at < len && arg_is_option(args[at].as_str())
        invariant
            len == args@.len(),
            1 <= at,
            texts == args@.map_values(|arg: String| arg@),
            result@.command_name == Seq::<char>::empty(),
            result@.command_args == Seq::<Seq<char>>::empty(),
            at <= len ==> result@.with_args(texts, at as int) == parsed_args(texts),
            at > len ==> result@ == parsed_args(texts),
        decreases len - at,
    {
        let arg = args[at].as_str();
        assert(arg@ == texts[at as int]);
        let ghost before = result@;
        if str_eq(arg, "-d") || str_eq(arg, "--debug") {
            result.debug = true;
        } else if str_eq(arg, "-h") || str_eq(arg, "--help") {
            result.help = true;
        } else {
            let section = parse_section_arg(arg);
            if section.is_some() {
                result.section = section;
            }
        }
        assert(result@ == before.with_option(arg@));
        at += 1;
    }
    if at < len {
        // the first argument that is no option names the command
        assert(args[at as int]@ == texts[at as int]);
        let mut rest = args.split_off(at);
        assert(rest@.map_values(|arg: String| arg@) =~= texts.subrange(
            at as int,
            len as int,
        ));
        let command_args = rest.split_off(1);
        assert(command_args@.map_values(|arg: String| arg@) =~= texts.subrange(
            at + 1,
            len as int,
        ));
        let name = rest.pop().unwrap();
        assert(name@ == texts[at as int]);
        result.command_name = name;
        result.command_args = command_args;
    }
    result
}

} // verus!
