//! What the command line says and understands.
//!
//! Reading arguments and the user's answer and printing lines are the
//! caller's. This file decides which command an argument means, where the
//! cache lies, which degree an answer chooses, and what the lines are.

use crate::config::Config;
use crate::entities::Degrees;
use crate::entities::Lecture;
use crate::entities::LectureView;
use crate::entities::Module;
use crate::entities::ModuleView;
use crate::entities::StaticDegree;
use crate::text::decimal;
use crate::text::parse_index;
use crate::text::same_ignoring_case;
use crate::text::same_text;
use vstd::prelude::*;

verus! {

/// Width of the column of command names in the help.
pub const NAME_LENGTH: usize = 12;

/// What a command name is filled up with.
pub const PADDING: &'static str = "                    ";

/// The indentation of the arguments of a command in the help: a column of
/// names and one space.
pub const SPACING: &'static str = "             ";

/// The flag that names the cache directory.
pub const CONFIG_FLAG: &'static str = "--config";

pub const CONFIG_HELP: &'static str = "Custom path to config. Default is cache/lecture_cache.json";

pub const NO_LECTURES: &'static str = "No lectures found. Try to run 'dachterasse init'.";

pub const RULE: &'static str = "--------------";

/// What a command does.
#[derive(Clone, Copy, Debug, PartialEq, Eq, Structural)]
pub enum Action {
    /// Prints the help.
    Help,
    /// Prints the titles of the lectures of a degree.
    Overview,
    /// Prints the lectures of a degree with all that is known of them.
    Details,
}

/// An argument of a command, for the help.
#[derive(Debug)]
pub struct Argument {
    pub name: String,
    pub description: String,
}

/// What an [`Argument`] holds, as plain text.
pub struct ArgumentView {
    pub name: Seq<char>,
    pub description: Seq<char>,
}

impl View for Argument {
    type V = ArgumentView;

    open spec fn view(&self) -> ArgumentView {
        ArgumentView { name: self.name@, description: self.description@ }
    }
}

impl DeepView for Argument {
    type V = ArgumentView;

    open spec fn deep_view(&self) -> ArgumentView {
        self@
    }
}

/// A command of the command line.
#[derive(Debug)]
pub struct Command {
    pub name: String,
    pub help: String,
    pub arguments: Vec<Argument>,
    pub action: Action,
}

/// What a [`Command`] holds, as plain text.
pub struct CommandView {
    pub name: Seq<char>,
    pub help: Seq<char>,
    pub arguments: Seq<ArgumentView>,
    pub action: Action,
}

impl View for Command {
    type V = CommandView;

    open spec fn view(&self) -> CommandView {
        CommandView {
            name: self.name@,
            help: self.help@,
            arguments: self.arguments.deep_view(),
            action: self.action,
        }
    }
}

impl DeepView for Command {
    type V = CommandView;

    open spec fn deep_view(&self) -> CommandView {
        self@
    }
}

impl Command {
    /// A command without arguments.
    pub fn new(name: &str, help: &str, action: Action) -> (command: Self)
        ensures
            command@ == (CommandView {
                name: name@,
                help: help@,
                arguments: Seq::empty(),
                action,
            }),
    {
        let command = Command {
            name: String::from_str(name),
            help: String::from_str(help),
            arguments: Vec::new(),
            action,
        };
        assert(command.arguments.deep_view() =~= Seq::<ArgumentView>::empty());
        command
    }

    /// A command with the arguments `arguments`, each a name and a
    /// description.
    pub fn new_with_args(name: &str, help: &str, arguments: &[(&str, &str)], action: Action) -> (command:
        Self)
        ensures
            command@ == (CommandView {
                name: name@,
                help: help@,
                arguments: Seq::new(
                    arguments@.len(),
                    |i: int|
                        ArgumentView { name: arguments@[i].0@, description: arguments@[i].1@ },
                ),
                action,
            }),
    {
        let mut listed: Vec<Argument> = Vec::new();
        let mut i: usize = 0;
        while i < arguments.len()
            invariant
                i <= arguments.len(),
                listed.len() == i,
                forall|k: int|
                    0 <= k < i ==> (#[trigger] listed@[k])@ == (ArgumentView {
                        name: arguments@[k].0@,
                        description: arguments@[k].1@,
                    }),
            decreases arguments.len() - i,
        {
            listed.push(
                Argument {
                    name: String::from_str(arguments[i].0),
                    description: String::from_str(arguments[i].1),
                },
            );
            i = i + 1;
        }
        let command = Command {
            name: String::from_str(name),
            help: String::from_str(help),
            arguments: listed,
            action,
        };
        assert(command.arguments.deep_view() =~= Seq::new(
            arguments@.len(),
            |i: int| ArgumentView { name: arguments@[i].0@, description: arguments@[i].1@ },
        ));
        command
    }
}

pub const HELP_NAME: &'static str = "help";

pub const HELP_HELP: &'static str = "Prints out this help page";

pub const OVERVIEW_NAME: &'static str = "overview";

pub const OVERVIEW_HELP: &'static str =
    "Displays titles for all cached lectures. Please call dachterasse init before.";

pub const DETAILS_NAME: &'static str = "all";

pub const DETAILS_HELP: &'static str =
    "Shows details for all cached lectures. Please call dachterasse init before.";

/// The argument that names the cache directory.
pub open spec fn config_argument() -> ArgumentView {
    ArgumentView { name: CONFIG_FLAG@, description: CONFIG_HELP@ }
}

/// The commands: `help`, `overview` and `all`, the last two with the flag
/// for the cache directory.
pub open spec fn command_list() -> Seq<CommandView> {
    seq![
        CommandView {
            name: HELP_NAME@,
            help: HELP_HELP@,
            arguments: Seq::empty(),
            action: Action::Help,
        },
        CommandView {
            name: OVERVIEW_NAME@,
            help: OVERVIEW_HELP@,
            arguments: seq![config_argument()],
            action: Action::Overview,
        },
        CommandView {
            name: DETAILS_NAME@,
            help: DETAILS_HELP@,
            arguments: seq![config_argument()],
            action: Action::Details,
        },
    ]
}

/// The commands.
pub fn commands() -> (commands: Vec<Command>)
    ensures
        commands.deep_view() == command_list(),
{
    let mut commands: Vec<Command> = Vec::new();
    commands.push(Command::new(HELP_NAME, HELP_HELP, Action::Help));
    let overview = Command::new_with_args(
        OVERVIEW_NAME,
        OVERVIEW_HELP,
        &[(CONFIG_FLAG, CONFIG_HELP)],
        Action::Overview,
    );
    assert(overview@.arguments =~= seq![config_argument()]);
    commands.push(overview);
    let details = Command::new_with_args(
        DETAILS_NAME,
        DETAILS_HELP,
        &[(CONFIG_FLAG, CONFIG_HELP)],
        Action::Details,
    );
    assert(details@.arguments =~= seq![config_argument()]);
    commands.push(details);
    assert(commands.deep_view() =~= command_list());
    commands
}

/// The first of `commands` that `argument` names, the case of letters aside.
pub fn find_command(commands: &Vec<Command>, argument: &str) -> (found: Option<usize>)
    ensures
        match found {
            Some(i) => {
                &&& i < commands.len()
                &&& crate::text::same_folded(commands@[i as int].name@, argument@)
                &&& forall|k: int|
                    0 <= k < i ==> !crate::text::same_folded(
                        (#[trigger] commands@[k]).name@,
                        argument@,
                    )
            },
            None => forall|k: int|
                0 <= k < commands.len() ==> !crate::text::same_folded(
                    (#[trigger] commands@[k]).name@,
                    argument@,
                ),
        },
{
    let mut i: usize = 0;
    while i < commands.len()
        invariant
            i <= commands.len(),
            forall|k: int|
                0 <= k < i ==> !crate::text::same_folded(
                    (#[trigger] commands@[k]).name@,
                    argument@,
                ),
        decreases commands.len() - i,
    {
        if same_ignoring_case(commands[i].name.as_str(), argument) {
            return Some(i);
        }
        i = i + 1;
    }
    None
}

/// The cache directory that the arguments of a command name: what follows
/// the flag `--config` where that is the first argument behind the command,
/// else the default.
pub open spec fn cache_path_in(args: Seq<Seq<char>>) -> Seq<char> {
    if args.len() >= 3 && args[1] == CONFIG_FLAG@ {
        args[2]
    } else {
        crate::config::DEFAULT_CACHE_PATH@
    }
}

/// The settings that the arguments `args` ask for; `args` begins with the
/// name of the command.
pub fn config_from_args(args: &Vec<String>) -> (config: Config)
    ensures
        config.cache_path.deep_view() == Some(cache_path_in(args.deep_view())),
{
    if args.len() >= 3 && same_text(args[1].as_str(), CONFIG_FLAG) {
        assert(args.deep_view()[1] == args@[1]@);
        assert(args.deep_view()[2] == args@[2]@);
        Config::new().cache_path(args[2].clone())
    } else {
        proof {
            if args.len() >= 3 {
                assert(args.deep_view()[1] == args@[1]@);
            }
        }
        Config::with_cache()
    }
}

/// The line of the help that names `command`: the name, cut or filled up
/// with spaces to the width of the column, a space, and what the command is
/// for.
pub open spec fn header_of(command: CommandView) -> Seq<char> {
    (command.name + PADDING@).take(NAME_LENGTH as int) + " "@ + command.help
}

/// The line of the help that names `command`.
pub fn command_header(command: &Command) -> (line: String)
    ensures
        line@ == header_of(command@),
{
    proof {
        reveal_strlit("                    ");
    }
    let padded = command.name.clone().concat(PADDING);
    let column = padded.as_str().substring_char(0, NAME_LENGTH);
    String::from_str(column).concat(" ").concat(command.help.as_str())
}

/// The line of the help for the argument at place `i` of a command: the
/// first one is marked `ARGS:`, the others stand below it.
pub open spec fn argument_line(argument: ArgumentView, i: int) -> Seq<char> {
    if i == 0 {
        SPACING@ + "ARGS:"@ + " "@ + argument.name + "\t"@ + argument.description
    } else {
        "      "@ + SPACING@ + argument.name + "\t"@ + argument.description
    }
}

/// The lines of the help for the arguments of `command`, and an empty line.
pub open spec fn argument_lines(command: CommandView) -> Seq<Seq<char>> {
    Seq::new(
        command.arguments.len() + 1,
        |i: int|
            if i < command.arguments.len() {
                argument_line(command.arguments[i], i)
            } else {
                Seq::empty()
            },
    )
}

/// The lines of the help for the arguments of `command`, and an empty line.
pub fn command_args(command: &Command) -> (lines: Vec<String>)
    ensures
        lines.deep_view() == argument_lines(command@),
{
    let mut lines: Vec<String> = Vec::new();
    let mut i: usize = 0;
    while i < command.arguments.len()
        invariant
            i <= command.arguments.len(),
            lines.len() == i,
            forall|k: int|
                0 <= k < i ==> (#[trigger] lines@[k])@ == argument_line(
                    command@.arguments[k],
                    k,
                ),
        decreases command.arguments.len() - i,
    {
        let argument = &command.arguments[i];
        assert(command@.arguments[i as int] == argument@);
        let begin = if i == 0 {
            String::from_str(SPACING).concat("ARGS:").concat(" ")
        } else {
            String::from_str("      ").concat(SPACING)
        };
        let line = begin.concat(argument.name.as_str()).concat("\t").concat(
            argument.description.as_str(),
        );
        assert(line@ =~= argument_line(argument@, i as int));
        lines.push(line);
        i = i + 1;
    }
    lines.push(String::new());
    assert(lines.deep_view() =~= argument_lines(command@));
    lines
}

/// The lines of an overview of `lectures`: the titles, or a notice where
/// there are no lectures.
pub open spec fn overview_of(lectures: Seq<LectureView>) -> Seq<Seq<char>> {
    if lectures.len() == 0 {
        seq![Seq::empty(), NO_LECTURES@]
    } else {
        Seq::new(lectures.len(), |i: int| lectures[i].title)
    }
}

/// The lines of an overview of `lectures`.
pub fn overview_lines(lectures: &[Lecture]) -> (lines: Vec<String>)
    ensures
        lines.deep_view() == overview_of(lectures.deep_view()),
{
    let mut lines: Vec<String> = Vec::new();
    if lectures.len() == 0 {
        lines.push(String::new());
        lines.push(String::from_str(NO_LECTURES));
        assert(lines.deep_view() =~= overview_of(lectures.deep_view()));
        return lines;
    }
    let mut i: usize = 0;
    while i < lectures.len()
        invariant
            i <= lectures.len(),
            lines.len() == i,
            forall|k: int| 0 <= k < i ==> (#[trigger] lines@[k])@ == lectures@[k].title@,
        decreases lectures.len() - i,
    {
        lines.push(lectures[i].title.clone());
        i = i + 1;
    }
    assert(lines.deep_view() =~= overview_of(lectures.deep_view()));
    lines
}

/// The lines for a module: its name behind `> `, then each label behind a
/// tab and a space.
pub open spec fn module_lines(module: ModuleView) -> Seq<Seq<char>> {
    seq!["> "@ + module.name] + Seq::new(
        module.categories.len(),
        |i: int| "\t "@ + module.categories[i],
    )
}

/// The lines for the modules `modules`, in their order.
pub open spec fn modules_lines(modules: Seq<ModuleView>) -> Seq<Seq<char>>
    decreases modules.len(),
{
    if modules.len() == 0 {
        Seq::empty()
    } else {
        modules_lines(modules.drop_last()) + module_lines(modules.last())
    }
}

/// The lines for a lecture: title, address, the modules with their labels
/// where it has categories, and a rule.
pub open spec fn lecture_lines(lecture: LectureView) -> Seq<Seq<char>> {
    seq![lecture.title, lecture.url] + match lecture.categories {
        Some(modules) => modules_lines(modules),
        None => Seq::empty(),
    } + seq![RULE@]
}

/// The lines of the details of `lectures`, lecture by lecture.
pub open spec fn lectures_lines(lectures: Seq<LectureView>) -> Seq<Seq<char>>
    decreases lectures.len(),
{
    if lectures.len() == 0 {
        Seq::empty()
    } else {
        lectures_lines(lectures.drop_last()) + lecture_lines(lectures.last())
    }
}

/// The lines of the details of `lectures`, or a notice where there are no
/// lectures.
pub open spec fn details_of(lectures: Seq<LectureView>) -> Seq<Seq<char>> {
    if lectures.len() == 0 {
        seq![Seq::empty(), NO_LECTURES@]
    } else {
        lectures_lines(lectures)
    }
}

fn push_module(lines: &mut Vec<String>, module: &Module)
    ensures
        final(lines).deep_view() == old(lines).deep_view() + module_lines(module@),
{
    let ghost before = lines.deep_view();
    lines.push(String::from_str("> ").concat(module.name.as_str()));
    let mut i: usize = 0;
    assert(lines.deep_view() =~= before + seq!["> "@ + module@.name]);
    while i < module.categories.len()
        invariant
            i <= module.categories.len(),
            lines.deep_view() == before + seq!["> "@ + module@.name] + Seq::new(
                i as nat,
                |k: int| "\t "@ + module@.categories[k],
            ),
        decreases module.categories.len() - i,
    {
        let ghost so_far = lines.deep_view();
        assert(module@.categories[i as int] == module.categories@[i as int]@);
        lines.push(String::from_str("\t ").concat(module.categories[i].as_str()));
        assert(lines.deep_view() =~= so_far.push("\t "@ + module@.categories[i as int]));
        assert(lines.deep_view() =~= before + seq!["> "@ + module@.name] + Seq::new(
            (i + 1) as nat,
            |k: int| "\t "@ + module@.categories[k],
        ));
        i = i + 1;
    }
    assert(lines.deep_view() =~= before + module_lines(module@));
}

fn push_lecture(lines: &mut Vec<String>, lecture: &Lecture)
    ensures
        final(lines).deep_view() == old(lines).deep_view() + lecture_lines(lecture@),
{
    let ghost before = lines.deep_view();
    lines.push(lecture.title.clone());
    lines.push(lecture.url.clone());
    assert(lines.deep_view() =~= before + seq![lecture@.title, lecture@.url]);
    match &lecture.categories {
        Some(categories) => {
            let modules = categories.entries();
            let ghost head = lines.deep_view();
            let mut i: usize = 0;
            assert(modules.deep_view().take(0) =~= Seq::<ModuleView>::empty());
            assert(lines.deep_view() =~= head + modules_lines(modules.deep_view().take(0)));
            while i < modules.len()
                invariant
                    i <= modules.len(),
                    lines.deep_view() == head + modules_lines(modules.deep_view().take(i as int)),
                decreases modules.len() - i,
            {
                let ghost so_far = lines.deep_view();
                proof {
                    let next = modules.deep_view().take(i + 1);
                    assert(next.drop_last() =~= modules.deep_view().take(i as int));
                    assert(next.last() == modules[i as int]@);
                }
                push_module(lines, &modules[i]);
                assert(lines.deep_view() =~= head + modules_lines(
                    modules.deep_view().take(i + 1),
                ));
                i = i + 1;
            }
            assert(modules.deep_view().take(i as int) =~= modules.deep_view());
        },
        None => {
            assert(lines.deep_view() =~= before + seq![lecture@.title, lecture@.url]
                + Seq::<Seq<char>>::empty());
        },
    }
    let ghost body = lines.deep_view();
    lines.push(String::from_str(RULE));
    assert(lines.deep_view() =~= body + seq![RULE@]);
    assert(lines.deep_view() =~= before + lecture_lines(lecture@));
}

/// The lines of the details of `lectures`.
pub fn details_lines(lectures: &[Lecture]) -> (lines: Vec<String>)
    ensures
        lines.deep_view() == details_of(lectures.deep_view()),
{
    let mut lines: Vec<String> = Vec::new();
    if lectures.len() == 0 {
        lines.push(String::new());
        lines.push(String::from_str(NO_LECTURES));
        assert(lines.deep_view() =~= details_of(lectures.deep_view()));
        return lines;
    }
    let mut i: usize = 0;
    assert(lectures.deep_view().take(0) =~= Seq::<LectureView>::empty());
    assert(lines.deep_view() =~= lectures_lines(lectures.deep_view().take(0)));
    while i < lectures.len()
        invariant
            i <= lectures.len(),
            lines.deep_view() == lectures_lines(lectures.deep_view().take(i as int)),
        decreases lectures.len() - i,
    {
        proof {
            let next = lectures.deep_view().take(i + 1);
            assert(next.drop_last() =~= lectures.deep_view().take(i as int));
            assert(next.last() == lectures[i as int]@);
        }
        push_lecture(&mut lines, &lectures[i]);
        i = i + 1;
    }
    assert(lectures.deep_view().take(i as int) =~= lectures.deep_view());
    lines
}

/// The line of the menu for the degree at place `i`: its name and the place.
pub open spec fn menu_line(degree: StaticDegree, i: int) -> Seq<char> {
    degree.name@ + " ("@ + crate::text::decimal_text(i as nat) + ")"@
}

/// The menu of the degrees of the catalogue: a heading, a line for each
/// degree, and the question for one of them.
pub open spec fn menu() -> Seq<Seq<char>> {
    let catalog = Degrees::catalog();
    seq!["Degrees"@, Seq::empty()] + Seq::new(catalog.len(), |i: int| menu_line(catalog[i], i))
        + seq![
        Seq::empty(),
        "Please choose your degree (0 - "@ + crate::text::decimal_text(
            (catalog.len() - 1) as nat,
        ) + "):"@,
    ]
}

/// The menu of the degrees of the catalogue.
pub fn degree_menu() -> (lines: Vec<String>)
    ensures
        lines.deep_view() == menu(),
{
    let degrees = Degrees::all();
    let mut lines: Vec<String> = Vec::new();
    lines.push(String::from_str("Degrees"));
    lines.push(String::new());
    let ghost head = lines.deep_view();
    assert(head =~= seq!["Degrees"@, Seq::<char>::empty()]);
    let mut i: usize = 0;
    while i < degrees.len()
        invariant
            i <= degrees.len(),
            degrees@ == Degrees::catalog(),
            lines.deep_view() == head + Seq::new(
                i as nat,
                |k: int| menu_line(Degrees::catalog()[k], k),
            ),
        decreases degrees.len() - i,
    {
        let ghost so_far = lines.deep_view();
        let line = String::from_str(degrees[i].name).concat(" (").concat(
            decimal(i).as_str(),
        ).concat(")");
        assert(line@ =~= menu_line(Degrees::catalog()[i as int], i as int));
        lines.push(line);
        assert(lines.deep_view() =~= so_far.push(menu_line(Degrees::catalog()[i as int], i as int)));
        assert(lines.deep_view() =~= head + Seq::new(
            (i + 1) as nat,
            |k: int| menu_line(Degrees::catalog()[k], k),
        ));
        i = i + 1;
    }
    let ghost body = lines.deep_view();
    lines.push(String::new());
    lines.push(
        String::from_str("Please choose your degree (0 - ").concat(
            decimal(degrees.len() - 1).as_str(),
        ).concat("):"),
    );
    assert(lines.deep_view() =~= menu());
    lines
}

/// The degree that the answer `input` to the menu chooses: the one at the
/// place that the answer names, where it names a place of the catalogue.
pub fn chosen_degree(input: &str) -> (degree: Option<StaticDegree>)
    ensures
        degree == match crate::text::number_in(input@) {
            Some(place) => if place < Degrees::catalog().len() {
                Some(Degrees::catalog()[place as int])
            } else {
                None
            },
            None => None,
        },
{
    let degrees = Degrees::all();
    match parse_index(input) {
        Some(place) => if place < degrees.len() {
            Some(degrees[place])
        } else {
            None
        },
        None => None,
    }
}

} // verus!
