//! What the user can ask for, and how a line of words is read as a request.

use crate::text::{
    chars_of, find_char, find_from, index_of, parse_index, same_text, trim, trimmed,
};
use vstd::string::*;
use vstd::prelude::*;
use vstd::std_specs::iter::IteratorSpec;

verus! {

/// A request.
#[derive(Debug)]
pub enum Command {
    Push(String),
    Pop(usize),
    PopLast,
    Continue(usize),
    Edit(usize),
    EditLast,
    EditReminders,
    Get(usize),
    GetLast,
    Remind(usize),
    RemindLast,
}

/// What a `Command` stands for.
pub enum Intent {
    Push(Seq<char>),
    Pop(usize),
    PopLast,
    Continue(usize),
    Edit(usize),
    EditLast,
    EditReminders,
    Get(usize),
    GetLast,
    Remind(usize),
    RemindLast,
}

impl View for Command {
    type V = Intent;

    open spec fn view(&self) -> Intent {
        match self {
            Command::Push(name) => Intent::Push(name@),
            Command::Pop(index) => Intent::Pop(*index),
            Command::PopLast => Intent::PopLast,
            Command::Continue(index) => Intent::Continue(*index),
            Command::Edit(index) => Intent::Edit(*index),
            Command::EditLast => Intent::EditLast,
            Command::EditReminders => Intent::EditReminders,
            Command::Get(index) => Intent::Get(*index),
            Command::GetLast => Intent::GetLast,
            Command::Remind(index) => Intent::Remind(*index),
            Command::RemindLast => Intent::RemindLast,
        }
    }
}

/// The request that an optional command stands for.
pub open spec fn intent_of(c: Option<Command>) -> Option<Intent> {
    match c {
        Some(c) => Some(c@),
        None => None,
    }
}

/// The words of a statement, as characters.
pub open spec fn words(statement: Seq<&str>) -> Seq<Seq<char>> {
    statement.map_values(|word: &str| word@)
}

/// The verbs.
pub enum Verb {
    Get,
    Pop,
    Remind,
    Edit,
}

impl Verb {
    /// The verb that `word` writes, in full or by its first letter.
    pub open spec fn of(word: Seq<char>) -> Option<Verb> {
        if word == "g"@ || word == "get"@ {
            Some(Verb::Get)
        } else if word == "p"@ || word == "pop"@ {
            Some(Verb::Pop)
        } else if word == "r"@ || word == "remind"@ {
            Some(Verb::Remind)
        } else if word == "e"@ || word == "edit"@ {
            Some(Verb::Edit)
        } else {
            None
        }
    }

    /// The request that the verb makes of the last task.
    pub open spec fn of_last(self) -> Intent {
        match self {
            Verb::Get => Intent::GetLast,
            Verb::Pop => Intent::PopLast,
            Verb::Remind => Intent::RemindLast,
            Verb::Edit => Intent::EditLast,
        }
    }

    /// The request that the verb makes of the task at `index`.
    pub open spec fn at(self, index: usize) -> Intent {
        match self {
            Verb::Get => Intent::Get(index),
            Verb::Pop => Intent::Pop(index),
            Verb::Remind => Intent::Remind(index),
            Verb::Edit => Intent::Edit(index),
        }
    }

    /// The request that the verb makes with the word `arg` after it. After
    /// `edit` the word may name the reminders; any other word must write a
    /// position, or there is no request.
    pub open spec fn with(self, arg: Seq<char>) -> Option<Intent> {
        if self is Edit && (arg == "r"@ || arg == "reminders"@) {
            Some(Intent::EditReminders)
        } else {
            match index_of(arg) {
                Some(index) => Some(self.at(index)),
                None => None,
            }
        }
    }
}

/// The request that a first word makes, alone or with a second word after
/// it. A verb alone speaks of the last task, a verb and a word of the task at
/// the position the word writes; a position alone asks to continue with the
/// task there. Anything else is no request.
pub open spec fn request(first: Seq<char>, second: Option<Seq<char>>) -> Option<Intent> {
    match Verb::of(first) {
        Some(verb) => match second {
            None => Some(verb.of_last()),
            Some(word) => verb.with(word),
        },
        None => match index_of(first) {
            Some(index) => Some(Intent::Continue(index)),
            None => None,
        },
    }
}

/// The request that a statement makes: that of its first two words. Words
/// after the second are not read, and no words make no request.
pub open spec fn parse(words: Seq<Seq<char>>) -> Option<Intent> {
    if words.len() == 0 {
        None
    } else if words.len() == 1 {
        request(words[0], None)
    } else {
        request(words[0], Some(words[1]))
    }
}

/// The words of a text, which single spaces keep apart. Two spaces in a
/// row have an empty word between them.
pub open spec fn split(text: Seq<char>) -> Seq<Seq<char>>
    decreases text.len(),
{
    match find_from(text, ' ', 0) {
        Some(i) => if 0 <= i < text.len() {
            seq![text.subrange(0, i)] + split(text.subrange(i + 1, text.len() as int))
        } else {
            seq![text]
        },
        None => seq![text],
    }
}

/// The text of each argument without the white space around it.
pub open spec fn trimmed_words(args: Seq<String>) -> Seq<Seq<char>> {
    args.map_values(|arg: String| trim(arg@))
}

fn read_verb(word: &str) -> (r: Option<Verb>)
    ensures
        r == Verb::of(word@),
{
    if same_text(word, "g") || same_text(word, "get") {
        Some(Verb::Get)
    } else if same_text(word, "p") || same_text(word, "pop") {
        Some(Verb::Pop)
    } else if same_text(word, "r") || same_text(word, "remind") {
        Some(Verb::Remind)
    } else if same_text(word, "e") || same_text(word, "edit") {
        Some(Verb::Edit)
    } else {
        None
    }
}

impl Verb {
    fn command_of_last(&self) -> (r: Command)
        ensures
            r@ == self.of_last(),
    {
        match self {
            Verb::Get => Command::GetLast,
            Verb::Pop => Command::PopLast,
            Verb::Remind => Command::RemindLast,
            Verb::Edit => Command::EditLast,
        }
    }

    fn command_with(&self, arg: &str) -> (r: Option<Command>)
        ensures
            intent_of(r) == self.with(arg@),
    {
        if let Verb::Edit = self {
            if same_text(arg, "r") || same_text(arg, "reminders") {
                return Some(Command::EditReminders);
            }
        }
        match parse_index(arg) {
            Some(index) => Some(
                match self {
                    Verb::Get => Command::Get(index),
                    Verb::Pop => Command::Pop(index),
                    Verb::Remind => Command::Remind(index),
                    Verb::Edit => Command::Edit(index),
                },
            ),
            None => None,
        }
    }
}

fn read_words(first: &str, second: Option<&str>) -> (r: Option<Command>)
    ensures
        intent_of(r) == request(
            first@,
            match second {
                Some(word) => Some(word@),
                None => None,
            },
        ),
{
    match read_verb(first) {
        Some(verb) => match second {
            None => Some(verb.command_of_last()),
            Some(word) => verb.command_with(word),
        },
        None => match parse_index(first) {
            Some(index) => Some(Command::Continue(index)),
            None => None,
        },
    }
}

impl<'a> Command {
    /// Reads a request from the words of a statement. Of an iterator that
    /// keeps the laws of iterators, the first two words are taken and read
    /// as `parse` says.
    pub fn from<I>(mut statement: I) -> (r: Option<Self>) where I: Iterator<Item = &'a str>
        ensures
            statement.obeys_prophetic_iter_laws() ==> intent_of(r) == parse(
                words(statement.remaining()),
            ),
    {
        let ghost all = statement.remaining();
        match statement.next() {
            None => None,
            Some(first) => {
                let second = if read_verb(first).is_some() {
                    statement.next()
                } else {
                    None
                };
                proof {
                    if statement.obeys_prophetic_iter_laws() && second is Some {
                        assert(all.drop_first()[0] == all[1]);
                    }
                }
                read_words(first, second)
            },
        }
    }
}

/// What is asked of the program when it is started.
#[derive(Debug)]
pub enum Invocation {
    /// To tell its version.
    Version,
    /// To tell how it is used.
    Help,
    /// To act on this command.
    Act(Command),
    /// Something that is no command.
    Invalid,
    /// Nothing yet: the user is to be asked.
    Interactive,
}

/// What an `Invocation` stands for.
pub enum Asked {
    Version,
    Help,
    Act(Intent),
    Invalid,
    Interactive,
}

impl View for Invocation {
    type V = Asked;

    open spec fn view(&self) -> Asked {
        match self {
            Invocation::Version => Asked::Version,
            Invocation::Help => Asked::Help,
            Invocation::Act(command) => Asked::Act(command@),
            Invocation::Invalid => Asked::Invalid,
            Invocation::Interactive => Asked::Interactive,
        }
    }
}

impl Asked {
    /// What the arguments of the program ask for. Without arguments the
    /// user is to be asked. A first argument `--version` or `--help` is
    /// answered at once. Any other arguments are read as a statement, each
    /// without the white space around it.
    pub open spec fn of(args: Seq<String>) -> Asked {
        if args.len() == 0 {
            Asked::Interactive
        } else if args[0]@ == "--version"@ {
            Asked::Version
        } else if args[0]@ == "--help"@ {
            Asked::Help
        } else {
            match parse(trimmed_words(args)) {
                Some(intent) => Asked::Act(intent),
                None => Asked::Invalid,
            }
        }
    }
}

impl Invocation {
    /// Reads the arguments that the program was started with.
    pub fn from_args(args: &Vec<String>) -> (r: Self)
        ensures
            r@ == Asked::of(args@),
    {
        if args.len() == 0 {
            Invocation::Interactive
        } else if same_text(args[0].as_str(), "--version") {
            Invocation::Version
        } else if same_text(args[0].as_str(), "--help") {
            Invocation::Help
        } else {
            let first = trimmed(args[0].as_str());
            let second = if args.len() > 1 {
                Some(trimmed(args[1].as_str()))
            } else {
                None
            };
            match read_words(first, second) {
                Some(command) => Invocation::Act(command),
                None => Invocation::Invalid,
            }
        }
    }
}

/// What a line that the user typed asks for.
#[derive(Debug)]
pub enum Line {
    /// To stop: the line is empty.
    Quit,
    /// Nothing: the line begins with a slash and makes no request.
    Nothing,
    /// To act on this command.
    Act(Command),
}

/// What a `Line` stands for.
pub enum Typed {
    Quit,
    Nothing,
    Act(Intent),
}

impl View for Line {
    type V = Typed;

    open spec fn view(&self) -> Typed {
        match self {
            Line::Quit => Typed::Quit,
            Line::Nothing => Typed::Nothing,
            Line::Act(command) => Typed::Act(command@),
        }
    }
}

impl Typed {
    /// What a line asks for, white space around it set aside. An empty line
    /// asks to stop. After a slash stands a statement. Any other line is
    /// the name of a task to push.
    pub open spec fn of(line: Seq<char>) -> Typed {
        let text = trim(line);
        if text.len() == 0 {
            Typed::Quit
        } else if text[0] == '/' {
            match parse(split(text.drop_first())) {
                Some(intent) => Typed::Act(intent),
                None => Typed::Nothing,
            }
        } else {
            Typed::Act(Intent::Push(text))
        }
    }
}

impl Line {
    /// Reads a line that the user typed.
    pub fn read(line: &str) -> (r: Self)
        ensures
            r@ == Typed::of(line@),
    {
        let text = trimmed(line);
        let chars = chars_of(text);
        let n = chars.len();
        if n == 0 {
            return Line::Quit;
        }
        if chars[0] != '/' {
            return Line::Act(Command::Push(text.to_owned()));
        }
        let statement = text.substring_char(1, n);
        let rest = chars_of(statement);
        assert(statement@ == text@.drop_first());
        let m = rest.len();
        let command = match find_char(&rest, ' ') {
            None => read_words(statement, None),
            Some(i) => {
                let first = statement.substring_char(0, i);
                let after = statement.substring_char(i + 1, m);
                let tail = chars_of(after);
                let second = match find_char(&tail, ' ') {
                    None => after,
                    Some(j) => after.substring_char(0, j),
                };
                proof {
                    let more = split(after@);
                    assert(more.len() >= 1 && more[0] == second@);
                    assert(split(statement@) == seq![first@] + more);
                    assert(split(statement@)[1] == more[0]);
                }
                read_words(first, Some(second))
            },
        };
        match command {
            Some(command) => Line::Act(command),
            None => Line::Nothing,
        }
    }
}

} // verus!
