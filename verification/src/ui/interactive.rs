//! The interactive display: what a key press means in each of its modes,
//! what the user typed as a request for a project, and the command line
//! that would show what the display shows.

use vstd::prelude::*;
use crate::distribution::tag::tag_text;
use crate::picker::{files_of, is_choice, Project, ProjectView};
use crate::text::{
    char_is_whitespace, chars_of, is_whitespace, lemma_prefix_len_is, no_whitespace, pop_char,
    prefix_len, push_char, string_of, whitespace,
};
use crate::ui::fields::{after_key, DisplayFields};
use crate::warehouse::DistributionUrl;

verus! {

/// `text` without the white space that it starts with.
pub open spec fn trim_start(text: Seq<char>) -> Seq<char> {
    text.skip(prefix_len(text, whitespace()))
}

/// The first word of `text`: what stands between the white space that it
/// starts with and the next white space.  Empty where `text` has no word.
pub open spec fn first_word(text: Seq<char>) -> Seq<char> {
    trim_start(text).take(prefix_len(trim_start(text), no_whitespace()))
}

/// What follows the first word of `text`.
pub open spec fn after_first_word(text: Seq<char>) -> Seq<char> {
    trim_start(text).skip(prefix_len(trim_start(text), no_whitespace()))
}

/// `word`, where it is a word.
pub open spec fn word(word: Seq<char>) -> Option<Seq<char>> {
    if word.len() > 0 {
        Some(word)
    } else {
        None
    }
}

/// The project that `input` asks for: its first word names the package,
/// the second the version, the third the distribution, and more words are
/// passed over.  `None` where `input` has no word.
pub open spec fn request_of(input: Seq<char>) -> Option<
    (Seq<char>, Option<Seq<char>>, Option<Seq<char>>),
> {
    let rest = after_first_word(input);
    match word(first_word(input)) {
        Some(name) => Some((name, word(first_word(rest)), word(first_word(after_first_word(rest))))),
        None => None,
    }
}

/// The bounds of the first word of `v[from..]`.
fn word_from(v: &Vec<char>, from: usize) -> (r: (usize, usize))
    requires
        from <= v.len(),
    ensures
        from <= r.0 <= r.1 <= v.len(),
        first_word(v@.skip(from as int)) == v@.subrange(r.0 as int, r.1 as int),
        after_first_word(v@.skip(from as int)) == v@.skip(r.1 as int),
{
    let ghost text = v@.skip(from as int);
    let mut start = from;
    while start < v.len() && char_is_whitespace(v[start])
        invariant
            from <= start <= v.len(),
            forall|k: int| from <= k < start ==> is_whitespace(v@[k]),
        decreases v.len() - start,
    {
        start += 1;
    }
    let mut end = start;
    while end < v.len() && !char_is_whitespace(v[end])
        invariant
            start <= end <= v.len(),
            forall|k: int| start <= k < end ==> !is_whitespace(v@[k]),
        decreases v.len() - end,
    {
        end += 1;
    }
    proof {
        lemma_prefix_len_is(text, whitespace(), start - from);
        assert(trim_start(text) =~= v@.skip(start as int));
        lemma_prefix_len_is(v@.skip(start as int), no_whitespace(), end - start);
        assert(v@.skip(start as int).take(end - start) =~= v@.subrange(start as int, end as int));
        assert(v@.skip(start as int).skip(end - start) =~= v@.skip(end as int));
    }
    (start, end)
}

/// The word `v[start..end]`, where it is one.
fn word_of(v: &Vec<char>, start: usize, end: usize) -> (r: Option<String>)
    requires
        start <= end <= v.len(),
    ensures
        r.deep_view() == word(v@.subrange(start as int, end as int)),
{
    if start < end {
        Some(string_of(v, start, end))
    } else {
        None
    }
}

/// The project that `input` asks for: package, version and distribution.
pub fn parse_request(input: &str) -> (r: Option<(String, Option<String>, Option<String>)>)
    ensures
        r.deep_view() == request_of(input@),
{
    let v = chars_of(input);
    assert(v@.skip(0) =~= v@);
    let (start, end) = word_from(&v, 0);
    let name = match word_of(&v, start, end) {
        Some(name) => name,
        None => { return None; },
    };
    let (start, end) = word_from(&v, end);
    let version = word_of(&v, start, end);
    let (start, end) = word_from(&v, end);
    let distribution = word_of(&v, start, end);
    Some((name, version, distribution))
}

/// A key of the keyboard, as far as the display tells keys apart.
#[derive(Debug, Clone, Copy, PartialEq, Eq, Structural)]
pub enum Key {
    Char(char),
    Backspace,
    Enter,
    Esc,
    Other,
}

/// A key that was pressed, and whether Control and Shift were held.
#[derive(Debug, Clone, Copy, PartialEq, Eq, Structural)]
pub struct KeyPress {
    pub key: Key,
    pub control: bool,
    pub shift: bool,
}

/// What a key press asks for while a project is shown.
#[derive(Debug, Clone, Copy, PartialEq, Eq, Structural)]
pub enum Command {
    /// Leave the display.
    Quit,
    /// Show the help.
    Help,
    /// Ask for another project.
    Prompt,
    /// Show the command line for what is shown, and leave where `leave`.
    CommandLine { leave: bool },
    /// Show the project with these fields.
    Show(DisplayFields),
}

/// Whether a key press leaves the display in whatever mode: Control and
/// `c`.
pub open spec fn is_interrupt(press: KeyPress) -> bool {
    press.key == Key::Char('c') && press.control
}

/// What a key press asks for while a project is shown with the fields
/// `fields`: `q` leaves, `?` shows the help, the space bar asks for
/// another project, Control and `p` shows the command line, and leaves
/// where Shift is held too; any other key shows or hides a field, or
/// changes nothing.
pub open spec fn command_of(press: KeyPress, fields: DisplayFields) -> Command {
    if is_interrupt(press) {
        Command::Quit
    } else {
        match press.key {
            Key::Char(c) => if c == 'q' {
                Command::Quit
            } else if c == '?' {
                Command::Help
            } else if c == ' ' {
                Command::Prompt
            } else if c == 'p' && press.control {
                Command::CommandLine { leave: press.shift }
            } else {
                Command::Show(after_key(fields, c))
            },
            _ => Command::Show(fields),
        }
    }
}

/// Whether a key press leaves the display in whatever mode.
pub fn interrupts(press: KeyPress) -> (r: bool)
    ensures
        r == is_interrupt(press),
{
    match press.key {
        Key::Char(c) => c == 'c' && press.control,
        _ => false,
    }
}

/// What a key press asks for while a project is shown.
pub fn command(press: KeyPress, fields: DisplayFields) -> (r: Command)
    ensures
        r == command_of(press, fields),
{
    match press.key {
        Key::Char(c) => {
            if c == 'c' && press.control {
                Command::Quit
            } else if c == 'q' {
                Command::Quit
            } else if c == '?' {
                Command::Help
            } else if c == ' ' {
                Command::Prompt
            } else if c == 'p' && press.control {
                Command::CommandLine { leave: press.shift }
            } else {
                let mut shown = fields;
                shown.press(c);
                Command::Show(shown)
            }
        },
        _ => Command::Show(fields),
    }
}

/// What the user has typed, and what the display has to say about it.
#[derive(Debug)]
pub enum Messages {
    /// What was typed so far.
    Info(String),
    /// What was typed so far, and a complaint.
    InfoError(String, String),
    /// A complaint alone.
    Error(String),
}

/// What the user has typed, and what the display has to say about it.
pub enum MessagesView {
    Info(Seq<char>),
    InfoError(Seq<char>, Seq<char>),
    Error(Seq<char>),
}

impl View for Messages {
    type V = MessagesView;

    open spec fn view(&self) -> MessagesView {
        match self {
            Messages::Info(typed) => MessagesView::Info(typed@),
            Messages::InfoError(typed, complaint) => MessagesView::InfoError(typed@, complaint@),
            Messages::Error(complaint) => MessagesView::Error(complaint@),
        }
    }
}

/// What the prompt answers to a line: the project to open, or the line
/// with a complaint.
#[derive(Debug)]
pub enum Answer {
    Open(String, Option<String>, Option<String>),
    Again(Messages),
}

/// The complaint about a line that names no package.
pub open spec fn complaint() -> Seq<char> {
    "please enter the name of a package"@
}

/// The messages after the character `c` was typed: it is added to what was
/// typed, and starts the line where there was a complaint alone.
pub open spec fn after_char(messages: MessagesView, c: char) -> MessagesView {
    match messages {
        MessagesView::Info(typed) => MessagesView::Info(typed.push(c)),
        MessagesView::InfoError(typed, complaint) => MessagesView::InfoError(typed.push(c), complaint),
        MessagesView::Error(complaint) => MessagesView::InfoError(seq![c], complaint),
    }
}

/// `typed` without its last character.
pub open spec fn erased(typed: Seq<char>) -> Seq<char> {
    if typed.len() > 0 {
        typed.drop_last()
    } else {
        typed
    }
}

/// The messages after the last character was erased.
pub open spec fn after_backspace(messages: MessagesView) -> MessagesView {
    match messages {
        MessagesView::Info(typed) => MessagesView::Info(erased(typed)),
        MessagesView::InfoError(typed, complaint) => MessagesView::InfoError(erased(typed), complaint),
        MessagesView::Error(complaint) => MessagesView::Error(complaint),
    }
}

/// The messages that complain that no package was named.
pub open spec fn complaining(messages: MessagesView) -> MessagesView {
    match messages {
        MessagesView::Info(typed) => MessagesView::InfoError(typed, complaint()),
        MessagesView::InfoError(typed, _) => MessagesView::InfoError(typed, complaint()),
        MessagesView::Error(_) => MessagesView::Error(complaint()),
    }
}

/// What was typed.
pub open spec fn typed(messages: MessagesView) -> Seq<char> {
    match messages {
        MessagesView::Info(typed) => typed,
        MessagesView::InfoError(typed, _) => typed,
        MessagesView::Error(_) => Seq::empty(),
    }
}

impl Messages {
    /// Takes in the character `c` that was typed.
    pub fn type_char(self, c: char) -> (r: Messages)
        ensures
            r@ == after_char(self@, c),
    {
        match self {
            Messages::Info(mut typed) => {
                push_char(&mut typed, c);
                Messages::Info(typed)
            },
            Messages::InfoError(mut typed, complaint) => {
                push_char(&mut typed, c);
                Messages::InfoError(typed, complaint)
            },
            Messages::Error(complaint) => {
                let mut typed = String::new();
                push_char(&mut typed, c);
                assert(typed@ =~= seq![c]);
                Messages::InfoError(typed, complaint)
            },
        }
    }

    /// Erases the last character that was typed.
    pub fn backspace(self) -> (r: Messages)
        ensures
            r@ == after_backspace(self@),
    {
        match self {
            Messages::Info(mut typed) => {
                pop_char(&mut typed);
                Messages::Info(typed)
            },
            Messages::InfoError(mut typed, complaint) => {
                pop_char(&mut typed);
                Messages::InfoError(typed, complaint)
            },
            Messages::Error(complaint) => Messages::Error(complaint),
        }
    }

    /// The same line, with the complaint that no package was named.
    pub fn complain(self) -> (r: Messages)
        ensures
            r@ == complaining(self@),
    {
        let complaint = "please enter the name of a package".to_owned();
        match self {
            Messages::Info(typed) => Messages::InfoError(typed, complaint),
            Messages::InfoError(typed, _) => Messages::InfoError(typed, complaint),
            Messages::Error(_) => Messages::Error(complaint),
        }
    }

    /// Answers the line that was typed: the project that it asks for, or
    /// a complaint where it names no package.
    pub fn enter(self) -> (r: Answer)
        ensures
            match r {
                Answer::Open(name, version, distribution) => !(self@ is Error) && request_of(
                    typed(self@),
                ) == Some((name@, version.deep_view(), distribution.deep_view())),
                Answer::Again(messages) => (self@ is Error || request_of(typed(self@)) is None)
                    && messages@ == complaining(self@),
            },
    {
        let request = match &self {
            Messages::Info(typed) => parse_request(typed.as_str()),
            Messages::InfoError(typed, _) => parse_request(typed.as_str()),
            Messages::Error(_) => None,
        };
        match request {
            Some((name, version, distribution)) => Answer::Open(name, version, distribution),
            None => Answer::Again(self.complain()),
        }
    }
}

/// What the display shows: the help, a notice over the project, the prompt
/// for another project, or the project.
#[derive(Debug)]
pub enum Mode {
    Help,
    Info(Messages),
    Input(Messages),
    Normal,
}

/// What the display shows.
pub enum ModeView {
    Help,
    Info(MessagesView),
    Input(MessagesView),
    Normal,
}

impl View for Mode {
    type V = ModeView;

    open spec fn view(&self) -> ModeView {
        match self {
            Mode::Help => ModeView::Help,
            Mode::Info(messages) => ModeView::Info(messages@),
            Mode::Input(messages) => ModeView::Input(messages@),
            Mode::Normal => ModeView::Normal,
        }
    }
}

impl Mode {
    /// What the display shows once the help or a notice is closed: the
    /// project where there is one, and else the prompt with an empty line.
    pub fn resume(has_project: bool) -> (r: Mode)
        ensures
            r@ == if has_project {
                ModeView::Normal
            } else {
                ModeView::Input(MessagesView::Info(Seq::empty()))
            },
    {
        if has_project {
            Mode::Normal
        } else {
            Mode::Input(Messages::Info(String::new()))
        }
    }

    /// What the display shows once the prompt is left with the line
    /// `messages`: the project where there is one, and else the prompt
    /// again, with the complaint that no package was named.
    pub fn escape(messages: Messages, has_project: bool) -> (r: Mode)
        ensures
            r@ == if has_project {
                ModeView::Normal
            } else {
                ModeView::Input(complaining(messages@))
            },
    {
        if has_project {
            Mode::Normal
        } else {
            Mode::Input(messages.complain())
        }
    }
}

/// `text` where `shown`, and nothing where not.
pub open spec fn flag(shown: bool, text: Seq<char>) -> Seq<char> {
    if shown {
        text
    } else {
        Seq::empty()
    }
}

/// `text` after a space, where there is one.
pub open spec fn argument(text: Option<Seq<char>>) -> Seq<char> {
    match text {
        Some(t) => " "@ + t,
        None => Seq::empty(),
    }
}

/// The switch for a field that is shown in degrees: none for degree zero,
/// the long switch for degree one, and the short one as often as the degree
/// says beyond that.
pub open spec fn degree_flag(degree: u8, long: Seq<char>, short: char) -> Seq<char> {
    if degree == 0 {
        Seq::empty()
    } else if degree == 1 {
        long
    } else {
        " -"@ + Seq::new(degree as nat, |i: int| short)
    }
}

/// How the command line names the file `chosen`: a wheel by its tag, any
/// other file as `sdist`.
pub open spec fn file_argument(chosen: Option<DistributionUrl>) -> Option<Seq<char>> {
    match chosen {
        Some(file) => match crate::distribution::wheel::wheel_name_from_text(file.filename@) {
            Some(name) => Some(tag_text(name.compatibility_tag)),
            None => Some("sdist"@),
        },
        None => None,
    }
}

/// The switches for the fields `fields` of a project.
pub open spec fn field_flags(fields: DisplayFields, distribution_selected: bool) -> Seq<char> {
    flag(!fields.name, " -qq"@) + flag(!fields.time && distribution_selected, " -q"@) + flag(
        fields.summary,
        " --summary"@,
    ) + flag(fields.license, " --license"@) + flag(fields.urls, " --urls"@) + flag(
        fields.keywords,
        " --keywords"@,
    ) + flag(fields.classifiers, " --classifiers"@) + degree_flag(
        fields.artifacts,
        " --artifacts"@,
        'a',
    ) + flag(fields.dependencies, " --dependencies"@) + degree_flag(
        fields.readme,
        " --readme"@,
        'r',
    ) + flag(fields.packages, " --packages"@) + flag(fields.executables, " --executables"@)
}

/// The command line that shows the project `project` with the fields
/// `fields`, where `chosen` is the file of it that is shown.
pub open spec fn command_line(
    project: ProjectView,
    chosen: Option<DistributionUrl>,
    fields: DisplayFields,
) -> Seq<char> {
    if fields.versions {
        "kayak"@ + " versions"@ + flag(!fields.name, " -qq"@)
    } else {
        "kayak"@ + " "@ + project.package_selector + argument(project.version_selector) + argument(
            file_argument(chosen),
        ) + field_flags(fields, project.distribution_selector is Some)
    }
}

/// Appends `text` to `line` where `shown`, where `line` is `start` and
/// then `tail`.
fn push_flag(
    line: &mut String,
    shown: bool,
    text: &str,
    Ghost(start): Ghost<Seq<char>>,
    Ghost(tail): Ghost<Seq<char>>,
)
    requires
        old(line)@ == start + tail,
    ensures
        final(line)@ == start + (tail + flag(shown, text@)),
{
    if shown {
        line.append(text);
    }
    assert(line@ =~= start + (tail + flag(shown, text@)));
}

/// Appends the switch for a field that is shown in degrees, where `line`
/// is `start` and then `tail`.
fn push_degree_flag(
    line: &mut String,
    degree: u8,
    long: &str,
    short: char,
    Ghost(start): Ghost<Seq<char>>,
    Ghost(tail): Ghost<Seq<char>>,
)
    requires
        old(line)@ == start + tail,
    ensures
        final(line)@ == start + (tail + degree_flag(degree, long@, short)),
{
    let ghost whole = line@;
    push_degree(line, degree, long, short);
    assert(whole + degree_flag(degree, long@, short) =~= start + (tail + degree_flag(
        degree,
        long@,
        short,
    )));
}

/// Appends the switch for a field that is shown in degrees.
fn push_degree(line: &mut String, degree: u8, long: &str, short: char)
    ensures
        final(line)@ == old(line)@ + degree_flag(degree, long@, short),
{
    if degree == 0 {
        assert(line@ + Seq::<char>::empty() =~= line@);
    } else if degree == 1 {
        line.append(long);
    } else {
        let ghost start = line@;
        line.append(" -");
        let mut i: u8 = 0;
        while i < degree
            invariant
                0 <= i <= degree,
                line@ == start + " -"@ + Seq::new(i as nat, |k: int| short),
            decreases degree - i,
        {
            push_char(line, short);
            i += 1;
            assert(line@ =~= start + " -"@ + Seq::new(i as nat, |k: int| short));
        }
        assert(line@ =~= start + (" -"@ + Seq::new(degree as nat, |k: int| short)));
    }
}

/// Appends the switches for the fields `fields`.
fn push_field_flags(line: &mut String, fields: &DisplayFields, distribution_selected: bool)
    ensures
        final(line)@ == old(line)@ + field_flags(*fields, distribution_selected),
{
    let ghost start = line@;
    let ghost mut tail = Seq::<char>::empty();
    assert(start + tail =~= start);
    push_flag(line, !fields.name, " -qq", Ghost(start), Ghost(tail));
    proof {
        assert(tail + flag(!fields.name, " -qq"@) =~= flag(!fields.name, " -qq"@));
        tail = flag(!fields.name, " -qq"@);
    }
    push_flag(line, !fields.time && distribution_selected, " -q", Ghost(start), Ghost(tail));
    proof {
        tail = tail + flag(!fields.time && distribution_selected, " -q"@);
    }
    push_flag(line, fields.summary, " --summary", Ghost(start), Ghost(tail));
    proof {
        tail = tail + flag(fields.summary, " --summary"@);
    }
    push_flag(line, fields.license, " --license", Ghost(start), Ghost(tail));
    proof {
        tail = tail + flag(fields.license, " --license"@);
    }
    push_flag(line, fields.urls, " --urls", Ghost(start), Ghost(tail));
    proof {
        tail = tail + flag(fields.urls, " --urls"@);
    }
    push_flag(line, fields.keywords, " --keywords", Ghost(start), Ghost(tail));
    proof {
        tail = tail + flag(fields.keywords, " --keywords"@);
    }
    push_flag(line, fields.classifiers, " --classifiers", Ghost(start), Ghost(tail));
    proof {
        tail = tail + flag(fields.classifiers, " --classifiers"@);
    }
    push_degree_flag(line, fields.artifacts, " --artifacts", 'a', Ghost(start), Ghost(tail));
    proof {
        tail = tail + degree_flag(fields.artifacts, " --artifacts"@, 'a');
    }
    push_flag(line, fields.dependencies, " --dependencies", Ghost(start), Ghost(tail));
    proof {
        tail = tail + flag(fields.dependencies, " --dependencies"@);
    }
    push_degree_flag(line, fields.readme, " --readme", 'r', Ghost(start), Ghost(tail));
    proof {
        tail = tail + degree_flag(fields.readme, " --readme"@, 'r');
    }
    push_flag(line, fields.packages, " --packages", Ghost(start), Ghost(tail));
    proof {
        tail = tail + flag(fields.packages, " --packages"@);
    }
    push_flag(line, fields.executables, " --executables", Ghost(start), Ghost(tail));
}

/// The command line that shows what the interactive display shows of
/// `project`: the package, the version where one was asked for, the file
/// where one is chosen, and the switches for `display_fields`.
pub fn encode_cli(project: &Project, display_fields: &DisplayFields) -> (r: String)
    ensures
        display_fields.versions ==> r@ == command_line(project@, None, *display_fields),
        !display_fields.versions ==> exists|chosen: Option<DistributionUrl>|
            #![auto]
            is_choice(project@.distribution_selector, files_of(project@), chosen) && r@
                == command_line(project@, chosen, *display_fields),
{
    let mut cli = "kayak".to_owned();
    if display_fields.versions {
        cli.append(" versions");
        if !display_fields.name {
            cli.append(" -qq");
        } else {
            assert(cli@ + Seq::<char>::empty() =~= cli@);
        }
        return cli;
    }
    cli.append(" ");
    cli.append(project.package_selector().as_str());
    match project.version_selector() {
        Some(version) => {
            let ghost before = cli@;
            cli.append(" ");
            cli.append(version.as_str());
            assert(cli@ =~= before + (" "@ + version@));
        },
        None => {
            assert(cli@ + Seq::<char>::empty() =~= cli@);
        },
    }
    let ghost chosen;
    match project.distribution() {
        Ok(file) => {
            proof {
                chosen = Some(*file);
            }
            let shown = match file.filename() {
                Ok(name) => name.compatibility_tag().to_string(),
                Err(_) => "sdist".to_owned(),
            };
            let ghost before = cli@;
            cli.append(" ");
            cli.append(shown.as_str());
            assert(cli@ =~= before + (" "@ + shown@));
        },
        Err(_) => {
            proof {
                chosen = None;
            }
            assert(cli@ + Seq::<char>::empty() =~= cli@);
        },
    }
    assert(is_choice(project@.distribution_selector, files_of(project@), chosen));
    push_field_flags(&mut cli, display_fields, project.distribution_was_selected());
    assert(cli@ == command_line(project@, chosen, *display_fields));
    cli
}

} // verus!
