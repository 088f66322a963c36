use vstd::prelude::*;
use vstd::hash_map::StringHashMap;

use crate::command_handler::{CommandHandler, CommandResult};
use crate::tokenizer::{args_of, command_of, is_word, lemma_tokens_are_words, tokenize, tokens, views};

verus! {

/// The prompt, written before every read.
pub open spec fn prompt() -> Seq<char> {
    "(cmd) "@
}

/// The diagnostic for a line whose command is not registered.
pub open spec fn unknown_command(name: Seq<char>) -> Seq<char> {
    "No command "@ + name + "\n"@
}

/// The diagnostic for a name that is registered already.
pub open spec fn duplicate_warning(name: Seq<char>) -> Seq<char> {
    "Warning: Command with handle "@ + name + " already exists."@
}

/// The registry after an attempt to register `handler` under `name`: a name that is taken
/// keeps its handler.
pub open spec fn registered<V>(m: Map<Seq<char>, V>, name: Seq<char>, handler: V) -> Map<
    Seq<char>,
    V,
> {
    if m.contains_key(name) {
        m
    } else {
        m.insert(name, handler)
    }
}

/// Where a session stands: which I/O result it waits for, or that none is running.
#[derive(Clone, Copy, Debug, PartialEq, Eq, Structural)]
pub enum Phase {
    /// The prompt is being written.
    Prompting,
    /// The output sink is being flushed after the prompt.
    Flushing,
    /// A line is being read.
    Reading,
    /// The unknown-command diagnostic is being written.
    Reporting,
    /// No session is running: none was started, or the last one has ended.
    Stopped,
}

/// The next piece of I/O the caller performs for the session.
#[derive(Debug)]
pub enum Action {
    /// Write this text to the output sink.
    Write(String),
    /// Flush the output sink.
    Flush,
    /// Read one line from the input source.
    ReadLine,
    /// The session is over; this is what the caller reports.
    Finish(Result<(), std::io::Error>),
}

/// What came of the last action.
#[derive(Debug)]
pub enum Event {
    /// The write or the flush succeeded.
    Done,
    /// The read returned this line, line end included; the empty string means the input ended.
    Line(String),
    /// The I/O call failed with this error.
    Failed(std::io::Error),
}

/// An [`Action`] with its text as characters.
pub enum ActionView {
    Write(Seq<char>),
    Flush,
    ReadLine,
    Finish(Result<(), std::io::Error>),
}

/// An [`Event`] with its line as characters.
pub enum EventView {
    Done,
    Line(Seq<char>),
    Failed(std::io::Error),
}

impl View for Action {
    type V = ActionView;

    open spec fn view(&self) -> ActionView {
        match self {
            Action::Write(text) => ActionView::Write(text@),
            Action::Flush => ActionView::Flush,
            Action::ReadLine => ActionView::ReadLine,
            Action::Finish(outcome) => ActionView::Finish(*outcome),
        }
    }
}

impl View for Event {
    type V = EventView;

    open spec fn view(&self) -> EventView {
        match self {
            Event::Done => EventView::Done,
            Event::Line(line) => EventView::Line(line@),
            Event::Failed(e) => EventView::Failed(*e),
        }
    }
}

/// How a session goes on.
pub enum Step {
    /// Move to this phase and ask for this action.
    Next(Phase, ActionView),
    /// Run the handler registered under this name with these arguments, which
    /// [`Cmd::lookup_line`] finds for the line; what it returns decides, as
    /// [`after_handler`] says.
    Run(Seq<char>, Seq<Seq<char>>),
}

/// The reaction of a session in `phase` to `event`, where `names` are the registered
/// command names. Any failure ends the session with that very error.
pub open spec fn react(phase: Phase, event: EventView, names: Set<Seq<char>>) -> Step {
    match event {
        EventView::Failed(e) => Step::Next(Phase::Stopped, ActionView::Finish(Err(e))),
        EventView::Done => proceed(phase, Seq::empty(), names),
        EventView::Line(line) => proceed(phase, line, names),
    }
}

/// The reaction to a successful action; `line` is what a read returned.
pub open spec fn proceed(phase: Phase, line: Seq<char>, names: Set<Seq<char>>) -> Step {
    match phase {
        Phase::Prompting => Step::Next(Phase::Flushing, ActionView::Flush),
        Phase::Flushing => Step::Next(Phase::Reading, ActionView::ReadLine),
        Phase::Reading => dispatch(line, names),
        Phase::Reporting => Step::Next(Phase::Prompting, ActionView::Write(prompt())),
        Phase::Stopped => Step::Next(Phase::Stopped, ActionView::Finish(Ok(()))),
    }
}

/// What a line read from the input leads to. The end of the input ends the session as a
/// handler's stop would; a blank line prompts again; a registered command runs; any other
/// command is reported.
pub open spec fn dispatch(line: Seq<char>, names: Set<Seq<char>>) -> Step {
    if line.len() == 0 {
        Step::Next(Phase::Stopped, ActionView::Finish(Ok(())))
    } else if tokens(line).len() == 0 {
        Step::Next(Phase::Prompting, ActionView::Write(prompt()))
    } else if names.contains(command_of(line)) {
        Step::Run(command_of(line), args_of(line))
    } else {
        Step::Next(Phase::Reporting, ActionView::Write(unknown_command(command_of(line))))
    }
}

/// How a session goes on once a handler has returned `result`.
pub open spec fn after_handler(result: Result<CommandResult, std::io::Error>) -> (Phase, ActionView) {
    match result {
        Ok(CommandResult::Continue) => (Phase::Prompting, ActionView::Write(prompt())),
        Ok(CommandResult::Break) => (Phase::Stopped, ActionView::Finish(Ok(()))),
        Err(e) => (Phase::Stopped, ActionView::Finish(Err(e))),
    }
}

/// A handler as the registry holds it.
#[verifier::reject_recursive_types(W)]
pub struct Entry<W> {
    pub handler: Box<dyn CommandHandler<W>>,
}

/// What a line comes to in the registry.
#[verifier::reject_recursive_types(W)]
pub enum Lookup<'a, W> {
    /// The line holds no token.
    Blank,
    /// The line's command name, which is not registered.
    Unknown(&'a str),
    /// The handler registered under the line's command name, and the line's arguments.
    Found(&'a Box<dyn CommandHandler<W>>, Vec<&'a str>),
}

/// The registered handlers, by name.
#[verifier::reject_recursive_types(W)]
struct Registry<W> {
    map: StringHashMap<Entry<W>>,
}

impl<W> View for Registry<W> {
    type V = Map<Seq<char>, Entry<W>>;

    closed spec fn view(&self) -> Map<Seq<char>, Entry<W>> {
        self.map@
    }
}

/// The lookup of a line in the registry `commands`: the line's tokens, its command name's
/// handler, and its arguments.
pub open spec fn looked_up<W>(line: Seq<char>, commands: Map<Seq<char>, Entry<W>>, found: Lookup<
    '_,
    W,
>) -> bool {
    match found {
        Lookup::Blank => tokens(line).len() == 0,
        Lookup::Unknown(name) => {
            &&& tokens(line).len() > 0
            &&& name@ == command_of(line)
            &&& !commands.contains_key(command_of(line))
        },
        Lookup::Found(handler, args) => {
            &&& tokens(line).len() > 0
            &&& commands.contains_key(command_of(line))
            &&& *handler == commands[command_of(line)].handler
            &&& views(args@) == args_of(line)
        },
    }
}

impl<W> Registry<W> {
    /// Splits `line` into its command name and arguments, and looks the name up.
    fn lookup_line<'a>(&'a self, line: &'a str) -> (found: Lookup<'a, W>)
        ensures
            looked_up(line@, self@, found),
    {
        let (command, args) = tokenize(line);
        proof {
            lemma_tokens_are_words(line@);
            if tokens(line@).len() > 0 {
                assert(is_word(tokens(line@)[0]));
            }
        }
        if command.is_empty() {
            return Lookup::Blank;
        }
        match self.map.get(command) {
            Some(entry) => Lookup::Found(&entry.handler, args),
            None => Lookup::Unknown(command),
        }
    }
}

/// A command interpreter: a registry of named handlers, the input source it reads lines
/// from, the output sink it writes to, and the state of the running session.
///
/// The interpreter performs no I/O itself. [`Cmd::start`] and [`Cmd::resume`] say which
/// read, write or flush comes next, and the caller hands back what came of it; handlers
/// write to the output sink directly.
#[verifier::reject_recursive_types(W)]
pub struct Cmd<R, W> {
    handles: Registry<W>,
    stdin: R,
    stdout: W,
    phase: Phase,
}

impl<R, W> Cmd<R, W> {
    /// The registered handlers, by name.
    pub closed spec fn commands(&self) -> Map<Seq<char>, Entry<W>> {
        self.handles@
    }

    /// The state of the session.
    pub closed spec fn phase(&self) -> Phase {
        self.phase
    }

    /// The input source.
    pub closed spec fn input(&self) -> R {
        self.stdin
    }

    /// The output sink.
    pub closed spec fn output(&self) -> W {
        self.stdout
    }

    /// An interpreter with no commands and no session running.
    pub fn new(reader: R, writer: W) -> (c: Self)
        ensures
            c.commands() == Map::<Seq<char>, Entry<W>>::empty(),
            c.phase() == Phase::Stopped,
            c.input() == reader,
            c.output() == writer,
    {
        Cmd { handles: Registry { map: StringHashMap::new() }, stdin: reader, stdout: writer, phase: Phase::Stopped }
    }

    /// Registers `handler`, boxed, under `name`. A name that is taken keeps its handler: the
    /// new one is dropped, and the warning to write to the output sink is returned.
    #[must_use]
    pub fn add_cmd<H: CommandHandler<W> + 'static>(&mut self, name: String, handler: H) -> (notice:
        Option<String>)
        ensures
            final(self).commands().dom() == old(self).commands().dom().insert(name@),
            !old(self).commands().contains_key(name@) ==> final(self).commands()[name@].handler
                == ({
                let boxed: Box<dyn CommandHandler<W>> = Box::new(handler);
                boxed
            }),
            forall|other: Seq<char>|
                #![trigger final(self).commands()[other]]
                other != name@ && old(self).commands().contains_key(other)
                    ==> final(self).commands()[other] == old(self).commands()[other],
            old(self).commands().contains_key(name@) ==> final(self).commands() == old(
                self,
            ).commands(),
            match notice {
                Some(text) => old(self).commands().contains_key(name@) && text@
                    == duplicate_warning(name@),
                None => !old(self).commands().contains_key(name@),
            },
            final(self).phase() == old(self).phase(),
            final(self).input() == old(self).input(),
            final(self).output() == old(self).output(),
    {
        let boxed: Box<dyn CommandHandler<W>> = Box::new(handler);
        self.insert_entry(name, Entry { handler: boxed })
    }

    /// Inserts `entry` under `name` unless the name is taken; returns the warning for a
    /// taken name.
    fn insert_entry(&mut self, name: String, entry: Entry<W>) -> (notice: Option<String>)
        ensures
            final(self).commands() == registered(old(self).commands(), name@, entry),
            final(self).commands().dom() == old(self).commands().dom().insert(name@),
            !old(self).commands().contains_key(name@) ==> final(self).commands()[name@] == entry,
            forall|other: Seq<char>|
                #![trigger final(self).commands()[other]]
                other != name@ && old(self).commands().contains_key(other)
                    ==> final(self).commands()[other] == old(self).commands()[other],
            match notice {
                Some(text) => old(self).commands().contains_key(name@) && text@
                    == duplicate_warning(name@),
                None => !old(self).commands().contains_key(name@),
            },
            final(self).phase() == old(self).phase(),
            final(self).input() == old(self).input(),
            final(self).output() == old(self).output(),
    {
        if self.handles.map.contains_key(name.as_str()) {
            assert(self.commands().dom() =~= self.commands().dom().insert(name@));
            Some(duplicate_warning_text(name.as_str()))
        } else {
            self.handles.map.insert(name, entry);
            None
        }
    }

    /// Registers a closure as the handler for `name`, as [`Cmd::add_cmd`] does.
    #[must_use]
    pub fn add_cmd_fn<F>(&mut self, name: String, handler: F) -> (notice: Option<String>) where
        F: Fn(&mut W, &[&str]) -> Result<CommandResult, std::io::Error> + 'static,

        ensures
            final(self).commands().dom() == old(self).commands().dom().insert(name@),
            !old(self).commands().contains_key(name@) ==> final(self).commands()[name@].handler
                == ({
                let boxed: Box<dyn CommandHandler<W>> = Box::new(handler);
                boxed
            }),
            forall|other: Seq<char>|
                #![trigger final(self).commands()[other]]
                other != name@ && old(self).commands().contains_key(other)
                    ==> final(self).commands()[other] == old(self).commands()[other],
            old(self).commands().contains_key(name@) ==> final(self).commands() == old(
                self,
            ).commands(),
            match notice {
                Some(text) => old(self).commands().contains_key(name@) && text@
                    == duplicate_warning(name@),
                None => !old(self).commands().contains_key(name@),
            },
            final(self).phase() == old(self).phase(),
            final(self).input() == old(self).input(),
            final(self).output() == old(self).output(),
    {
        self.add_cmd(name, handler)
    }

    /// Splits `line` into its command name and arguments and looks the name up: the
    /// handler that a session runs for this line, and the arguments it hands it.
    pub fn lookup_line<'a>(&'a self, line: &'a str) -> (found: Lookup<'a, W>)
        ensures
            looked_up(line@, self.commands(), found),
    {
        self.handles.lookup_line(line)
    }

    /// The handler registered under `key`, if any.
    pub fn get_cmd(&self, key: String) -> (found: Option<&Box<dyn CommandHandler<W>>>)
        ensures
            match found {
                Some(handler) => self.commands().contains_key(key@) && *handler
                    == self.commands()[key@].handler,
                None => !self.commands().contains_key(key@),
            },
    {
        match self.handles.map.get(key.as_str()) {
            Some(entry) => Some(&entry.handler),
            None => None,
        }
    }

    /// The input source, to read the line that [`Action::ReadLine`] asks for.
    pub fn reader_mut(&mut self) -> (reader: &mut R)
        ensures
            *reader == old(self).input(),
            final(self).input() == *final(reader),
            final(self).commands() == old(self).commands(),
            final(self).phase() == old(self).phase(),
            final(self).output() == old(self).output(),
    {
        &mut self.stdin
    }

    /// The output sink, to perform the writes and flushes that the session asks for.
    pub fn writer_mut(&mut self) -> (writer: &mut W)
        ensures
            *writer == old(self).output(),
            final(self).output() == *final(writer),
            final(self).commands() == old(self).commands(),
            final(self).phase() == old(self).phase(),
            final(self).input() == old(self).input(),
    {
        &mut self.stdout
    }

    /// The output sink.
    pub fn writer(&self) -> (writer: &W)
        ensures
            *writer == self.output(),
    {
        &self.stdout
    }

    /// Starts a session: the first action writes the prompt.
    pub fn start(&mut self) -> (action: Action)
        ensures
            final(self).phase() == Phase::Prompting,
            action@ == ActionView::Write(prompt()),
            final(self).commands() == old(self).commands(),
            final(self).input() == old(self).input(),
            final(self).output() == old(self).output(),
    {
        self.phase = Phase::Prompting;
        Action::Write(prompt_text())
    }

    /// Hands the session what came of its last action, and returns the next one, as
    /// [`react`] says. When a line names a registered command, its handler runs here on
    /// the output sink, and what it returns decides, as [`after_handler`] says.
    ///
    /// An event is taken as the answer to the last action: [`Event::Done`] where a line was
    /// awaited counts as the end of the input, and a line where a write or flush was awaited
    /// counts as its success.
    pub fn resume(&mut self, event: Event) -> (action: Action)
        ensures
            final(self).commands() == old(self).commands(),
            final(self).input() == old(self).input(),
            match react(old(self).phase(), event@, old(self).commands().dom()) {
                Step::Next(phase, next) => {
                    &&& final(self).phase() == phase
                    &&& action@ == next
                    &&& final(self).output() == old(self).output()
                },
                Step::Run(_, _) => exists|result: Result<CommandResult, std::io::Error>|
                    after_handler(result) == (final(self).phase(), action@),
            },
    {
        match event {
            Event::Failed(e) => {
                self.phase = Phase::Stopped;
                Action::Finish(Err(e))
            },
            Event::Done => self.proceed(String::new()),
            Event::Line(line) => self.proceed(line),
        }
    }

    /// Goes on after a successful action; `line` is what a read returned.
    fn proceed(&mut self, line: String) -> (action: Action)
        ensures
            final(self).commands() == old(self).commands(),
            final(self).input() == old(self).input(),
            match proceed(old(self).phase(), line@, old(self).commands().dom()) {
                Step::Next(phase, next) => {
                    &&& final(self).phase() == phase
                    &&& action@ == next
                    &&& final(self).output() == old(self).output()
                },
                Step::Run(_, _) => exists|result: Result<CommandResult, std::io::Error>|
                    after_handler(result) == (final(self).phase(), action@),
            },
    {
        match self.phase {
            Phase::Prompting => {
                self.phase = Phase::Flushing;
                Action::Flush
            },
            Phase::Flushing => {
                self.phase = Phase::Reading;
                Action::ReadLine
            },
            Phase::Reading => self.dispatch_line(line.as_str()),
            Phase::Reporting => {
                self.phase = Phase::Prompting;
                Action::Write(prompt_text())
            },
            Phase::Stopped => Action::Finish(Ok(())),
        }
    }

    /// Acts on a line read from the input, as [`dispatch`] says.
    fn dispatch_line(&mut self, line: &str) -> (action: Action)
        ensures
            final(self).commands() == old(self).commands(),
            final(self).input() == old(self).input(),
            match dispatch(line@, old(self).commands().dom()) {
                Step::Next(phase, next) => {
                    &&& final(self).phase() == phase
                    &&& action@ == next
                    &&& final(self).output() == old(self).output()
                },
                Step::Run(_, _) => exists|result: Result<CommandResult, std::io::Error>|
                    after_handler(result) == (final(self).phase(), action@),
            },
    {
        if line.is_empty() {
            self.phase = Phase::Stopped;
            return Action::Finish(Ok(()));
        }
        match self.handles.lookup_line(line) {
            Lookup::Blank => {
                self.phase = Phase::Prompting;
                Action::Write(prompt_text())
            },
            Lookup::Unknown(command) => {
                self.phase = Phase::Reporting;
                Action::Write(unknown_command_text(command))
            },
            Lookup::Found(handler, args) => {
                let result = handler.execute(&mut self.stdout, args.as_slice());
                self.handler_returned(result)
            },
        }
    }

    /// Goes on once a handler has returned `result`, as [`after_handler`] says: the session
    /// prompts again, or ends with the handler's stop or with its error.
    pub fn handler_returned(&mut self, result: Result<CommandResult, std::io::Error>) -> (action:
        Action)
        ensures
            (final(self).phase(), action@) == after_handler(result),
            final(self).commands() == old(self).commands(),
            final(self).input() == old(self).input(),
            final(self).output() == old(self).output(),
    {
        match result {
            Ok(CommandResult::Continue) => {
                self.phase = Phase::Prompting;
                Action::Write(prompt_text())
            },
            Ok(CommandResult::Break) => {
                self.phase = Phase::Stopped;
                Action::Finish(Ok(()))
            },
            Err(e) => {
                self.phase = Phase::Stopped;
                Action::Finish(Err(e))
            },
        }
    }
}

/// The prompt, as a string.
fn prompt_text() -> (text: String)
    ensures
        text@ == prompt(),
{
    String::from_str("(cmd) ")
}

/// The duplicate-name warning for `name`, as a string.
fn duplicate_warning_text(name: &str) -> (text: String)
    ensures
        text@ == duplicate_warning(name@),
{
    let mut text = String::from_str("Warning: Command with handle ");
    text.append(name);
    text.append(" already exists.");
    text
}

/// The unknown-command diagnostic for `name`, as a string.
fn unknown_command_text(name: &str) -> (text: String)
    ensures
        text@ == unknown_command(name@),
{
    let mut text = String::from_str("No command ");
    text.append(name);
    text.append("\n");
    text
}

} // verus!

verus! {

/// Registering a name that is taken leaves the first handler in place. `m1` and `m2` are
/// the registries after `first` and then `second` were offered under `name`, as
/// [`Cmd::add_cmd`] states it; when the name was free in `m0`, it maps to `first` in the end.
pub proof fn lemma_duplicate_keeps_first<W>(
    m0: Map<Seq<char>, Entry<W>>,
    m1: Map<Seq<char>, Entry<W>>,
    m2: Map<Seq<char>, Entry<W>>,
    name: Seq<char>,
    first: Box<dyn CommandHandler<W>>,
)
    requires
        !m0.contains_key(name),
        m1.dom() == m0.dom().insert(name),
        m1[name].handler == first,
        m2.dom() == m1.dom().insert(name),
        m1.contains_key(name) ==> m2 == m1,
    ensures
        m2 == m1,
        m2.contains_key(name),
        m2[name].handler == first,
{
    assert(m1.contains_key(name));
}

/// A name registered once is found: a lookup of it returns the handler that was registered.
/// `m1` is the registry after `handler` was offered under `name`, free in `m0`, as
/// [`Cmd::add_cmd`] states it, and `found` is what [`Cmd::get_cmd`] returns for the name.
pub proof fn lemma_registered_is_found<W>(
    m0: Map<Seq<char>, Entry<W>>,
    m1: Map<Seq<char>, Entry<W>>,
    name: Seq<char>,
    handler: Box<dyn CommandHandler<W>>,
    found: Option<Box<dyn CommandHandler<W>>>,
)
    requires
        !m0.contains_key(name),
        m1.dom() == m0.dom().insert(name),
        m1[name].handler == handler,
        match found {
            Some(h) => m1.contains_key(name) && h == m1[name].handler,
            None => !m1.contains_key(name),
        },
    ensures
        found == Some(handler),
{
    assert(m1.contains_key(name));
}

/// A session whose first read fails ends with that very error, and writes nothing but the
/// prompt: after the prompt that [`Cmd::start`] asks for, it flushes, then reads, and the
/// failed read finishes it.
pub proof fn lemma_first_read_failure(names: Set<Seq<char>>, error: std::io::Error)
    ensures
        react(Phase::Prompting, EventView::Done, names) == Step::Next(
            Phase::Flushing,
            ActionView::Flush,
        ),
        react(Phase::Flushing, EventView::Done, names) == Step::Next(
            Phase::Reading,
            ActionView::ReadLine,
        ),
        react(Phase::Reading, EventView::Failed(error), names) == Step::Next(
            Phase::Stopped,
            ActionView::Finish(Err(error)),
        ),
{
}

/// A failed write or flush ends the session with that very error, whether it wrote the
/// prompt, a diagnostic or a handler's output; and an ended session asks for no more I/O.
pub proof fn lemma_write_failure_ends_session(
    phase: Phase,
    names: Set<Seq<char>>,
    error: std::io::Error,
    event: EventView,
)
    ensures
        react(phase, EventView::Failed(error), names) == Step::Next(
            Phase::Stopped,
            ActionView::Finish(Err(error)),
        ),
        after_handler(Err(error)) == (Phase::Stopped, ActionView::Finish(Err(error))),
        !(event is Failed) ==> react(Phase::Stopped, event, names) == Step::Next(
            Phase::Stopped,
            ActionView::Finish(Ok(())),
        ),
{
}

} // verus!
