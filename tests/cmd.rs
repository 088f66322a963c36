use std::io::{self, BufRead, BufReader, Write};

use rusty_cmd::cmd::{Action, Cmd, Event, Lookup};
use rusty_cmd::command_handler::{CommandHandler, CommandResult};
use rusty_cmd::handlers::Quit;

/// Performs the actions that the session asks for, until it finishes.
fn run<R: BufRead, W: Write>(cmd: &mut Cmd<R, W>) -> io::Result<()> {
    let mut action = cmd.start();
    loop {
        let event = match action {
            Action::Write(text) => match cmd.writer_mut().write_all(text.as_bytes()) {
                Ok(()) => Event::Done,
                Err(e) => Event::Failed(e),
            },
            Action::Flush => match cmd.writer_mut().flush() {
                Ok(()) => Event::Done,
                Err(e) => Event::Failed(e),
            },
            Action::ReadLine => {
                let mut line = String::new();
                match cmd.reader_mut().read_line(&mut line) {
                    Ok(_) => Event::Line(line),
                    Err(e) => Event::Failed(e),
                }
            }
            Action::Finish(outcome) => return outcome,
        };
        action = cmd.resume(event);
    }
}

/// Registers a handler and writes the warning for a taken name to the output sink.
fn register<R, W: Write, H: CommandHandler<W> + 'static>(
    cmd: &mut Cmd<R, W>,
    name: &str,
    handler: H,
) -> io::Result<()> {
    match cmd.add_cmd(name.to_string(), handler) {
        Some(warning) => cmd.writer_mut().write_all(warning.as_bytes()),
        None => Ok(()),
    }
}

#[derive(Default)]
pub struct Greeting {}

impl<W: io::Write> CommandHandler<W> for Greeting {
    fn execute(&self, stdout: &mut W, _args: &[&str]) -> Result<CommandResult, io::Error> {
        stdout.write_all(b"Hello there!")?;
        Ok(CommandResult::Continue)
    }
}

pub struct Farewell {}

impl<W: io::Write> CommandHandler<W> for Farewell {
    fn execute(&self, stdout: &mut W, _args: &[&str]) -> Result<CommandResult, io::Error> {
        stdout.write_all(b"Goodbye!")?;
        Ok(CommandResult::Continue)
    }
}

// Mock object for stdin that always errs on stdin.read()
struct StdinAlwaysErr;

impl io::Read for StdinAlwaysErr {
    fn read(&mut self, _: &mut [u8]) -> Result<usize, std::io::Error> {
        Err(io::Error::new(io::ErrorKind::Other, "failed on read"))
    }
}

// Mock object for stdout that always errs on stdout.write()
struct StdoutWriteErr;

impl io::Write for StdoutWriteErr {
    fn write(&mut self, _: &[u8]) -> Result<usize, std::io::Error> {
        Err(io::Error::new(io::ErrorKind::Other, "failed on write"))
    }
    fn flush(&mut self) -> Result<(), std::io::Error> {
        Ok(())
    }
}

// Mock object for stdout that always errs on stdout.flush()
struct StdoutFlushErr;

impl io::Write for StdoutFlushErr {
    fn write(&mut self, _: &[u8]) -> Result<usize, std::io::Error> {
        Ok(1)
    }
    fn flush(&mut self) -> Result<(), std::io::Error> {
        Err(io::Error::new(io::ErrorKind::Other, "failed on flush"))
    }
}

// Records what is written, and fails every write once `limit` bytes have gone through.
struct StdoutFailsAfter {
    written: Vec<u8>,
    limit: usize,
}

impl io::Write for StdoutFailsAfter {
    fn write(&mut self, buf: &[u8]) -> Result<usize, std::io::Error> {
        if self.written.len() + buf.len() > self.limit {
            return Err(io::Error::new(io::ErrorKind::Other, "sink is full"));
        }
        self.written.extend_from_slice(buf);
        Ok(buf.len())
    }
    fn flush(&mut self) -> Result<(), std::io::Error> {
        Ok(())
    }
}

fn setup(input: &'static [u8]) -> Cmd<&'static [u8], Vec<u8>> {
    let stdout: Vec<u8> = Vec::new();
    let mut app = Cmd::new(input, stdout);
    register(&mut app, "greet", Greeting::default()).unwrap();
    register(&mut app, "quit", Quit::default()).unwrap();
    app
}

#[test]
fn cmd_test_add_cmd() {
    let app = setup(b"");
    let mut stdout = vec![];

    // Verify that the key-value pair exists in the HashMap
    let h = app.get_cmd(String::from("greet"));
    assert!(h.is_some());

    // Verify right handler was added to hashmap
    h.unwrap().execute(&mut stdout, &[]).unwrap();
    assert_eq!(String::from_utf8(stdout).unwrap(), "Hello there!");
}

#[test]
fn test_add_existing_cmd() {
    let mut app = setup(b"");

    // Verify message is printed out when a handle with existing name is added
    register(&mut app, "greet", Greeting {}).unwrap();

    let mut std_out_lines = app.writer().lines();
    let line1 = std_out_lines.next().unwrap().unwrap();

    assert_eq!(line1, "Warning: Command with handle greet already exists.");
}

#[test]
fn cmd_test_add_cmd_always_error() {
    let stdin: &[u8] = b"greet\nquit\n";
    let stdout = StdoutWriteErr;
    let mut app = Cmd::new(stdin, stdout);

    // add same command twice, which will cause the self.stdout.write() path to output error
    let _ok = register(&mut app, "greet", Greeting {}).unwrap();
    let e = register(&mut app, "greet", Greeting {}).unwrap_err();

    assert_eq!(e.to_string(), "failed on write");
    assert_eq!(e.kind(), io::ErrorKind::Other);
}

#[test]
fn add_cmd_returns_the_warning_for_a_taken_name() {
    let mut app = setup(b"");
    assert!(app.add_cmd("hello".to_string(), Greeting {}).is_none());
    let warning = app.add_cmd("hello".to_string(), Farewell {});
    assert_eq!(warning.as_deref(), Some("Warning: Command with handle hello already exists."));
    assert!(app.writer().is_empty());
}

#[test]
fn duplicate_registration_keeps_the_first_handler() {
    let mut app = setup(b"");
    let warning = app.add_cmd("greet".to_string(), Farewell {});
    assert!(warning.is_some());
    let mut out: Vec<u8> = Vec::new();
    let result = app.get_cmd("greet".to_string()).unwrap().execute(&mut out, &[]);
    assert!(matches!(result, Ok(CommandResult::Continue)));
    assert_eq!(out, b"Hello there!".to_vec());
}

#[test]
fn registered_handler_is_the_one_found() {
    let mut app = Cmd::new(&b""[..], Vec::<u8>::new());
    assert!(app.get_cmd("bye".to_string()).is_none());
    assert!(app.add_cmd("bye".to_string(), Farewell {}).is_none());
    let mut out: Vec<u8> = Vec::new();
    app.get_cmd("bye".to_string()).unwrap().execute(&mut out, &["x"]).unwrap();
    assert_eq!(out, b"Goodbye!".to_vec());
    assert!(app.get_cmd("Bye".to_string()).is_none());
    assert!(app.get_cmd("by".to_string()).is_none());
}

#[test]
fn add_cmd_fn_registers_a_closure() {
    let mut app = Cmd::new(&b"echo a  b\nquit\n"[..], Vec::<u8>::new());
    let added = app.add_cmd_fn("echo".to_string(), |out: &mut Vec<u8>, args: &[&str]| {
        out.extend_from_slice(args.join("|").as_bytes());
        Ok(CommandResult::Continue)
    });
    assert!(added.is_none());
    assert!(app.add_cmd("quit".to_string(), Quit {}).is_none());
    let taken = app.add_cmd_fn("echo".to_string(), |_: &mut Vec<u8>, _: &[&str]| {
        Ok(CommandResult::Break)
    });
    assert_eq!(taken.as_deref(), Some("Warning: Command with handle echo already exists."));
    run(&mut app).unwrap();
    assert_eq!(String::from_utf8(app.writer().clone()).unwrap(), "(cmd) a|b(cmd) ");
}

#[test]
fn cmd_test_run() {
    let mut app = setup(b"greet\n\nnon\nquit\n");

    run(&mut app).unwrap();

    let line1 = String::from_utf8(app.writer().clone()).unwrap();

    assert_eq!(line1, "(cmd) Hello there!(cmd) (cmd) No command non\n(cmd) ");
}

#[test]
fn dispatch_loop_greet_bogus_quit() {
    let mut app = setup(b"greet\nbogus\nquit");
    let outcome = run(&mut app);
    assert!(outcome.is_ok());
    assert_eq!(
        String::from_utf8(app.writer().clone()).unwrap(),
        "(cmd) Hello there!(cmd) No command bogus\n(cmd) "
    );
}

#[test]
fn dispatch_loop_passes_arguments_and_ignores_blank_lines() {
    let mut app = Cmd::new(&b"  \n\t\nsay  one\ttwo \nquit now\nsay never\n"[..], Vec::<u8>::new());
    let added = app.add_cmd_fn("say".to_string(), |out: &mut Vec<u8>, args: &[&str]| {
        out.extend_from_slice(format!("{}:{};", args.len(), args.join(",")).as_bytes());
        Ok(CommandResult::Continue)
    });
    assert!(added.is_none());
    assert!(app.add_cmd("quit".to_string(), Quit {}).is_none());
    run(&mut app).unwrap();
    assert_eq!(
        String::from_utf8(app.writer().clone()).unwrap(),
        "(cmd) (cmd) (cmd) 2:one,two;(cmd) "
    );
}

#[test]
fn dispatch_loop_is_case_sensitive() {
    let mut app = setup(b"Greet\nquit\n");
    run(&mut app).unwrap();
    assert_eq!(
        String::from_utf8(app.writer().clone()).unwrap(),
        "(cmd) No command Greet\n(cmd) "
    );
}

#[test]
fn end_of_input_ends_the_session() {
    let mut app = setup(b"greet\n");
    assert!(run(&mut app).is_ok());
    assert_eq!(String::from_utf8(app.writer().clone()).unwrap(), "(cmd) Hello there!(cmd) ");

    let mut empty = setup(b"");
    assert!(run(&mut empty).is_ok());
    assert_eq!(String::from_utf8(empty.writer().clone()).unwrap(), "(cmd) ");
}

#[test]
fn cmd_test_run_stdout_write_err() {
    let stdin: &[u8] = b"greet\nquit\n";
    let stdout = StdoutWriteErr;
    let mut app = Cmd::new(stdin, stdout);

    app.writer_mut().flush().unwrap(); // this line is here to ensure all statements are run during testing

    let e = run(&mut app).unwrap_err();

    assert_eq!(e.kind(), io::ErrorKind::Other);
    assert_eq!(e.to_string(), "failed on write");
}

#[test]
fn cmd_test_run_stdout_flush_err() {
    let stdin: &[u8] = b"greet\nquit\n";
    let stdout = StdoutFlushErr;
    let mut app = Cmd::new(stdin, stdout);

    let e = run(&mut app).unwrap_err();

    assert_eq!(e.kind(), io::ErrorKind::Other);
    assert_eq!(e.to_string(), "failed on flush");
}

#[test]
fn cmd_test_run_stdin_read_err() {
    let stdin = BufReader::new(StdinAlwaysErr);
    let stdout = io::stdout();
    let mut app = Cmd::new(stdin, stdout);

    let e = run(&mut app).unwrap_err();

    assert_eq!(e.kind(), io::ErrorKind::Other);
    assert_eq!(e.to_string(), "failed on read");
}

#[test]
fn read_failure_writes_nothing_beyond_the_prompt() {
    let mut app = Cmd::new(BufReader::new(StdinAlwaysErr), Vec::<u8>::new());
    assert!(app.add_cmd("greet".to_string(), Greeting {}).is_none());
    let e = run(&mut app).unwrap_err();
    assert_eq!(e.to_string(), "failed on read");
    assert_eq!(app.writer().clone(), b"(cmd) ".to_vec());
}

#[test]
fn diagnostic_write_failure_ends_the_session() {
    // The prompt fits; the diagnostic does not.
    let sink = StdoutFailsAfter { written: Vec::new(), limit: 8 };
    let mut app = Cmd::new(&b"bogus\ngreet\n"[..], sink);
    assert!(app.add_cmd("greet".to_string(), Greeting {}).is_none());
    let e = run(&mut app).unwrap_err();
    assert_eq!(e.to_string(), "sink is full");
    assert_eq!(app.writer().written, b"(cmd) ".to_vec());
}

#[test]
fn handler_write_failure_ends_the_session() {
    // The prompt fits; the greeting does not.
    let sink = StdoutFailsAfter { written: Vec::new(), limit: 10 };
    let mut app = Cmd::new(&b"greet\nquit\n"[..], sink);
    assert!(app.add_cmd("greet".to_string(), Greeting {}).is_none());
    assert!(app.add_cmd("quit".to_string(), Quit {}).is_none());
    let e = run(&mut app).unwrap_err();
    assert_eq!(e.to_string(), "sink is full");
    assert_eq!(app.writer().written, b"(cmd) ".to_vec());
}

#[test]
fn session_steps_one_action_at_a_time() {
    let mut app = setup(b"");
    assert!(matches!(app.start(), Action::Write(ref t) if t == "(cmd) "));
    assert!(matches!(app.resume(Event::Done), Action::Flush));
    assert!(matches!(app.resume(Event::Done), Action::ReadLine));
    assert!(matches!(app.resume(Event::Line("nope 1\n".to_string())), Action::Write(ref t) if t == "No command nope\n"));
    assert!(matches!(app.resume(Event::Done), Action::Write(ref t) if t == "(cmd) "));
    assert!(matches!(app.resume(Event::Done), Action::Flush));
    assert!(matches!(app.resume(Event::Done), Action::ReadLine));
    assert!(matches!(app.resume(Event::Line("\n".to_string())), Action::Write(ref t) if t == "(cmd) "));
    assert!(matches!(app.resume(Event::Done), Action::Flush));
    assert!(matches!(app.resume(Event::Done), Action::ReadLine));
    assert!(matches!(app.resume(Event::Line("greet\n".to_string())), Action::Write(ref t) if t == "(cmd) "));
    assert_eq!(app.writer().clone(), b"Hello there!".to_vec());
    assert!(matches!(app.resume(Event::Done), Action::Flush));
    assert!(matches!(app.resume(Event::Done), Action::ReadLine));
    assert!(matches!(app.resume(Event::Line("quit".to_string())), Action::Finish(Ok(()))));
    assert!(matches!(app.resume(Event::Done), Action::Finish(Ok(()))));
}

#[test]
fn failure_event_is_handed_back_unchanged() {
    let mut app = setup(b"");
    let _ = app.start();
    let action = app.resume(Event::Failed(io::Error::new(io::ErrorKind::BrokenPipe, "pipe gone")));
    match action {
        Action::Finish(Err(e)) => {
            assert_eq!(e.kind(), io::ErrorKind::BrokenPipe);
            assert_eq!(e.to_string(), "pipe gone");
        }
        other => panic!("unexpected action {:?}", other),
    }
}

#[test]
fn handler_returned_decides_what_follows() {
    let mut app = setup(b"");
    assert!(matches!(app.handler_returned(Ok(CommandResult::Continue)), Action::Write(ref t) if t == "(cmd) "));
    assert!(matches!(app.handler_returned(Ok(CommandResult::Break)), Action::Finish(Ok(()))));
    match app.handler_returned(Err(io::Error::new(io::ErrorKind::Other, "handler failed"))) {
        Action::Finish(Err(e)) => assert_eq!(e.to_string(), "handler failed"),
        other => panic!("unexpected action {:?}", other),
    }
}

#[test]
fn new_interpreter_has_no_commands_and_no_session() {
    let mut app = Cmd::new(&b""[..], Vec::<u8>::new());
    assert!(app.get_cmd("quit".to_string()).is_none());
    assert!(matches!(app.resume(Event::Done), Action::Finish(Ok(()))));
}

#[test]
fn lookup_line_finds_the_handler_and_the_arguments() {
    let app = setup(b"");
    assert!(matches!(app.lookup_line("  \t\n"), Lookup::Blank));
    assert!(matches!(app.lookup_line(""), Lookup::Blank));
    match app.lookup_line(" bogus  x ") {
        Lookup::Unknown(name) => assert_eq!(name, "bogus"),
        _ => panic!("expected an unknown command"),
    }
    match app.lookup_line("greet  to\tyou\n") {
        Lookup::Found(handler, args) => {
            assert_eq!(args, vec!["to", "you"]);
            let mut out: Vec<u8> = Vec::new();
            assert!(matches!(handler.execute(&mut out, &args), Ok(CommandResult::Continue)));
            assert_eq!(out, b"Hello there!".to_vec());
        }
        _ => panic!("expected the greet handler"),
    }
}
