use shell_sessions::command::CommandLine;
use shell_sessions::error::Failure;
use shell_sessions::event::{Event, Item, Kind};
use shell_sessions::render::Output;
use shell_sessions::rewriter::{Pull, Rewriter};
use shell_sessions::session::Session;

fn start(at: usize, info: &str) -> Event {
    Event { at, kind: Kind::BlockStart(String::from(info)) }
}

fn text(at: usize, text: &str) -> Event {
    Event { at, kind: Kind::Text(String::from(text)) }
}

fn end(at: usize) -> Event {
    Event { at, kind: Kind::BlockEnd }
}

fn other(at: usize) -> Event {
    Event { at, kind: Kind::Other }
}

fn wrote(stdout: &str, stderr: &str) -> Output {
    Output { stdout: stdout.as_bytes().to_vec(), stderr: stderr.as_bytes().to_vec() }
}

fn run(slot: usize, text: &str, silent: bool) -> Pull {
    Pull::Run { slot, command: CommandLine { text: String::from(text), silent } }
}

fn open(slot: usize, name: &str) -> Pull {
    Pull::Open(Session { slot, name: String::from(name) })
}

fn transcript(markup: &str) -> Pull {
    Pull::Yield(Item::Transcript(String::from(markup)))
}

/// A stand-in for the shell: one file `f.txt` per working directory.
struct Shell {
    files: Vec<Option<String>>,
}

impl Shell {
    fn execute(&mut self, slot: usize, command: &str) -> Output {
        match command.trim() {
            "echo hi > f.txt" => {
                self.files[slot] = Some(String::from("hi\n"));
                wrote("", "")
            }
            "cat f.txt" => match &self.files[slot] {
                Some(content) => wrote(content, ""),
                None => wrote("", "cat: f.txt: No such file or directory\n"),
            },
            "echo ok" => wrote("ok\n", ""),
            "echo visible" => wrote("visible\n", ""),
            _ => wrote("", ""),
        }
    }
}

fn rewrite_all(events: Vec<Event>) -> (Vec<Item>, Vec<(usize, String)>) {
    let mut rewriter = Rewriter::new(events);
    let mut shell = Shell { files: Vec::new() };
    let mut items = Vec::new();
    let mut ran = Vec::new();
    loop {
        match rewriter.next().unwrap() {
            Pull::Yield(item) => items.push(item),
            Pull::Open(session) => {
                assert_eq!(session.slot, shell.files.len());
                shell.files.push(None);
            }
            Pull::Run { slot, command } => {
                let output = if command.silent {
                    shell.execute(slot, &command.text);
                    wrote("", "")
                } else {
                    shell.execute(slot, &command.text)
                };
                ran.push((slot, command.text));
                rewriter.supply(output).unwrap();
            }
            Pull::End => break,
        }
    }
    (items, ran)
}

#[test]
fn silent_line_runs_but_is_not_shown() {
    let events = vec![start(0, "bash,demo"), text(1, "$ echo ok\necho visible"), end(2)];
    let (items, ran) = rewrite_all(events);
    assert_eq!(
        items,
        vec![Item::Transcript(String::from(
            "\n<pre><code>$ echo visible\nvisible\n\n</code></pre>"
        ))]
    );
    assert_eq!(ran, vec![(0, String::from(" echo ok")), (0, String::from("echo visible"))]);
}

#[test]
fn pulls_of_one_block_come_in_order() {
    let events = vec![
        other(0),
        start(1, "bash,demo"),
        text(2, "$ echo ok\n"),
        text(3, "echo visible\n"),
        end(4),
        other(5),
    ];
    let mut rewriter = Rewriter::new(events);
    assert_eq!(rewriter.next(), Ok(Pull::Yield(Item::Passed(other(0)))));
    assert_eq!(rewriter.next(), Ok(open(0, "demo")));
    assert_eq!(rewriter.next(), Ok(run(0, " echo ok", true)));
    assert_eq!(rewriter.supply(wrote("ok\n", "")), Ok(()));
    assert_eq!(rewriter.next(), Ok(run(0, "echo visible", false)));
    assert_eq!(rewriter.supply(wrote("visible\n", "")), Ok(()));
    assert_eq!(
        rewriter.next(),
        Ok(transcript("\n<pre><code>$ echo visible\nvisible\n\n</code></pre>"))
    );
    assert_eq!(rewriter.next(), Ok(Pull::Yield(Item::Passed(other(5)))));
    assert_eq!(rewriter.next(), Ok(Pull::End));
    assert_eq!(rewriter.next(), Ok(Pull::End));
}

#[test]
fn blocks_of_one_session_share_their_directory() {
    let events = vec![
        start(0, "bash,one"),
        text(1, "echo hi > f.txt\n"),
        end(2),
        other(3),
        start(4, "bash,one"),
        text(5, "cat f.txt\n"),
        end(6),
    ];
    let (items, ran) = rewrite_all(events);
    assert_eq!(
        items,
        vec![
            Item::Transcript(String::from("\n<pre><code>$ echo hi > f.txt\n</code></pre>")),
            Item::Passed(other(3)),
            Item::Transcript(String::from("\n<pre><code>$ cat f.txt\nhi\n\n</code></pre>")),
        ]
    );
    assert_eq!(ran, vec![(0, String::from("echo hi > f.txt")), (0, String::from("cat f.txt"))]);
}

#[test]
fn blocks_of_different_sessions_share_nothing() {
    let events = vec![
        start(0, "bash,one"),
        text(1, "echo hi > f.txt\n"),
        end(2),
        start(3, "bash,two"),
        text(4, "cat f.txt\n"),
        end(5),
    ];
    let (items, ran) = rewrite_all(events);
    assert_eq!(
        items,
        vec![
            Item::Transcript(String::from("\n<pre><code>$ echo hi > f.txt\n</code></pre>")),
            Item::Transcript(String::from(
                "\n<pre><code>$ cat f.txt\ncat: f.txt: No such file or directory\n\n</code></pre>"
            )),
        ]
    );
    assert_eq!(ran, vec![(0, String::from("echo hi > f.txt")), (1, String::from("cat f.txt"))]);
}

#[test]
fn session_is_opened_once() {
    let events = vec![
        start(0, "bash,a"),
        end(1),
        start(2, "bash,b"),
        end(3),
        start(4, "bash,a"),
        text(5, "pwd\n"),
        end(6),
    ];
    let empty = "\n<pre><code></code></pre>";
    let mut rewriter = Rewriter::new(events);
    assert_eq!(rewriter.next(), Ok(open(0, "a")));
    assert_eq!(rewriter.next(), Ok(transcript(empty)));
    assert_eq!(rewriter.next(), Ok(open(1, "b")));
    assert_eq!(rewriter.next(), Ok(transcript(empty)));
    assert_eq!(rewriter.next(), Ok(run(0, "pwd", false)));
    assert_eq!(rewriter.supply(wrote("/tmp/a\n", "")), Ok(()));
    assert_eq!(rewriter.next(), Ok(transcript("\n<pre><code>$ pwd\n/tmp/a\n\n</code></pre>")));
    assert_eq!(rewriter.next(), Ok(Pull::End));
}

#[test]
fn stream_without_examples_passes_unchanged() {
    let events = vec![
        other(0),
        text(1, "Title"),
        other(2),
        start(3, "rust"),
        text(4, "fn main() {}\n"),
        end(5),
        start(6, "bash"),
        text(7, "$ ls\n"),
        end(8),
        end(9),
        text(10, "$ not a command"),
    ];
    let expected: Vec<Item> = events.iter().map(|event| Item::Passed(event.clone())).collect();
    let (items, ran) = rewrite_all(events);
    assert_eq!(items, expected);
    assert_eq!(ran, Vec::new());
}

#[test]
fn empty_stream_ends_at_once() {
    let mut rewriter = Rewriter::new(Vec::new());
    assert_eq!(rewriter.next(), Ok(Pull::End));
}

#[test]
fn example_events_are_replaced_by_one_transcript() {
    let events = vec![
        other(0),
        start(1, "bash,s"),
        text(2, "true\n"),
        end(3),
        other(4),
        start(5, "bash,s"),
        text(6, "true\n"),
        text(7, "true\n"),
        end(8),
        other(9),
    ];
    let (items, _) = rewrite_all(events);
    assert_eq!(
        items,
        vec![
            Item::Passed(other(0)),
            Item::Transcript(String::from("\n<pre><code>$ true\n</code></pre>")),
            Item::Passed(other(4)),
            Item::Transcript(String::from("\n<pre><code>$ true\n$ true\n</code></pre>")),
            Item::Passed(other(9)),
        ]
    );
}

#[test]
fn other_events_inside_a_block_pass() {
    let events = vec![start(0, "bash,s"), text(1, "echo visible\n"), other(2), end(3)];
    let (items, _) = rewrite_all(events);
    assert_eq!(
        items,
        vec![
            Item::Passed(other(2)),
            Item::Transcript(String::from(
                "\n<pre><code>$ echo visible\nvisible\n\n</code></pre>"
            )),
        ]
    );
}

#[test]
fn block_with_empty_body_gives_empty_transcript() {
    let mut rewriter = Rewriter::new(vec![start(0, "bash,s"), end(1)]);
    assert_eq!(rewriter.next(), Ok(open(0, "s")));
    assert_eq!(rewriter.next(), Ok(transcript("\n<pre><code></code></pre>")));
    assert_eq!(rewriter.next(), Ok(Pull::End));
}

#[test]
fn block_of_empty_lines_gives_empty_transcript() {
    let mut rewriter = Rewriter::new(vec![start(0, "bash,s"), text(1, "\n\n"), end(2)]);
    assert_eq!(rewriter.next(), Ok(open(0, "s")));
    assert_eq!(rewriter.next(), Ok(transcript("\n<pre><code></code></pre>")));
}

#[test]
fn block_of_silent_lines_gives_empty_transcript() {
    let mut rewriter = Rewriter::new(vec![start(0, "bash,s"), text(1, "$ make\n"), end(2)]);
    assert_eq!(rewriter.next(), Ok(open(0, "s")));
    assert_eq!(rewriter.next(), Ok(run(0, " make", true)));
    assert_eq!(rewriter.supply(wrote("compiling\n", "warning\n")), Ok(()));
    assert_eq!(rewriter.next(), Ok(transcript("\n<pre><code></code></pre>")));
}

#[test]
fn silent_output_is_not_even_decoded() {
    let mut rewriter = Rewriter::new(vec![start(0, "bash,s"), text(1, "$ cat blob\n"), end(2)]);
    assert_eq!(rewriter.next(), Ok(open(0, "s")));
    assert_eq!(rewriter.next(), Ok(run(0, " cat blob", true)));
    assert_eq!(rewriter.supply(Output { stdout: vec![0xff, 0xfe], stderr: vec![0x1b] }), Ok(()));
    assert_eq!(rewriter.next(), Ok(transcript("\n<pre><code></code></pre>")));
}

#[test]
fn failing_command_is_shown_like_any_other() {
    let mut rewriter = Rewriter::new(vec![start(0, "bash,s"), text(1, "false\nls nope\n"), end(2)]);
    assert_eq!(rewriter.next(), Ok(open(0, "s")));
    assert_eq!(rewriter.next(), Ok(run(0, "false", false)));
    assert_eq!(rewriter.supply(wrote("", "")), Ok(()));
    assert_eq!(rewriter.next(), Ok(run(0, "ls nope", false)));
    assert_eq!(rewriter.supply(wrote("", "ls: nope: No such file\n")), Ok(()));
    assert_eq!(
        rewriter.next(),
        Ok(transcript("\n<pre><code>$ false\n$ ls nope\nls: nope: No such file\n\n</code></pre>"))
    );
}

#[test]
fn styled_output_is_converted_in_the_transcript() {
    let mut rewriter = Rewriter::new(vec![start(0, "bash,s"), text(1, "ls --color\n"), end(2)]);
    assert_eq!(rewriter.next(), Ok(open(0, "s")));
    assert_eq!(rewriter.next(), Ok(run(0, "ls --color", false)));
    assert_eq!(rewriter.supply(wrote("\x1b[1mdir\x1b[0m\n", "<e>")), Ok(()));
    assert_eq!(
        rewriter.next(),
        Ok(transcript("\n<pre><code>$ ls --color\n<b>dir</b>\n&lt;e&gt;\n</code></pre>"))
    );
}

#[test]
fn waiting_command_is_yielded_again() {
    let mut rewriter = Rewriter::new(vec![start(0, "bash,s"), text(1, "ls\n"), end(2)]);
    assert_eq!(rewriter.next(), Ok(open(0, "s")));
    assert_eq!(rewriter.waiting_silent(), Some(false));
    assert_eq!(rewriter.next(), Ok(run(0, "ls", false)));
    assert_eq!(rewriter.next(), Ok(run(0, "ls", false)));
    assert_eq!(rewriter.supply(wrote("", "")), Ok(()));
    assert_eq!(rewriter.waiting_silent(), None);
    assert_eq!(rewriter.next(), Ok(transcript("\n<pre><code>$ ls\n</code></pre>")));
}

#[test]
fn recorded_markup_is_taken_as_it_is() {
    let mut rewriter = Rewriter::new(vec![start(0, "bash,s"), text(1, "ls\n"), end(2)]);
    assert_eq!(rewriter.next(), Ok(open(0, "s")));
    assert_eq!(rewriter.record("<i>a</i>\n", ""), Ok(()));
    assert_eq!(rewriter.next(), Ok(transcript("\n<pre><code>$ ls\n<i>a</i>\n\n</code></pre>")));
}

#[test]
fn output_without_a_waiting_command_is_refused() {
    let mut rewriter = Rewriter::new(vec![other(0), start(1, "bash,s"), end(2)]);
    assert_eq!(rewriter.waiting_silent(), None);
    assert_eq!(rewriter.supply(wrote("x", "")), Err(Failure::NothingPending));
    assert_eq!(rewriter.record("x", ""), Err(Failure::NothingPending));
    assert_eq!(rewriter.next(), Ok(Pull::Yield(Item::Passed(other(0)))));
    assert_eq!(rewriter.next(), Ok(open(0, "s")));
    assert_eq!(rewriter.supply(wrote("x", "")), Err(Failure::NothingPending));
    assert_eq!(rewriter.next(), Ok(transcript("\n<pre><code></code></pre>")));
    assert_eq!(rewriter.supply(wrote("x", "")), Err(Failure::NothingPending));
}

#[test]
fn undecodable_output_fails_and_changes_nothing() {
    let mut rewriter = Rewriter::new(vec![start(0, "bash,s"), text(1, "cat blob\n"), end(2)]);
    assert_eq!(rewriter.next(), Ok(open(0, "s")));
    assert_eq!(rewriter.next(), Ok(run(0, "cat blob", false)));
    assert_eq!(
        rewriter.supply(Output { stdout: vec![0xff], stderr: Vec::new() }),
        Err(Failure::InvalidEncoding)
    );
    assert_eq!(
        rewriter.supply(Output { stdout: Vec::new(), stderr: vec![0xff] }),
        Err(Failure::InvalidEncoding)
    );
    assert_eq!(
        rewriter.supply(Output { stdout: b"\x1b[38;5;300mX".to_vec(), stderr: vec![0xff] }),
        Err(Failure::InvalidEscape)
    );
    assert_eq!(rewriter.next(), Ok(run(0, "cat blob", false)));
    assert_eq!(rewriter.supply(wrote("fine\n", "")), Ok(()));
    assert_eq!(
        rewriter.next(),
        Ok(transcript("\n<pre><code>$ cat blob\nfine\n\n</code></pre>"))
    );
}

#[test]
fn block_inside_an_example_is_refused() {
    let mut rewriter = Rewriter::new(vec![start(0, "bash,a"), text(1, "ls\n"), start(2, "rust")]);
    assert_eq!(rewriter.next(), Err(Failure::NestedBlock));
    assert_eq!(rewriter.next(), Err(Failure::NestedBlock));
    let mut nested = Rewriter::new(vec![start(0, "bash,a"), start(1, "bash,b"), end(2), end(3)]);
    assert_eq!(nested.next(), Err(Failure::NestedBlock));
}

#[test]
fn example_that_never_ends_is_refused() {
    let mut rewriter = Rewriter::new(vec![other(0), start(1, "bash,a"), text(2, "ls\n")]);
    assert_eq!(rewriter.next(), Ok(Pull::Yield(Item::Passed(other(0)))));
    assert_eq!(rewriter.next(), Err(Failure::UnterminatedBlock));
    assert_eq!(rewriter.next(), Err(Failure::UnterminatedBlock));
}

#[test]
fn cloned_event_is_equal() {
    let event = start(7, "bash,demo");
    assert_eq!(event.clone(), event);
    assert_eq!(text(1, "x").kind.clone(), Kind::Text(String::from("x")));
}
