use shu::dispatch::{command_kind, next_step, plan_segment, todo, ChainStep, Command, CommandKind, SegmentError};
use shu::job::{parse_job, HistoryEntry, JobRun};
use shu::command::InputFile;
use shu::redirect::{BuildError, OutputSink};

fn words(v: &[&str]) -> Vec<String> {
    v.iter().map(|s| s.to_string()).collect()
}

#[test]
fn registry_lookup() {
    assert!(matches!(command_kind("grep"), Some(CommandKind::Grep)));
    assert!(matches!(command_kind("head-tail"), Some(CommandKind::HeadTail)));
    assert!(matches!(command_kind("rm"), Some(CommandKind::Rm)));
    assert!(command_kind("echo").is_none());
}

#[test]
fn plan_a_piped_line() {
    let plan = match todo("cat -n notes.txt | grep -c todo > n.txt") {
        Ok(p) => p,
        Err(_) => panic!("planning failed"),
    };
    assert!(matches!(plan.pack.stdout, OutputSink::Pipe));
    assert!(matches!(plan.command, Command::Cat(ref c) if c.line_number));
    let down = plan.downstream.expect("a downstream command");
    assert_eq!(down, words(&["grep", "-c", "todo", ">", "n.txt"]));
    let next = match plan_segment(&down, true) {
        Ok(p) => p,
        Err(_) => panic!("planning failed"),
    };
    assert!(matches!(next.pack.stdout, OutputSink::File { ref name, append: false } if name == "n.txt"));
    match next.command {
        Command::Grep(g) => {
            assert!(g.count);
            assert_eq!(g.input_files.len(), 1);
            assert!(matches!(g.input_files[0], InputFile::Pipe));
        }
        _ => panic!("expected grep"),
    }
}

#[test]
fn plan_errors() {
    assert!(matches!(todo("echo hi"), Err(SegmentError::UnknownCommand(ref n)) if n == "echo"));
    assert!(matches!(todo("   "), Err(SegmentError::Empty)));
    assert!(matches!(todo("ls >"), Err(SegmentError::Redirect(BuildError::NoArgument(_)))));
    assert!(matches!(todo("grep"), Err(SegmentError::Build(_, _))));
    assert!(matches!(todo("ls |"), Err(SegmentError::Redirect(BuildError::NoArgument(_)))));
    match todo("grep -n --err e.log") {
        Err(SegmentError::Build(pack, _)) => {
            assert!(matches!(pack.stderr, shu::redirect::ErrorSink::File { ref name, append: false } if name == "e.log"))
        }
        _ => panic!("expected a build failure"),
    }
}

#[test]
fn chain_steps() {
    assert!(matches!(next_step(None, Some(words(&["x"]))), ChainStep::Done(false)));
    assert!(matches!(next_step(Some(false), None), ChainStep::Done(false)));
    assert!(matches!(next_step(Some(true), None), ChainStep::Done(true)));
    assert!(matches!(next_step(Some(false), Some(words(&["x"]))), ChainStep::PipeInto(ref d) if d == &words(&["x"])));
}

#[test]
fn job_segments_and_background() {
    let job = parse_job("  ls -l &&  grep x f  && cat f ");
    assert_eq!(job.segments, words(&["ls -l", "grep x f", "cat f"]));
    assert!(!job.background);
    let job = parse_job("cat big.txt &\n");
    assert!(job.background);
    assert_eq!(job.segments, words(&["cat big.txt"]));
    let job = parse_job("a&&&b");
    assert_eq!(job.segments, words(&["a", "&b"]));
    let job = parse_job("\u{3000}ls\u{A0}&&\u{2003}pwd\n");
    assert_eq!(job.segments, words(&["ls", "pwd"]));
    let job = parse_job("ls&");
    assert!(!job.background);
    assert_eq!(job.segments, words(&["ls&"]));
}

#[test]
fn failed_segment_ends_the_chain() {
    let mut run = JobRun::new(parse_job("seg1 && seg2 && seg3"));
    assert_eq!(run.next_segment(), Some("seg1".to_string()));
    let first = run.record(true);
    assert_eq!(run.next_segment(), Some("seg2".to_string()));
    let second = run.record(false);
    assert_eq!(run.next_segment(), None);
    assert_eq!(run.history.len(), 2);
    assert_eq!(first.line(), "seg1 ");
    assert_eq!(second.line(), "seg2 ERROR");
}

#[test]
fn successful_chain_runs_every_segment() {
    let mut run = JobRun::new(parse_job("a && b"));
    while let Some(_) = run.next_segment() {
        run.record(true);
    }
    assert_eq!(run.history.len(), 2);
    let e = HistoryEntry { command: "pwd".to_string(), ok: true };
    assert_eq!(e.line(), "pwd ");
}
