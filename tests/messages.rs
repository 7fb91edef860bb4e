use shu::builtins::grep::GrepError;
use shu::builtins::head_tail::HeadTailError;
use shu::builtins::rm::RmError;
use shu::command::{CommandError, Describe};
use shu::dispatch::{todo, SegmentError};
use shu::redirect::BuildError;

#[test]
fn build_error_messages() {
    assert_eq!(BuildError::UnexpectedArg("-z".to_string()).describe(), "shu: unexpected arg: -z\n");
    assert_eq!(BuildError::NoArgument(">".to_string()).describe(), "shu: no argument after: >\n");
    assert_eq!(
        BuildError::UnopenedFile("/tmp/x".to_string(), "denied".to_string()).describe(),
        "shu: can't open the file (/tmp/x): denied\n"
    );
    assert_eq!(BuildError::PipeError("full".to_string()).describe(), "shu: error with build pipe command: full\n");
}

#[test]
fn command_error_messages() {
    let e: CommandError<GrepError> = CommandError::Other("grep".to_string(), GrepError::NoPattern);
    assert_eq!(e.describe(), "shu: grep: no pattern");
    let e: CommandError<HeadTailError> = CommandError::Other("head-tail".to_string(), HeadTailError::ParseError("x".to_string()));
    assert_eq!(e.describe(), "shu: head-tail: can't parse argument: x\n");
    let e: CommandError<GrepError> = CommandError::Help;
    assert_eq!(e.describe(), "shu: Just helping");
    let e: CommandError<GrepError> = CommandError::BuildError(BuildError::UnexpectedArg("-q".to_string()));
    assert_eq!(e.describe(), "shu: build Error: shu: unexpected arg: -q\n");
    let e: CommandError<GrepError> = CommandError::WriteError("broken pipe".to_string());
    assert_eq!(e.describe(), "shu: error with write into file: broken pipe");
    assert_eq!(RmError::IsDir("d".to_string()).describe(), "the (d) is dir, can't remove it (use -rf for do it)\n");
}

#[test]
fn segment_error_messages() {
    match todo("frobnicate now") {
        Err(e) => {
            assert!(matches!(e, SegmentError::UnknownCommand(_)));
            assert_eq!(e.describe(), "shu: unknown command: frobnicate");
        }
        Ok(_) => panic!("expected an unknown command"),
    }
    match todo("grep") {
        Err(e) => assert_eq!(e.describe(), "shu: grep: no pattern"),
        Ok(_) => panic!("expected a missing pattern"),
    }
}
