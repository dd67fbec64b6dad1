use lemonkee::spawn::{spawn_process, ErrorPipe, PipeEnd, PipeRead, PipeStep};

#[test]
fn errors_of_programs_are_read() {
    let mut pipe = ErrorPipe::new(false);
    assert_eq!(pipe.read(PipeRead::Data(vec![1, 2])), PipeStep { kill: false, done: false });
    assert_eq!(pipe.read(PipeRead::Interrupted), PipeStep { kill: false, done: false });
    assert_eq!(pipe.read(PipeRead::Data(vec![3])), PipeStep { kill: false, done: false });
    assert_eq!(pipe.read(PipeRead::Data(vec![])), PipeStep { kill: false, done: true });
    assert_eq!(pipe.bytes, vec![1, 2, 3]);
    assert_eq!(pipe.failure, None);
}

#[test]
fn programs_are_killed() {
    let mut strict = ErrorPipe::new(true);
    assert_eq!(strict.read(PipeRead::Data(vec![1])), PipeStep { kill: true, done: false });
    assert_eq!(strict.read(PipeRead::Data(vec![])), PipeStep { kill: false, done: true });
    assert_eq!(strict.bytes, vec![1]);
    let mut broken = ErrorPipe::new(false);
    assert_eq!(broken.read(PipeRead::Failed("gone".to_string())), PipeStep { kill: true, done: true });
    assert_eq!(broken.failure, Some("gone".to_string()));
}

fn errors(bytes: &[u8]) -> ErrorPipe {
    ErrorPipe { throw_on_std_err: false, bytes: bytes.to_vec(), failure: None }
}

fn out(bytes: &[u8]) -> PipeEnd<Vec<u8>> {
    PipeEnd::Done(bytes.to_vec())
}

#[test]
fn outputs_of_programs() {
    let result = spawn_process(None, Ok(Some(3)), PipeEnd::Done(()), out(b" a\xff\n"), errors(b"\tb \n"))
        .unwrap_or_else(|e| panic!("{e}"));
    assert_eq!((result.code, result.stdout.as_str(), result.stderr.as_str()), (Some(3), "a\u{fffd}", "b"));
    let result = spawn_process(Some(true), Ok(None), PipeEnd::Done(()), out(b" a "), errors(b""))
        .unwrap_or_else(|e| panic!("{e}"));
    assert_eq!((result.code, result.stdout.as_str()), (None, "a"));
    let result = spawn_process(Some(false), Ok(Some(0)), PipeEnd::Done(()), out(b" a "), errors(b" b "))
        .unwrap_or_else(|e| panic!("{e}"));
    assert_eq!((result.stdout.as_str(), result.stderr.as_str()), (" a ", " b "));
}

#[test]
fn failures_of_programs() {
    let failed = |status, input, stdout, errors| spawn_process(None, status, input, stdout, errors).err().unwrap();
    let unread = || ErrorPipe { failure: Some("stderr".to_string()), ..errors(b"") };
    assert_eq!(
        failed(Err("wait".to_string()), PipeEnd::Panicked, PipeEnd::Panicked, unread()),
        "wait"
    );
    assert_eq!(
        failed(Ok(None), PipeEnd::Panicked, PipeEnd::Panicked, unread()),
        "Child stdin writer panicked"
    );
    assert_eq!(failed(Ok(None), PipeEnd::Failed("in".to_string()), PipeEnd::Panicked, unread()), "in");
    assert_eq!(
        failed(Ok(None), PipeEnd::Done(()), PipeEnd::Panicked, unread()),
        "Child stdout reader panicked"
    );
    assert_eq!(
        failed(Ok(None), PipeEnd::Done(()), PipeEnd::Failed("out".to_string()), unread()),
        "out"
    );
    assert_eq!(failed(Ok(None), PipeEnd::Done(()), out(b""), unread()), "stderr");
}
