//! Running other programs: what is read of their output and what is told of it.

use std::collections::HashMap;

use vstd::prelude::*;

use crate::encoding;
use crate::text;

verus! {

/// Where and with which variables a program runs. Given variables replace those of
/// the shell.
pub struct SpawnOptions {
    pub cwd: Option<String>,
    pub env: Option<HashMap<String, String>>,
}

/// A program to run. Its output is trimmed unless that is switched off.
pub struct SpawnConfig {
    pub cmd: String,
    pub args: Vec<String>,
    pub options: Option<SpawnOptions>,
    pub data: Option<String>,
    pub trim: Option<bool>,
    pub throw_on_std_err: bool,
}

/// What is told of a program that ran.
pub struct SpawnResult {
    pub code: Option<i32>,
    pub stdout: String,
    pub stderr: String,
}

/// What came of reading from a pipe.
pub enum PipeRead {
    /// Bytes; none at the end.
    Data(Vec<u8>),
    /// The system asks to try again.
    Interrupted,
    Failed(String),
}

/// What to do after reading from a pipe.
#[derive(Clone, Copy, Debug, PartialEq, Eq, Structural)]
pub struct PipeStep {
    /// Kill the program.
    pub kill: bool,
    /// Stop reading.
    pub done: bool,
}

/// The errors that a program writes while it runs. A program that must not write any
/// is killed when it does, and so is one whose errors cannot be read; reading goes on
/// to the end in any case but the latter.
pub struct ErrorPipe {
    pub throw_on_std_err: bool,
    pub bytes: Vec<u8>,
    pub failure: Option<String>,
}

impl ErrorPipe {
    /// Nothing was written yet.
    pub fn new(throw_on_std_err: bool) -> (r: ErrorPipe)
        ensures
            r.throw_on_std_err == throw_on_std_err,
            r.bytes@.len() == 0,
            r.failure is None,
    {
        ErrorPipe { throw_on_std_err, bytes: Vec::new(), failure: None }
    }

    /// Takes what was read.
    pub fn read(&mut self, read: PipeRead) -> (r: PipeStep)
        ensures
            final(self).throw_on_std_err == old(self).throw_on_std_err,
            match read {
                PipeRead::Data(data) => {
                    &&& final(self).bytes@ == old(self).bytes@ + data@
                    &&& final(self).failure == old(self).failure
                    &&& r == (PipeStep {
                        kill: data@.len() > 0 && old(self).throw_on_std_err,
                        done: data@.len() == 0,
                    })
                },
                PipeRead::Interrupted => {
                    &&& final(self).bytes@ == old(self).bytes@
                    &&& final(self).failure == old(self).failure
                    &&& r == (PipeStep { kill: false, done: false })
                },
                PipeRead::Failed(message) => {
                    &&& final(self).bytes@ == old(self).bytes@
                    &&& final(self).failure == Some(message)
                    &&& r == (PipeStep { kill: true, done: true })
                },
            },
    {
        match read {
            PipeRead::Data(data) => {
                if data.len() == 0 {
                    assert(self.bytes@ + data@ =~= self.bytes@);
                    return PipeStep { kill: false, done: true };
                }
                let mut data = data;
                self.bytes.append(&mut data);
                PipeStep { kill: self.throw_on_std_err, done: false }
            },
            PipeRead::Interrupted => PipeStep { kill: false, done: false },
            PipeRead::Failed(message) => {
                self.failure = Some(message);
                PipeStep { kill: true, done: true }
            },
        }
    }
}

/// How a thread that serves a pipe ended.
pub enum PipeEnd<T> {
    Done(T),
    Failed(String),
    Panicked,
}

/// The text of an output.
pub open spec fn output_text(bytes: Seq<u8>, trim: Option<bool>) -> Seq<char> {
    if trim == Some(false) {
        encoding::lossy(bytes)
    } else {
        text::trimmed(encoding::lossy(bytes))
    }
}

fn output(bytes: &Vec<u8>, trim: Option<bool>) -> (r: String)
    ensures
        r@ == output_text(bytes@, trim),
{
    let whole = encoding::lossy_text(bytes.as_slice());
    match trim {
        Some(false) => whole,
        _ => text::trim(whole.as_str()),
    }
}

/// Why a run fails, if it does: the first of waiting for the program, writing its
/// input, reading its output and reading its errors to fail.
pub open spec fn spawn_failure(
    status: Result<Option<i32>, String>,
    input: PipeEnd<()>,
    stdout: PipeEnd<Vec<u8>>,
    errors: ErrorPipe,
) -> Option<Seq<char>> {
    if status is Err {
        Some(status->Err_0@)
    } else if input is Panicked {
        Some("Child stdin writer panicked"@)
    } else if input is Failed {
        Some(input->Failed_0@)
    } else if stdout is Panicked {
        Some("Child stdout reader panicked"@)
    } else if stdout is Failed {
        Some(stdout->Failed_0@)
    } else {
        text::opt_text(errors.failure)
    }
}

/// What is told of a run, from the exit status of the program, how its input and its
/// output were served and what was read of its errors.
pub fn spawn_process(
    trim: Option<bool>,
    status: Result<Option<i32>, String>,
    input: PipeEnd<()>,
    stdout: PipeEnd<Vec<u8>>,
    errors: ErrorPipe,
) -> (r: Result<SpawnResult, String>)
    ensures
        match r {
            Ok(result) => {
                &&& spawn_failure(status, input, stdout, errors) is None
                &&& result.code == status->Ok_0
                &&& result.stdout@ == output_text(stdout->Done_0@, trim)
                &&& result.stderr@ == output_text(errors.bytes@, trim)
            },
            Err(e) => spawn_failure(status, input, stdout, errors) == Some(e@),
        },
{
    let code = status?;
    match input {
        PipeEnd::Done(_) => {},
        PipeEnd::Failed(message) => return Err(message),
        PipeEnd::Panicked => return Err("Child stdin writer panicked".to_owned()),
    }
    let bytes = match stdout {
        PipeEnd::Done(bytes) => bytes,
        PipeEnd::Failed(message) => return Err(message),
        PipeEnd::Panicked => return Err("Child stdout reader panicked".to_owned()),
    };
    if let Some(message) = errors.failure {
        return Err(message);
    }
    Ok(SpawnResult { code, stdout: output(&bytes, trim), stderr: output(&errors.bytes, trim) })
}

// ---------------------------------------------------------------------------
// Laws
// ---------------------------------------------------------------------------

/// Unless trimming is switched off, what is told of an output or of errors is a stretch of
/// what was written that neither begins nor ends with white space, and all that is left
/// out before and after it is white space. Switched off, nothing is left out.
pub proof fn law_only_white_ends_are_left_out(
    trim: Option<bool>,
    status: Result<Option<i32>, String>,
    input: PipeEnd<()>,
    stdout: PipeEnd<Vec<u8>>,
    errors: ErrorPipe,
    r: Result<SpawnResult, String>,
)
    requires
        call_ensures(spawn_process, (trim, status, input, stdout, errors), r),
        r is Ok,
    ensures
        trim != Some(false) ==> text::is_core(encoding::lossy(stdout->Done_0@), (r->Ok_0).stdout@),
        trim != Some(false) ==> text::is_core(encoding::lossy(errors.bytes@), (r->Ok_0).stderr@),
        trim == Some(false) ==> (r->Ok_0).stdout@ == encoding::lossy(stdout->Done_0@),
        trim == Some(false) ==> (r->Ok_0).stderr@ == encoding::lossy(errors.bytes@),
{
    text::law_trimming_drops_only_white_ends(encoding::lossy(stdout->Done_0@));
    text::law_trimming_drops_only_white_ends(encoding::lossy(errors.bytes@));
}

/// A run fails by the first of its parts that failed, in this order: the program, its
/// input, its output, its errors. If none did, the exit code of the program is told, be it
/// what it may.
pub proof fn law_first_part_to_fail(
    trim: Option<bool>,
    status: Result<Option<i32>, String>,
    input: PipeEnd<()>,
    stdout: PipeEnd<Vec<u8>>,
    errors: ErrorPipe,
    r: Result<SpawnResult, String>,
)
    requires
        call_ensures(spawn_process, (trim, status, input, stdout, errors), r),
    ensures
        r is Ok <==> status is Ok && input is Done && stdout is Done && errors.failure is None,
        r is Ok ==> (r->Ok_0).code == status->Ok_0,
        status is Err ==> (r->Err_0)@ == (status->Err_0)@,
        status is Ok && input is Panicked ==> (r->Err_0)@ == "Child stdin writer panicked"@,
        status is Ok && input is Failed ==> (r->Err_0)@ == (input->Failed_0)@,
        status is Ok && input is Done && stdout is Panicked ==> (r->Err_0)@
            == "Child stdout reader panicked"@,
        status is Ok && input is Done && stdout is Failed ==> (r->Err_0)@ == (stdout->Failed_0)@,
        status is Ok && input is Done && stdout is Done && errors.failure is Some ==> (r->Err_0)@
            == (errors.failure->Some_0)@,
{
}

/// What a program writes to its errors is kept in full and in order. It is killed as soon
/// as it writes any that it must not write, or when they cannot be read; reading ends with
/// the end of the errors or with a failure, which is kept.
pub proof fn law_errors_are_kept(pipe: &mut ErrorPipe, read: PipeRead, r: PipeStep)
    requires
        call_ensures(ErrorPipe::read, (pipe, read), r),
    ensures
        final(pipe).throw_on_std_err == old(pipe).throw_on_std_err,
        read matches PipeRead::Data(data) ==> final(pipe).bytes@ == old(pipe).bytes@ + data@,
        !(read is Data) ==> final(pipe).bytes@ == old(pipe).bytes@,
        read matches PipeRead::Failed(message) ==> final(pipe).failure == Some(message),
        !(read is Failed) ==> final(pipe).failure == old(pipe).failure,
        r.kill <==> read is Failed || read is Data && (read->Data_0)@.len() > 0
            && old(pipe).throw_on_std_err,
        r.done <==> read is Failed || read is Data && (read->Data_0)@.len() == 0,
{
}

} // verus!
