//! What the compiler and the build orchestrator report, as plain values: how
//! a child process ended, what it printed, and what is read from that.

use vstd::prelude::*;
use crate::args::views;
use crate::text::{spec_trim_end, trim_end};

verus! {

/// How a child process ended: with an exit code, or by a signal, which leaves
/// no code to pass on.
#[derive(Clone, Copy, PartialEq, Eq, Debug, Structural)]
pub enum ChildOutcome {
    Exited(i32),
    Signaled,
}

impl ChildOutcome {
    /// The outcome that an optional exit code stands for.
    pub fn from_code(code: Option<i32>) -> (outcome: ChildOutcome)
        ensures
            outcome == match code {
                Some(c) => ChildOutcome::Exited(c),
                None => ChildOutcome::Signaled,
            },
    {
        match code {
            Some(c) => ChildOutcome::Exited(c),
            None => ChildOutcome::Signaled,
        }
    }

    /// Whether the child exited with code 0.
    pub open spec fn spec_success(&self) -> bool {
        *self == ChildOutcome::Exited(0)
    }

    /// Whether the child exited with code 0.
    #[verifier::when_used_as_spec(spec_success)]
    pub fn success(&self) -> (ok: bool)
        ensures
            ok == self.spec_success(),
    {
        match self {
            ChildOutcome::Exited(c) => *c == 0,
            ChildOutcome::Signaled => false,
        }
    }
}

/// Why a child's outcome cannot be passed on as this process's exit code.
#[derive(Clone, Copy, PartialEq, Eq, Debug, Structural)]
pub enum ExitError {
    /// The child was ended by a signal.
    Signaled,
}

/// The exit code to pass on verbatim for a child that exited, whatever the
/// code; a child ended by a signal is an error of its own.
pub fn exit_code(outcome: ChildOutcome) -> (code: Result<i32, ExitError>)
    ensures
        code == match outcome {
            ChildOutcome::Exited(c) => Ok::<i32, ExitError>(c),
            ChildOutcome::Signaled => Err::<i32, ExitError>(ExitError::Signaled),
        },
{
    match outcome {
        ChildOutcome::Exited(c) => Ok(c),
        ChildOutcome::Signaled => Err(ExitError::Signaled),
    }
}

/// What a child process left behind when its standard output was captured.
#[derive(Clone, Debug, PartialEq, Eq)]
pub struct CapturedOutput {
    pub outcome: ChildOutcome,
    pub stdout: Vec<u8>,
}

/// Why a query of the compiler gave no answer.
#[derive(Clone, Copy, PartialEq, Eq, Debug, Structural)]
pub enum QueryError {
    /// The compiler did not exit with code 0.
    Failed,
    /// What the compiler printed is not UTF-8.
    NotUtf8,
}

/// `String::from_utf8`: the bytes as a string where they are valid UTF-8, and
/// `None` where they are not. The string's characters encode to the bytes
/// given.
#[verifier::external_body]
fn string_from_utf8(bytes: Vec<u8>) -> (text: Option<String>)
    ensures
        text is Some <==> vstd::utf8::valid_utf8(bytes@),
        text is Some ==> vstd::utf8::encode_utf8(text.unwrap()@) == bytes@,
{
    match String::from_utf8(bytes) {
        Ok(text) => Some(text),
        Err(_) => None,
    }
}

/// The text that `stdout` holds, for a child that exited with code 0.
fn read_stdout(output: CapturedOutput) -> (text: Result<String, QueryError>)
    ensures
        !output.outcome.success() ==> text == Err::<String, QueryError>(QueryError::Failed),
        output.outcome.success() && !vstd::utf8::valid_utf8(output.stdout@) ==> text == Err::<
            String,
            QueryError,
        >(QueryError::NotUtf8),
        output.outcome.success() && vstd::utf8::valid_utf8(output.stdout@) ==> text is Ok
            && text.unwrap()@ == vstd::utf8::decode_utf8(output.stdout@),
{
    if !output.outcome.success() {
        return Err(QueryError::Failed);
    }
    match string_from_utf8(output.stdout) {
        Some(text) => {
            proof {
                vstd::utf8::encode_utf8_decode_utf8(text@);
            }
            Ok(text)
        },
        None => Err(QueryError::NotUtf8),
    }
}

/// The arguments that ask the compiler for its sysroot.
pub fn sysroot_query() -> (query: Vec<String>)
    ensures
        views(query@) == seq!["--print"@, "sysroot"@],
{
    let mut query: Vec<String> = Vec::new();
    query.push("--print".to_owned());
    query.push("sysroot".to_owned());
    assert(views(query@) =~= seq!["--print"@, "sysroot"@]);
    query
}

/// The arguments that ask the compiler for the specification of its target.
pub fn target_spec_query() -> (query: Vec<String>)
    ensures
        views(query@) == seq!["-Z"@, "unstable-options"@, "--print"@, "target-spec-json"@],
{
    let mut query: Vec<String> = Vec::new();
    query.push("-Z".to_owned());
    query.push("unstable-options".to_owned());
    query.push("--print".to_owned());
    query.push("target-spec-json".to_owned());
    assert(views(query@) =~= seq![
        "-Z"@,
        "unstable-options"@,
        "--print"@,
        "target-spec-json"@,
    ]);
    query
}

/// The compiler's installed root, read from what it printed when asked with
/// [`sysroot_query`]: the text without the white space at its end.
pub fn get_sysroot(output: CapturedOutput) -> (sysroot: Result<String, QueryError>)
    ensures
        !output.outcome.success() ==> sysroot == Err::<String, QueryError>(QueryError::Failed),
        output.outcome.success() && !vstd::utf8::valid_utf8(output.stdout@) ==> sysroot == Err::<
            String,
            QueryError,
        >(QueryError::NotUtf8),
        output.outcome.success() && vstd::utf8::valid_utf8(output.stdout@) ==> sysroot is Ok
            && sysroot.unwrap()@ == spec_trim_end(vstd::utf8::decode_utf8(output.stdout@)),
{
    match read_stdout(output) {
        Ok(text) => Ok(trim_end(text.as_str())),
        Err(e) => Err(e),
    }
}

/// The specification of the compiler's target, read from what it printed
/// when asked with [`target_spec_query`]: the text as it stands.
pub fn get_target_spec_json(output: CapturedOutput) -> (json: Result<String, QueryError>)
    ensures
        !output.outcome.success() ==> json == Err::<String, QueryError>(QueryError::Failed),
        output.outcome.success() && !vstd::utf8::valid_utf8(output.stdout@) ==> json == Err::<
            String,
            QueryError,
        >(QueryError::NotUtf8),
        output.outcome.success() && vstd::utf8::valid_utf8(output.stdout@) ==> json is Ok
            && json.unwrap()@ == vstd::utf8::decode_utf8(output.stdout@),
{
    read_stdout(output)
}

/// The program to run as the compiler: the path given in the environment
/// where there is one, else `rustc`.
pub fn rustc(path_override: Option<String>) -> (program: String)
    ensures
        program@ == match path_override {
            Some(path) => path@,
            None => "rustc"@,
        },
{
    match path_override {
        Some(path) => path,
        None => "rustc".to_owned(),
    }
}

/// The program to run as the build orchestrator: the path given in the
/// environment where there is one, else `cargo`.
pub fn cargo(path_override: Option<String>) -> (program: String)
    ensures
        program@ == match path_override {
            Some(path) => path@,
            None => "cargo"@,
        },
{
    match path_override {
        Some(path) => path,
        None => "cargo".to_owned(),
    }
}

/// The release channel of a compiler.
#[derive(Clone, Copy, PartialEq, Eq, Debug, Structural)]
pub enum Channel {
    Dev,
    Nightly,
    Beta,
    Stable,
}

/// Whether a compiler of this channel offers the unstable features that the
/// check needs: only development and nightly compilers do.
pub fn channel_supported(channel: Channel) -> (supported: bool)
    ensures
        supported == (channel == Channel::Dev || channel == Channel::Nightly),
{
    match channel {
        Channel::Dev | Channel::Nightly => true,
        Channel::Beta | Channel::Stable => false,
    }
}

} // verus!
