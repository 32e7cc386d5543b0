//! The driver phase: what to do with the command line, which target to
//! check, and how to start the build orchestrator so that every compiler
//! invocation comes back to this program as a wrapper.

use vstd::prelude::*;
use crate::args::{
    first_named, get_flag, lemma_first_named_from, lemma_get_range, lemma_get_spaced,
    lemma_replace_then_get_spaced, manifest_path_arg, names_flag, spec_get, spec_replace, views,
    ArgList,
};
use crate::protocol::{
    PLACEHOLDER_TARGET, SYSROOT_FLAG, SYSROOT_VARIABLE, TARGET_FLAG, TARGET_VARIABLE,
    WRAPPER_VARIABLE,
};
use crate::text::{lemma_joined, str_eq};
use crate::wrapper::{placeholder_site, placeholder_site_from, spec_rewrite, PlaceholderSite};
use crate::toolchain::{channel_supported, Channel, ChildOutcome};

verus! {

/// The name under which the build orchestrator runs this program as a
/// subcommand, and which it then hands over as the first argument.
pub const SUBCOMMAND: &'static str = "no-std-check";

/// The action of the build orchestrator that the driver starts.
pub const ORCHESTRATOR_ACTION: &'static str = "build";

/// `args` without the subcommand's name in front, where it stands there.
pub open spec fn spec_strip_subcommand(args: Seq<Seq<char>>) -> Seq<Seq<char>> {
    if args.len() > 0 && args[0] == SUBCOMMAND@ {
        args.drop_first()
    } else {
        args
    }
}

/// Removes the subcommand's name from the front of `args`, where it stands
/// there.
pub fn strip_subcommand(args: &mut Vec<String>)
    ensures
        views(final(args)@) == spec_strip_subcommand(views(old(args)@)),
{
    if args.len() > 0 {
        assert(views(args@)[0] == args@[0]@);
        if str_eq(args[0].as_str(), SUBCOMMAND) {
            let _ = args.remove(0);
            assert(views(args@) =~= views(old(args)@).drop_first());
        }
    }
}

/// A request that is answered at once, before any work on a sysroot.
#[derive(Clone, Copy, PartialEq, Eq, Debug, Structural)]
pub enum EarlyExit {
    Help,
    Version,
}

/// Whether the command line asks for the help text or the version. A
/// request for help comes first.
pub open spec fn spec_early_exit(args: Seq<Seq<char>>) -> Option<EarlyExit> {
    if args.contains("-h"@) || args.contains("--help"@) {
        Some(EarlyExit::Help)
    } else if args.contains("--version"@) {
        Some(EarlyExit::Version)
    } else {
        None
    }
}

/// Whether the command line asks for the help text or the version: see
/// [`spec_early_exit`].
pub fn early_exit(args: &[String]) -> (request: Option<EarlyExit>)
    ensures
        request == spec_early_exit(views(args@)),
{
    if get_flag(args, "-h") || get_flag(args, "--help") {
        Some(EarlyExit::Help)
    } else if get_flag(args, "--version") {
        Some(EarlyExit::Version)
    } else {
        None
    }
}

/// The real target and the arguments for the build orchestrator. An explicit
/// target is remembered and its flag replaced by the target flag and the
/// placeholder; without one the target is `host`, and the target flag and the
/// placeholder are added at the end.
pub open spec fn spec_resolve_target(args: Seq<Seq<char>>, host: Seq<char>) -> (
    Seq<char>,
    Seq<Seq<char>>,
) {
    match spec_get(args, TARGET_FLAG@) {
        Some((value, start, end)) => (
            value,
            spec_replace(args, start, end, seq![TARGET_FLAG@, PLACEHOLDER_TARGET@]),
        ),
        None => (host, args.push(TARGET_FLAG@).push(PLACEHOLDER_TARGET@)),
    }
}

/// Finds the real target and puts the placeholder in its place: see
/// [`spec_resolve_target`]. Returns the real target.
pub fn resolve_target(args: &mut ArgList, host: &str) -> (target: String)
    ensures
        target@ == spec_resolve_target(old(args)@, host@).0,
        final(args)@ == spec_resolve_target(old(args)@, host@).1,
{
    match args.get(TARGET_FLAG) {
        Some(found) => {
            proof {
                lemma_get_range(args@, TARGET_FLAG@);
            }
            let mut flag: Vec<String> = Vec::new();
            flag.push(TARGET_FLAG.to_owned());
            flag.push(PLACEHOLDER_TARGET.to_owned());
            assert(views(flag@) =~= seq![TARGET_FLAG@, PLACEHOLDER_TARGET@]);
            args.replace(found.start, found.end, flag);
            found.value
        },
        None => {
            args.items.push(TARGET_FLAG.to_owned());
            args.items.push(PLACEHOLDER_TARGET.to_owned());
            assert(args@ =~= old(args)@.push(TARGET_FLAG@).push(PLACEHOLDER_TARGET@));
            host.to_owned()
        },
    }
}

/// Every path that brings the placeholder in leaves it where the wrapper
/// looks: after resolving, the value of the target flag is the placeholder.
/// This holds where the target flag had a value, and where no argument
/// carried the flag at all.
pub proof fn lemma_resolved_target_is_placeholder(args: Seq<Seq<char>>, host: Seq<char>)
    requires
        spec_get(args, TARGET_FLAG@) is Some || first_named(args, TARGET_FLAG@) is None,
    ensures
        spec_get(spec_resolve_target(args, host).1, TARGET_FLAG@) is Some,
        spec_get(spec_resolve_target(args, host).1, TARGET_FLAG@).unwrap().0 == PLACEHOLDER_TARGET@,
{
    if spec_get(args, TARGET_FLAG@) is Some {
        lemma_replace_then_get_spaced(args, TARGET_FLAG@, PLACEHOLDER_TARGET@);
    } else {
        lemma_first_named_from(args, TARGET_FLAG@, 0);
        let after = args.push(TARGET_FLAG@).push(PLACEHOLDER_TARGET@);
        assert forall|j: int| 0 <= j < args.len() implies !names_flag(
            #[trigger] after[j],
            TARGET_FLAG@,
        ) by {
            assert(after[j] == args[j]);
        }
        lemma_get_spaced(after, TARGET_FLAG@, args.len() as int);
    }
}

/// Where the placeholder follows a bare target flag at `at`, and no argument
/// from `from` up to `at` carries the target flag, the wrapper's scan from
/// `from` finds the placeholder behind that flag.
pub proof fn lemma_placeholder_behind_flag(args: Seq<Seq<char>>, from: int, at: int)
    requires
        0 <= from <= at,
        at + 1 < args.len() <= usize::MAX,
        forall|j: int| from <= j < at ==> !names_flag(#[trigger] args[j], TARGET_FLAG@),
        args[at] == TARGET_FLAG@,
        args[at + 1] == PLACEHOLDER_TARGET@,
    ensures
        placeholder_site_from(args, from) == Some(PlaceholderSite::Spaced((at + 1) as usize)),
    decreases at - from,
{
    if from < at {
        lemma_joined(TARGET_FLAG@, PLACEHOLDER_TARGET@);
        assert(!names_flag(args[from], TARGET_FLAG@));
        lemma_placeholder_behind_flag(args, from + 1, at);
    }
}

/// The wrapper undoes what the driver did: in the arguments that the driver
/// resolved, the wrapper finds the placeholder, and after its rewriting the
/// value of the target flag is the real target again, with the sysroot flag
/// and the sysroot at the end. This holds where the target flag had a value,
/// and where no argument carried the flag at all.
pub proof fn lemma_wrapper_restores_target(
    args: Seq<Seq<char>>,
    host: Seq<char>,
    sysroot: Seq<char>,
)
    requires
        args.len() + 2 <= usize::MAX,
        spec_get(args, TARGET_FLAG@) is Some || first_named(args, TARGET_FLAG@) is None,
    ensures
        ({
            let resolved = spec_resolve_target(args, host);
            let compiled = spec_rewrite(resolved.1, resolved.0, sysroot);
            &&& placeholder_site(resolved.1) is Some
            &&& spec_get(compiled, TARGET_FLAG@) is Some
            &&& spec_get(compiled, TARGET_FLAG@).unwrap().0 == resolved.0
            &&& compiled.len() == resolved.1.len() + 2
            &&& compiled[compiled.len() - 2] == SYSROOT_FLAG@
            &&& compiled[compiled.len() - 1] == sysroot
        }),
{
    lemma_first_named_from(args, TARGET_FLAG@, 0);
    let resolved = spec_resolve_target(args, host);
    let placed = resolved.1;
    let at = match spec_get(args, TARGET_FLAG@) {
        Some((_, start, _)) => start,
        None => args.len() as int,
    };
    assert forall|j: int| 0 <= j < at implies !names_flag(#[trigger] placed[j], TARGET_FLAG@) by {
        assert(placed[j] == args[j]);
    }
    assert(placed[at] == TARGET_FLAG@);
    assert(placed[at + 1] == PLACEHOLDER_TARGET@);
    lemma_placeholder_behind_flag(placed, 0, at);
    let compiled = spec_rewrite(placed, resolved.0, sysroot);
    assert forall|j: int| 0 <= j < at implies !names_flag(#[trigger] compiled[j], TARGET_FLAG@) by {
        assert(compiled[j] == placed[j]);
    }
    lemma_get_spaced(compiled, TARGET_FLAG@, at);
}

/// The environment variables as pairs of sequences of characters.
pub open spec fn pair_views(pairs: Seq<(String, String)>) -> Seq<(Seq<char>, Seq<char>)> {
    pairs.map_values(|p: (String, String)| (p.0@, p.1@))
}

/// The arguments for the build orchestrator: its action, then `args`.
pub fn orchestrator_args(args: Vec<String>) -> (command: Vec<String>)
    ensures
        views(command@) == seq![ORCHESTRATOR_ACTION@] + views(args@),
{
    let mut command: Vec<String> = Vec::new();
    command.push(ORCHESTRATOR_ACTION.to_owned());
    let mut rest = args;
    command.append(&mut rest);
    assert(views(command@) =~= seq![ORCHESTRATOR_ACTION@] + views(args@));
    command
}

/// What the environment of the build orchestrator holds for the processes
/// below it: this program as the compiler's wrapper, then the synthetic
/// sysroot, which marks a wrapper, then the real target.
pub fn orchestrator_environment(wrapper: String, sysroot: String, target: String) -> (environment:
    Vec<(String, String)>)
    ensures
        pair_views(environment@) == seq![
            (WRAPPER_VARIABLE@, wrapper@),
            (SYSROOT_VARIABLE@, sysroot@),
            (TARGET_VARIABLE@, target@),
        ],
{
    let mut environment: Vec<(String, String)> = Vec::new();
    environment.push((WRAPPER_VARIABLE.to_owned(), wrapper));
    environment.push((SYSROOT_VARIABLE.to_owned(), sysroot));
    environment.push((TARGET_VARIABLE.to_owned(), target));
    assert(pair_views(environment@) =~= seq![
        (WRAPPER_VARIABLE@, wrapper@),
        (SYSROOT_VARIABLE@, sysroot@),
        (TARGET_VARIABLE@, target@),
    ]);
    environment
}

/// The line that answers a request for the version: the program's name, a
/// space and `version`.
pub fn version_line(version: &str) -> (line: String)
    ensures
        line@ == "cargo-no-std-check "@ + version@,
{
    let mut line = "cargo-no-std-check ".to_owned();
    line.append(version);
    line
}

/// Where the driver stands between two pieces of outside work.
#[derive(Clone, Debug, PartialEq, Eq)]
pub enum DriverState {
    /// Nothing was done yet.
    Start,
    /// The compiler was asked for its channel and host.
    AwaitingCompiler { args: Vec<String> },
    /// The synthetic sysroot is being made for `target`; `args` carry the
    /// placeholder.
    AwaitingSysroot { args: Vec<String>, target: String },
    /// The build orchestrator runs.
    AwaitingChild,
    /// The driver is done: nothing follows the last action.
    Finished,
}

/// What the outside work hands back to the driver.
#[derive(Clone, Debug, PartialEq, Eq)]
pub enum DriverEvent {
    /// The process was started with these arguments.
    Invoked { args: Vec<String> },
    /// The compiler told its channel and host.
    CompilerKnown { channel: Channel, host: String },
    /// The synthetic sysroot stands at `sysroot`; `wrapper` is the path of
    /// this program.
    SysrootReady { sysroot: String, wrapper: String },
    /// The build orchestrator ended.
    ChildEnded { outcome: ChildOutcome },
}

/// Why the driver gives up.
#[derive(Clone, Copy, PartialEq, Eq, Debug, Structural)]
pub enum DriverError {
    /// The compiler's channel lacks the unstable features needed.
    UnsupportedChannel(Channel),
    /// The build orchestrator was ended by a signal.
    Signaled,
    /// An event came in a state that does not wait for it.
    OutOfTurn,
}

/// The outside work that the driver asks for next.
#[derive(Clone, Debug, PartialEq, Eq)]
pub enum DriverAction {
    /// Print the help text and exit with code 0.
    PrintHelp,
    /// Print the version and exit with code 0.
    PrintVersion,
    /// Ask the compiler for its channel and host.
    QueryCompiler,
    /// Make the synthetic sysroot for `target` in the workspace of the
    /// manifest at `manifest_path`, or of the current directory.
    BuildSysroot { target: String, manifest_path: Option<String> },
    /// Run the build orchestrator with `args` and with `environment` added
    /// to its environment.
    Launch { args: Vec<String>, environment: Vec<(String, String)> },
    /// Exit with the code of the build orchestrator.
    Exit { code: i32 },
    /// Report the error and exit with a failure.
    Fail { error: DriverError },
}

/// Whether `state` and `action` are what follows the start of the process
/// with `args`: help and version are answered at once, and anything else
/// begins with a question to the compiler.
pub open spec fn after_invoked(args: Seq<Seq<char>>, state: DriverState, action: DriverAction) -> bool {
    let rest = spec_strip_subcommand(args);
    match spec_early_exit(rest) {
        Some(EarlyExit::Help) => state is Finished && action is PrintHelp,
        Some(EarlyExit::Version) => state is Finished && action is PrintVersion,
        None => {
            &&& state matches DriverState::AwaitingCompiler { args: kept }
            &&& views(kept@) == rest
            &&& action is QueryCompiler
        },
    }
}

/// Whether `state` and `action` are what follows the compiler's answer: a
/// failure on a channel that is not supported, else the making of the
/// sysroot for the target resolved from `args` and `host`.
pub open spec fn after_compiler_known(
    args: Seq<Seq<char>>,
    channel: Channel,
    host: Seq<char>,
    state: DriverState,
    action: DriverAction,
) -> bool {
    if channel == Channel::Dev || channel == Channel::Nightly {
        let resolved = spec_resolve_target(args, host);
        &&& state matches DriverState::AwaitingSysroot { args: kept, target: real_target }
        &&& views(kept@) == resolved.1
        &&& real_target@ == resolved.0
        &&& action matches DriverAction::BuildSysroot { target: wanted, manifest_path }
        &&& wanted@ == resolved.0
        &&& match spec_get(args, "--manifest-path"@) {
            Some(found) => manifest_path is Some && manifest_path.unwrap()@ == found.0,
            None => manifest_path is None,
        }
    } else {
        &&& state is Finished
        &&& action == DriverAction::Fail { error: DriverError::UnsupportedChannel(channel) }
    }
}

/// Whether `action` starts the build orchestrator as it must be started once
/// the sysroot stands: with its action and `args`, and with the wrapper, the
/// sysroot and the real target in its environment.
pub open spec fn after_sysroot_ready(
    args: Seq<Seq<char>>,
    target: Seq<char>,
    sysroot: Seq<char>,
    wrapper: Seq<char>,
    state: DriverState,
    action: DriverAction,
) -> bool {
    &&& state is AwaitingChild
    &&& action matches DriverAction::Launch { args: command, environment }
    &&& views(command@) == seq![ORCHESTRATOR_ACTION@] + args
    &&& pair_views(environment@) == seq![
        (WRAPPER_VARIABLE@, wrapper),
        (SYSROOT_VARIABLE@, sysroot),
        (TARGET_VARIABLE@, target),
    ]
}

/// Whether `action` passes on how the build orchestrator ended: its exit
/// code as it is, or a failure where a signal ended it.
pub open spec fn after_child_ended(outcome: ChildOutcome, state: DriverState, action: DriverAction) -> bool {
    &&& state is Finished
    &&& action == match outcome {
        ChildOutcome::Exited(code) => DriverAction::Exit { code },
        ChildOutcome::Signaled => DriverAction::Fail { error: DriverError::Signaled },
    }
}

/// One step of the driver: from the state it is in and the event that came,
/// to the state it goes to and the outside work to do next. The caller does
/// that work and comes back with the event that it gives. An event that the
/// state does not wait for ends the driver with a failure.
pub fn cargo_command(state: DriverState, event: DriverEvent) -> (next: (DriverState, DriverAction))
    ensures
        match (state, event) {
            (DriverState::Start, DriverEvent::Invoked { args }) => after_invoked(
                views(args@),
                next.0,
                next.1,
            ),
            (
                DriverState::AwaitingCompiler { args },
                DriverEvent::CompilerKnown { channel, host },
            ) => after_compiler_known(views(args@), channel, host@, next.0, next.1),
            (
                DriverState::AwaitingSysroot { args, target },
                DriverEvent::SysrootReady { sysroot, wrapper },
            ) => after_sysroot_ready(views(args@), target@, sysroot@, wrapper@, next.0, next.1),
            (DriverState::AwaitingChild, DriverEvent::ChildEnded { outcome }) => after_child_ended(
                outcome,
                next.0,
                next.1,
            ),
            _ => next.0 is Finished && next.1 == (DriverAction::Fail {
                error: DriverError::OutOfTurn,
            }),
        },
{
    match (state, event) {
        (DriverState::Start, DriverEvent::Invoked { args }) => {
            let mut rest = args;
            strip_subcommand(&mut rest);
            match early_exit(rest.as_slice()) {
                Some(EarlyExit::Help) => (DriverState::Finished, DriverAction::PrintHelp),
                Some(EarlyExit::Version) => (DriverState::Finished, DriverAction::PrintVersion),
                None => (DriverState::AwaitingCompiler { args: rest }, DriverAction::QueryCompiler),
            }
        },
        (DriverState::AwaitingCompiler { args }, DriverEvent::CompilerKnown { channel, host }) => {
            if !channel_supported(channel) {
                return (
                    DriverState::Finished,
                    DriverAction::Fail { error: DriverError::UnsupportedChannel(channel) },
                );
            }
            let manifest_path = manifest_path_arg(args.as_slice());
            let mut list = ArgList::new(args);
            let target = resolve_target(&mut list, host.as_str());
            let wanted = target.clone();
            (
                DriverState::AwaitingSysroot { args: list.into_vec(), target },
                DriverAction::BuildSysroot { target: wanted, manifest_path },
            )
        },
        (
            DriverState::AwaitingSysroot { args, target },
            DriverEvent::SysrootReady { sysroot, wrapper },
        ) => {
            (
                DriverState::AwaitingChild,
                DriverAction::Launch {
                    args: orchestrator_args(args),
                    environment: orchestrator_environment(wrapper, sysroot, target),
                },
            )
        },
        (DriverState::AwaitingChild, DriverEvent::ChildEnded { outcome }) => {
            match outcome {
                ChildOutcome::Exited(code) => (DriverState::Finished, DriverAction::Exit { code }),
                ChildOutcome::Signaled => (
                    DriverState::Finished,
                    DriverAction::Fail { error: DriverError::Signaled },
                ),
            }
        },
        _ => (DriverState::Finished, DriverAction::Fail { error: DriverError::OutOfTurn }),
    }
}

} // verus!
