//! The wrapper phase: a compiler invocation that carries the placeholder
//! target gets the real target and the synthetic sysroot; any other is left
//! as it came.

use vstd::prelude::*;
use crate::args::views;
use crate::protocol::{PLACEHOLDER_TARGET, SYSROOT_FLAG, TARGET_FLAG};
use crate::text::{join_equals, joined, str_eq};

verus! {

/// Where an argument vector carries the placeholder target.
#[derive(Clone, Copy, PartialEq, Eq, Debug, Structural)]
pub enum PlaceholderSite {
    /// As the argument at this position, behind the bare target flag.
    Spaced(usize),
    /// Inside the argument at this position, which is the target flag, `=`
    /// and the placeholder.
    Joined(usize),
}

/// The place of the placeholder target at or after `from`. The scan ends at
/// the first bare target flag, whatever follows it, and at the first argument
/// that joins the flag and the placeholder.
pub open spec fn placeholder_site_from(args: Seq<Seq<char>>, from: int) -> Option<PlaceholderSite>
    decreases args.len() - from,
{
    if from < 0 || from >= args.len() {
        None
    } else if args[from] == TARGET_FLAG@ {
        if from + 1 < args.len() && args[from + 1] == PLACEHOLDER_TARGET@ {
            Some(PlaceholderSite::Spaced((from + 1) as usize))
        } else {
            None
        }
    } else if args[from] == joined(TARGET_FLAG@, PLACEHOLDER_TARGET@) {
        Some(PlaceholderSite::Joined(from as usize))
    } else {
        placeholder_site_from(args, from + 1)
    }
}

/// The place of the placeholder target in `args`.
pub open spec fn placeholder_site(args: Seq<Seq<char>>) -> Option<PlaceholderSite> {
    placeholder_site_from(args, 0)
}

/// The invocation that the compiler is to get: with the placeholder replaced
/// by `target` and the sysroot flag with `sysroot` at the end, or `args`
/// unchanged where they carry no placeholder.
pub open spec fn spec_rewrite(args: Seq<Seq<char>>, target: Seq<char>, sysroot: Seq<char>) -> Seq<
    Seq<char>,
> {
    match placeholder_site(args) {
        None => args,
        Some(PlaceholderSite::Spaced(i)) => args.update(i as int, target).push(SYSROOT_FLAG@).push(
            sysroot,
        ),
        Some(PlaceholderSite::Joined(i)) => args.update(
            i as int,
            joined(TARGET_FLAG@, target),
        ).push(SYSROOT_FLAG@).push(sysroot),
    }
}

/// The place of the placeholder target in `args`: see
/// [`placeholder_site_from`].
pub fn find_placeholder(args: &[String]) -> (site: Option<PlaceholderSite>)
    ensures
        site == placeholder_site(views(args@)),
        match site {
            Some(PlaceholderSite::Spaced(i)) => 0 < i < args@.len(),
            Some(PlaceholderSite::Joined(i)) => i < args@.len(),
            None => true,
        },
{
    let ghost all = views(args@);
    let mut i: usize = 0;
    while i < args.len()
        invariant
            i <= args@.len(),
            all == views(args@),
            placeholder_site(all) == placeholder_site_from(all, i as int),
        decreases args@.len() - i,
    {
        assert(all[i as int] == args@[i as int]@);
        if str_eq(args[i].as_str(), TARGET_FLAG) {
            if i + 1 < args.len() {
                assert(all[i + 1] == args@[i + 1]@);
                if str_eq(args[i + 1].as_str(), PLACEHOLDER_TARGET) {
                    return Some(PlaceholderSite::Spaced(i + 1));
                }
            }
            return None;
        }
        if str_eq(args[i].as_str(), "--target=no_std-fake-target") {
            proof {
                lemma_joined_placeholder();
            }
            return Some(PlaceholderSite::Joined(i));
        }
        proof {
            lemma_joined_placeholder();
        }
        i += 1;
    }
    None
}

/// The target flag, `=` and the placeholder, written out.
pub proof fn lemma_joined_placeholder()
    ensures
        "--target=no_std-fake-target"@ == joined(TARGET_FLAG@, PLACEHOLDER_TARGET@),
{
    reveal_strlit("--target=no_std-fake-target");
    reveal_strlit("--target");
    reveal_strlit("no_std-fake-target");
    assert("--target=no_std-fake-target"@ =~= joined("--target"@, "no_std-fake-target"@));
}

/// Puts the real target in the place of the placeholder and adds the sysroot
/// flag with `sysroot` at the end. Where `args` carry no placeholder they stay
/// as they are. Says whether the placeholder was there.
pub fn rewrite_compiler_args(args: &mut Vec<String>, target: &str, sysroot: String) -> (rewritten:
    bool)
    ensures
        views(final(args)@) == spec_rewrite(views(old(args)@), target@, sysroot@),
        rewritten == (placeholder_site(views(old(args)@)) is Some),
        !rewritten ==> final(args)@ == old(args)@,
        rewritten ==> final(args)@.len() == old(args)@.len() + 2,
{
    match find_placeholder(args.as_slice()) {
        None => false,
        Some(site) => {
            match site {
                PlaceholderSite::Spaced(i) => {
                    args.set(i, target.to_owned());
                },
                PlaceholderSite::Joined(i) => {
                    args.set(i, join_equals(TARGET_FLAG, target));
                },
            }
            args.push(SYSROOT_FLAG.to_owned());
            args.push(sysroot);
            assert(views(args@) =~= spec_rewrite(views(old(args)@), target@, sysroot@));
            true
        },
    }
}

/// The compiler to run and the arguments to hand it.
#[derive(Clone, Debug, PartialEq, Eq)]
pub struct CompilerInvocation {
    pub program: String,
    pub args: Vec<String>,
}

/// Why the wrapper cannot run the compiler.
#[derive(Clone, Copy, PartialEq, Eq, Debug, Structural)]
pub enum WrapperError {
    /// The argument vector is empty: it does not even name the compiler.
    ExpectedCompilerArgument,
    /// The environment does not hold the real target.
    MissingTarget,
}

/// The wrapper's whole decision. `args` are the compiler's path and its
/// arguments, `sysroot` is the synthetic sysroot and `target` the real target
/// as the environment gave it. The compiler is the first argument; it gets the
/// others, rewritten as [`spec_rewrite`] says.
pub fn rustc_wrapper(args: Vec<String>, sysroot: String, target: Option<String>) -> (invocation:
    Result<CompilerInvocation, WrapperError>)
    ensures
        args@.len() == 0 ==> invocation == Err::<CompilerInvocation, WrapperError>(
            WrapperError::ExpectedCompilerArgument,
        ),
        args@.len() > 0 && target is None ==> invocation == Err::<CompilerInvocation, WrapperError>(
            WrapperError::MissingTarget,
        ),
        args@.len() > 0 && target is Some ==> invocation is Ok && seq![
            invocation.unwrap().program@,
        ] + views(invocation.unwrap().args@) == spec_rewrite(
            views(args@),
            target.unwrap()@,
            sysroot@,
        ),
{
    if args.len() == 0 {
        return Err(WrapperError::ExpectedCompilerArgument);
    }
    match target {
        None => Err(WrapperError::MissingTarget),
        Some(real_target) => {
            let mut rest = args;
            let _ = rewrite_compiler_args(&mut rest, real_target.as_str(), sysroot);
            let ghost whole = views(rest@);
            let program = rest.remove(0);
            assert(seq![program@] + views(rest@) =~= whole);
            Ok(CompilerInvocation { program, args: rest })
        },
    }
}

/// No argument at or after `from` is the placeholder target or joins the
/// target flag and the placeholder: then no place is found from there.
pub proof fn lemma_no_placeholder_from(args: Seq<Seq<char>>, from: int)
    requires
        0 <= from,
        forall|j: int|
            from <= j < args.len() ==> #[trigger] args[j] != PLACEHOLDER_TARGET@ && args[j]
                != joined(TARGET_FLAG@, PLACEHOLDER_TARGET@),
    ensures
        placeholder_site_from(args, from) is None,
    decreases args.len() - from,
{
    if from < args.len() {
        if args[from] == TARGET_FLAG@ {
            if from + 1 < args.len() {
                assert(args[from + 1] != PLACEHOLDER_TARGET@);
            }
        } else {
            lemma_no_placeholder_from(args, from + 1);
        }
    }
}

/// Rewriting changes nothing where the placeholder target is not present:
/// where no argument is the placeholder or joins the target flag and the
/// placeholder, the vector stays as it is.
pub proof fn lemma_rewrite_without_placeholder(
    args: Seq<Seq<char>>,
    target: Seq<char>,
    sysroot: Seq<char>,
)
    requires
        forall|j: int|
            0 <= j < args.len() ==> #[trigger] args[j] != PLACEHOLDER_TARGET@ && args[j] != joined(
                TARGET_FLAG@,
                PLACEHOLDER_TARGET@,
            ),
    ensures
        spec_rewrite(args, target, sysroot) == args,
{
    lemma_no_placeholder_from(args, 0);
}

/// What the scan finds lies inside the vector and holds the placeholder:
/// behind a bare target flag, or joined to the flag.
pub proof fn lemma_placeholder_site(args: Seq<Seq<char>>, from: int)
    requires
        0 <= from,
        args.len() <= usize::MAX,
    ensures
        match placeholder_site_from(args, from) {
            Some(PlaceholderSite::Spaced(i)) => {
                &&& from < i < args.len()
                &&& args[i - 1] == TARGET_FLAG@
                &&& args[i as int] == PLACEHOLDER_TARGET@
            },
            Some(PlaceholderSite::Joined(i)) => {
                &&& from <= i < args.len()
                &&& args[i as int] == joined(TARGET_FLAG@, PLACEHOLDER_TARGET@)
            },
            None => true,
        },
    decreases args.len() - from,
{
    if from < args.len() && args[from] != TARGET_FLAG@ && args[from] != joined(
        TARGET_FLAG@,
        PLACEHOLDER_TARGET@,
    ) {
        lemma_placeholder_site(args, from + 1);
    }
}

/// Where the placeholder target is present, rewriting replaces exactly that
/// occurrence and appends exactly one sysroot flag with its value: the
/// vector grows by two, its last two arguments are the flag and the sysroot,
/// and every other argument but the one at the place found stays.
pub proof fn lemma_rewrite_with_placeholder(
    args: Seq<Seq<char>>,
    target: Seq<char>,
    sysroot: Seq<char>,
)
    requires
        args.len() <= usize::MAX,
        placeholder_site(args) is Some,
    ensures
        ({
            let after = spec_rewrite(args, target, sysroot);
            let at = match placeholder_site(args).unwrap() {
                PlaceholderSite::Spaced(i) => i as int,
                PlaceholderSite::Joined(i) => i as int,
            };
            &&& 0 <= at < args.len()
            &&& after.len() == args.len() + 2
            &&& after[args.len() as int] == SYSROOT_FLAG@
            &&& after[args.len() as int + 1] == sysroot
            &&& forall|j: int| 0 <= j < args.len() && j != at ==> #[trigger] after[j] == args[j]
            &&& placeholder_site(args).unwrap() is Spaced ==> after[at] == target
            &&& placeholder_site(args).unwrap() is Joined ==> after[at] == joined(TARGET_FLAG@, target)
        }),
{
    lemma_placeholder_site(args, 0);
}

} // verus!
