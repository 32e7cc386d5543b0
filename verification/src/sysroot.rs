//! The plan of a synthetic sysroot: which files of the compiler's installed
//! tree are copied, and where to. Every file under `bin` is taken; under
//! `lib`, the standard runtime library is left out of the target's tree.

use vstd::prelude::*;
use crate::args::views;
use crate::text::str_eq;

verus! {

/// A character that ends the library name inside a file name.
pub open spec fn is_separator(c: char) -> bool {
    c == '-' || c == '.'
}

/// The first position at or after `from` that holds a separator, or the
/// length of `name` where none does.
pub open spec fn first_separator_from(name: Seq<char>, from: int) -> int
    decreases name.len() - from,
{
    if from < 0 || from >= name.len() {
        name.len() as int
    } else if is_separator(name[from]) {
        from
    } else {
        first_separator_from(name, from + 1)
    }
}

/// The library that a file belongs to: its file name up to the first `-` or
/// `.`, or the whole file name where it holds neither.
pub open spec fn spec_library_name(file_name: Seq<char>) -> Seq<char> {
    file_name.subrange(0, first_separator_from(file_name, 0))
}

/// Whether a file belongs to the standard runtime library.
pub open spec fn is_standard_runtime(file_name: Seq<char>) -> bool {
    spec_library_name(file_name) == "libstd"@
}

/// `first_separator_from` is the least position from `from` on that holds a
/// separator, and the length where there is none.
pub proof fn lemma_first_separator_from(name: Seq<char>, from: int)
    requires
        0 <= from <= name.len(),
    ensures
        from <= first_separator_from(name, from) <= name.len(),
        first_separator_from(name, from) < name.len() ==> is_separator(
            name[first_separator_from(name, from)],
        ),
        forall|j: int|
            from <= j < first_separator_from(name, from) ==> !is_separator(#[trigger] name[j]),
    decreases name.len() - from,
{
    if from < name.len() && !is_separator(name[from]) {
        lemma_first_separator_from(name, from + 1);
    }
}

/// The library name of a file: see [`spec_library_name`].
pub fn library_name(file_name: &str) -> (name: String)
    ensures
        name@ == spec_library_name(file_name@),
{
    let len: usize = file_name.unicode_len();
    let mut end: usize = 0;
    let mut found = false;
    while end < len && !found
        invariant
            end <= len,
            len == file_name@.len(),
            found ==> end < len && is_separator(file_name@[end as int]),
            first_separator_from(file_name@, 0) == first_separator_from(file_name@, end as int),
        decreases len - end + (if found { 0int } else { 1int }),
    {
        let c = file_name.get_char(end);
        if c == '-' || c == '.' {
            found = true;
        } else {
            end += 1;
        }
    }
    file_name.substring_char(0, end).to_owned()
}

/// Whether the file named `file_name` belongs to the standard runtime
/// library.
pub fn is_libstd(file_name: &str) -> (skip: bool)
    ensures
        skip == is_standard_runtime(file_name@),
{
    let name = library_name(file_name);
    str_eq(name.as_str(), "libstd")
}

/// One of the two directories that a target's tree holds.
#[derive(Clone, Copy, PartialEq, Eq, Debug, Structural)]
pub enum Subtree {
    Bin,
    Lib,
}

/// A tree of the synthetic sysroot: the mirror of the host's tree, which
/// keeps everything, or the tree of the target that is checked.
#[derive(Clone, Copy, PartialEq, Eq, Debug, Structural)]
pub enum Tree {
    Host,
    Target,
}

/// An entry met while walking one subtree of the toolchain root.
#[derive(Clone, Debug, PartialEq, Eq)]
pub struct WalkedEntry {
    /// Whether the entry is a regular file.
    pub is_file: bool,
    /// The entry's file name, empty where it is not valid Unicode.
    pub file_name: String,
}

/// One copy: the `index`-th walked entry of the source's `subtree` goes to
/// the same relative place in `subtree` of the destination's `tree`.
#[derive(Clone, Copy, PartialEq, Eq, Debug, Structural)]
pub struct CopyStep {
    pub subtree: Subtree,
    pub index: usize,
    pub tree: Tree,
}

/// The tree that receives the binaries: the host's mirror where there is
/// one, else the target's tree.
pub open spec fn bin_tree(host_mirror: bool) -> Tree {
    if host_mirror {
        Tree::Host
    } else {
        Tree::Target
    }
}

/// The copies planned for the entry at `index` of `bin`.
pub open spec fn bin_entry_steps(entry: WalkedEntry, index: int, host_mirror: bool) -> Seq<
    CopyStep,
> {
    if entry.is_file {
        seq![CopyStep { subtree: Subtree::Bin, index: index as usize, tree: bin_tree(host_mirror) }]
    } else {
        Seq::empty()
    }
}

/// The copies planned for the entry at `index` of `lib`: one into the host's
/// mirror where there is one, then one into the target's tree unless the file
/// belongs to the standard runtime library.
pub open spec fn lib_entry_steps(entry: WalkedEntry, index: int, host_mirror: bool) -> Seq<
    CopyStep,
> {
    if entry.is_file {
        let host = if host_mirror {
            seq![CopyStep { subtree: Subtree::Lib, index: index as usize, tree: Tree::Host }]
        } else {
            Seq::empty()
        };
        let target = if is_standard_runtime(entry.file_name@) {
            Seq::empty()
        } else {
            seq![CopyStep { subtree: Subtree::Lib, index: index as usize, tree: Tree::Target }]
        };
        host + target
    } else {
        Seq::empty()
    }
}

/// The copies planned for the first `n` entries of `bin`.
pub open spec fn bin_steps(entries: Seq<WalkedEntry>, n: int, host_mirror: bool) -> Seq<CopyStep>
    decreases n,
{
    if n <= 0 {
        Seq::empty()
    } else {
        bin_steps(entries, n - 1, host_mirror) + bin_entry_steps(
            entries[n - 1],
            n - 1,
            host_mirror,
        )
    }
}

/// The copies planned for the first `n` entries of `lib`.
pub open spec fn lib_steps(entries: Seq<WalkedEntry>, n: int, host_mirror: bool) -> Seq<CopyStep>
    decreases n,
{
    if n <= 0 {
        Seq::empty()
    } else {
        lib_steps(entries, n - 1, host_mirror) + lib_entry_steps(
            entries[n - 1],
            n - 1,
            host_mirror,
        )
    }
}

/// The whole plan: the binaries in the order walked, then the libraries in
/// the order walked.
pub open spec fn spec_plan(
    bin_entries: Seq<WalkedEntry>,
    lib_entries: Seq<WalkedEntry>,
    host_mirror: bool,
) -> Seq<CopyStep> {
    bin_steps(bin_entries, bin_entries.len() as int, host_mirror) + lib_steps(
        lib_entries,
        lib_entries.len() as int,
        host_mirror,
    )
}

/// The directory of `subtree` in the tree of `triple`, as the path components
/// below a sysroot: `lib`, `rustlib`, the triple, then `bin` or `lib`.
pub open spec fn spec_subtree_dir(triple: Seq<char>, subtree: Subtree) -> Seq<Seq<char>> {
    seq![
        "lib"@,
        "rustlib"@,
        triple,
        match subtree {
            Subtree::Bin => "bin"@,
            Subtree::Lib => "lib"@,
        },
    ]
}

/// The directory of `subtree` in the tree of `triple`: see
/// [`spec_subtree_dir`].
pub fn subtree_dir(triple: &str, subtree: Subtree) -> (dir: Vec<String>)
    ensures
        views(dir@) == spec_subtree_dir(triple@, subtree),
{
    let mut dir: Vec<String> = Vec::new();
    dir.push("lib".to_owned());
    dir.push("rustlib".to_owned());
    dir.push(triple.to_owned());
    match subtree {
        Subtree::Bin => dir.push("bin".to_owned()),
        Subtree::Lib => dir.push("lib".to_owned()),
    }
    assert(views(dir@) =~= spec_subtree_dir(triple@, subtree));
    dir
}

/// The place of the synthetic sysroot, as the path components below the
/// workspace's root: `target`, then `nostd_sysroot`.
pub fn workspace_sysroot_dir() -> (dir: Vec<String>)
    ensures
        views(dir@) == seq!["target"@, "nostd_sysroot"@],
{
    let mut dir: Vec<String> = Vec::new();
    dir.push("target".to_owned());
    dir.push("nostd_sysroot".to_owned());
    assert(views(dir@) =~= seq!["target"@, "nostd_sysroot"@]);
    dir
}

/// The directory below the synthetic sysroot that a copy goes into: the
/// step's subtree in the tree of `host_target` or of `target`.
pub fn destination_dir(step: &CopyStep, host_target: &str, target: &str) -> (dir: Vec<String>)
    ensures
        views(dir@) == spec_subtree_dir(
            match step.tree {
                Tree::Host => host_target@,
                Tree::Target => target@,
            },
            step.subtree,
        ),
{
    match step.tree {
        Tree::Host => subtree_dir(host_target, step.subtree),
        Tree::Target => subtree_dir(target, step.subtree),
    }
}

/// Plans the copies that make the synthetic sysroot from the entries walked
/// under the source's `bin` and `lib`. With `host_mirror` the binaries and
/// all libraries go to the host's tree and the filtered libraries to the
/// target's; without it, everything planned goes to the target's tree.
pub fn plan_sysroot(
    bin_entries: &[WalkedEntry],
    lib_entries: &[WalkedEntry],
    host_mirror: bool,
) -> (plan: Vec<CopyStep>)
    ensures
        plan@ == spec_plan(bin_entries@, lib_entries@, host_mirror),
{
    let mut plan: Vec<CopyStep> = Vec::new();
    let bin_to = if host_mirror {
        Tree::Host
    } else {
        Tree::Target
    };
    let mut i: usize = 0;
    while i < bin_entries.len()
        invariant
            i <= bin_entries@.len(),
            bin_to == bin_tree(host_mirror),
            plan@ == bin_steps(bin_entries@, i as int, host_mirror),
        decreases bin_entries@.len() - i,
    {
        if bin_entries[i].is_file {
            plan.push(CopyStep { subtree: Subtree::Bin, index: i, tree: bin_to });
        }
        i += 1;
        assert(plan@ =~= bin_steps(bin_entries@, i as int, host_mirror));
    }
    let ghost bins = plan@;
    let mut k: usize = 0;
    while k < lib_entries.len()
        invariant
            k <= lib_entries@.len(),
            plan@ == bins + lib_steps(lib_entries@, k as int, host_mirror),
        decreases lib_entries@.len() - k,
    {
        if lib_entries[k].is_file {
            if host_mirror {
                plan.push(CopyStep { subtree: Subtree::Lib, index: k, tree: Tree::Host });
            }
            if !is_libstd(lib_entries[k].file_name.as_str()) {
                plan.push(CopyStep { subtree: Subtree::Lib, index: k, tree: Tree::Target });
            }
        }
        k += 1;
        assert(plan@ =~= bins + lib_steps(lib_entries@, k as int, host_mirror));
    }
    plan
}

/// What holds of every copy planned for the first `n` entries of `bin`: it
/// takes a regular file of `bin` to the tree that receives the binaries.
pub proof fn lemma_bin_steps(entries: Seq<WalkedEntry>, n: int, host_mirror: bool)
    requires
        0 <= n <= entries.len() <= usize::MAX,
    ensures
        forall|k: int|
            0 <= k < bin_steps(entries, n, host_mirror).len() ==> {
                let step = #[trigger] bin_steps(entries, n, host_mirror)[k];
                &&& step.subtree == Subtree::Bin
                &&& step.tree == bin_tree(host_mirror)
                &&& step.index < n
                &&& entries[step.index as int].is_file
            },
    decreases n,
{
    if n > 0 {
        lemma_bin_steps(entries, n - 1, host_mirror);
    }
}

/// What holds of every copy planned for the first `n` entries of `lib`: it
/// takes a regular file of `lib`, into the host's tree only where there is a
/// mirror, and into the target's tree only where the file does not belong to
/// the standard runtime library.
pub proof fn lemma_lib_steps(entries: Seq<WalkedEntry>, n: int, host_mirror: bool)
    requires
        0 <= n <= entries.len() <= usize::MAX,
    ensures
        forall|k: int|
            0 <= k < lib_steps(entries, n, host_mirror).len() ==> {
                let step = #[trigger] lib_steps(entries, n, host_mirror)[k];
                &&& step.subtree == Subtree::Lib
                &&& step.index < n
                &&& entries[step.index as int].is_file
                &&& step.tree == Tree::Host ==> host_mirror
                &&& step.tree == Tree::Target ==> !is_standard_runtime(
                    entries[step.index as int].file_name@,
                )
            },
    decreases n,
{
    if n > 0 {
        lemma_lib_steps(entries, n - 1, host_mirror);
    }
}

/// No file of the standard runtime library is planned into the target's
/// library subtree: every copy into it takes a regular file of `lib` whose
/// library name is not `libstd`.
pub proof fn lemma_target_lib_omits_standard_runtime(
    bin_entries: Seq<WalkedEntry>,
    lib_entries: Seq<WalkedEntry>,
    host_mirror: bool,
)
    requires
        bin_entries.len() <= usize::MAX,
        lib_entries.len() <= usize::MAX,
    ensures
        forall|k: int|
            0 <= k < spec_plan(bin_entries, lib_entries, host_mirror).len() ==> {
                let step = #[trigger] spec_plan(bin_entries, lib_entries, host_mirror)[k];
                step.subtree == Subtree::Lib && step.tree == Tree::Target ==> {
                    &&& step.index < lib_entries.len()
                    &&& lib_entries[step.index as int].is_file
                    &&& !is_standard_runtime(lib_entries[step.index as int].file_name@)
                }
            },
{
    lemma_bin_steps(bin_entries, bin_entries.len() as int, host_mirror);
    lemma_lib_steps(lib_entries, lib_entries.len() as int, host_mirror);
}

/// Every regular file among the first `n` entries of `bin` has its copy.
pub proof fn lemma_bin_steps_complete(
    entries: Seq<WalkedEntry>,
    n: int,
    host_mirror: bool,
    i: int,
)
    requires
        0 <= i < n <= entries.len(),
        entries[i].is_file,
    ensures
        bin_steps(entries, n, host_mirror).contains(
            CopyStep { subtree: Subtree::Bin, index: i as usize, tree: bin_tree(host_mirror) },
        ),
    decreases n,
{
    let wanted = CopyStep {
        subtree: Subtree::Bin,
        index: i as usize,
        tree: bin_tree(host_mirror),
    };
    let before = bin_steps(entries, n - 1, host_mirror);
    let last = bin_entry_steps(entries[n - 1], n - 1, host_mirror);
    if i == n - 1 {
        assert((before + last)[before.len() as int] == wanted);
    } else {
        lemma_bin_steps_complete(entries, n - 1, host_mirror, i);
        let k = choose|k: int| 0 <= k < before.len() && before[k] == wanted;
        assert((before + last)[k] == wanted);
    }
}

/// Every regular file among the first `n` entries of `lib` has its copy into
/// the target's tree unless it belongs to the standard runtime library, and
/// its copy into the host's tree where there is a mirror.
pub proof fn lemma_lib_steps_complete(
    entries: Seq<WalkedEntry>,
    n: int,
    host_mirror: bool,
    i: int,
)
    requires
        0 <= i < n <= entries.len(),
        entries[i].is_file,
    ensures
        !is_standard_runtime(entries[i].file_name@) ==> lib_steps(entries, n, host_mirror).contains(
            CopyStep { subtree: Subtree::Lib, index: i as usize, tree: Tree::Target },
        ),
        host_mirror ==> lib_steps(entries, n, host_mirror).contains(
            CopyStep { subtree: Subtree::Lib, index: i as usize, tree: Tree::Host },
        ),
    decreases n,
{
    let to_target = CopyStep { subtree: Subtree::Lib, index: i as usize, tree: Tree::Target };
    let to_host = CopyStep { subtree: Subtree::Lib, index: i as usize, tree: Tree::Host };
    let before = lib_steps(entries, n - 1, host_mirror);
    let last = lib_entry_steps(entries[n - 1], n - 1, host_mirror);
    if i == n - 1 {
        if host_mirror {
            assert((before + last)[before.len() as int] == to_host);
        }
        if !is_standard_runtime(entries[i].file_name@) {
            assert((before + last)[before.len() + last.len() - 1] == to_target);
        }
    } else {
        lemma_lib_steps_complete(entries, n - 1, host_mirror, i);
        if host_mirror {
            let k = choose|k: int| 0 <= k < before.len() && before[k] == to_host;
            assert((before + last)[k] == to_host);
        }
        if !is_standard_runtime(entries[i].file_name@) {
            let k = choose|k: int| 0 <= k < before.len() && before[k] == to_target;
            assert((before + last)[k] == to_target);
        }
    }
}

/// Nothing else is left out: the plan holds a copy of every regular file
/// under `bin`, a copy into the target's tree of every regular file under
/// `lib` that does not belong to the standard runtime library, and, with a
/// mirror, a copy into the host's tree of every regular file under `lib`.
pub proof fn lemma_plan_is_complete(
    bin_entries: Seq<WalkedEntry>,
    lib_entries: Seq<WalkedEntry>,
    host_mirror: bool,
)
    ensures
        forall|i: int|
            0 <= i < bin_entries.len() && (#[trigger] bin_entries[i]).is_file ==> spec_plan(
                bin_entries,
                lib_entries,
                host_mirror,
            ).contains(
                CopyStep { subtree: Subtree::Bin, index: i as usize, tree: bin_tree(host_mirror) },
            ),
        forall|i: int|
            0 <= i < lib_entries.len() && (#[trigger] lib_entries[i]).is_file
                && !is_standard_runtime(lib_entries[i].file_name@) ==> spec_plan(
                bin_entries,
                lib_entries,
                host_mirror,
            ).contains(CopyStep { subtree: Subtree::Lib, index: i as usize, tree: Tree::Target }),
        forall|i: int|
            0 <= i < lib_entries.len() && (#[trigger] lib_entries[i]).is_file && host_mirror
                ==> spec_plan(bin_entries, lib_entries, host_mirror).contains(
                CopyStep { subtree: Subtree::Lib, index: i as usize, tree: Tree::Host },
            ),
{
    let bins = bin_steps(bin_entries, bin_entries.len() as int, host_mirror);
    let libs = lib_steps(lib_entries, lib_entries.len() as int, host_mirror);
    let plan = spec_plan(bin_entries, lib_entries, host_mirror);
    assert forall|i: int| 0 <= i < bin_entries.len() && (#[trigger] bin_entries[i]).is_file implies plan.contains(
        CopyStep { subtree: Subtree::Bin, index: i as usize, tree: bin_tree(host_mirror) },
    ) by {
        let wanted = CopyStep {
            subtree: Subtree::Bin,
            index: i as usize,
            tree: bin_tree(host_mirror),
        };
        lemma_bin_steps_complete(bin_entries, bin_entries.len() as int, host_mirror, i);
        let k = choose|k: int| 0 <= k < bins.len() && bins[k] == wanted;
        assert(plan[k] == wanted);
    }
    assert forall|i: int|
        0 <= i < lib_entries.len() && (#[trigger] lib_entries[i]).is_file && !is_standard_runtime(
            lib_entries[i].file_name@,
        ) implies plan.contains(
        CopyStep { subtree: Subtree::Lib, index: i as usize, tree: Tree::Target },
    ) by {
        let wanted = CopyStep { subtree: Subtree::Lib, index: i as usize, tree: Tree::Target };
        lemma_lib_steps_complete(lib_entries, lib_entries.len() as int, host_mirror, i);
        let k = choose|k: int| 0 <= k < libs.len() && libs[k] == wanted;
        assert(plan[bins.len() + k] == wanted);
    }
    assert forall|i: int|
        0 <= i < lib_entries.len() && (#[trigger] lib_entries[i]).is_file
            && host_mirror implies plan.contains(
        CopyStep { subtree: Subtree::Lib, index: i as usize, tree: Tree::Host },
    ) by {
        let wanted = CopyStep { subtree: Subtree::Lib, index: i as usize, tree: Tree::Host };
        lemma_lib_steps_complete(lib_entries, lib_entries.len() as int, host_mirror, i);
        let k = choose|k: int| 0 <= k < libs.len() && libs[k] == wanted;
        assert(plan[bins.len() + k] == wanted);
    }
}

/// Whether an entry is a regular file.
pub open spec fn is_regular(entry: WalkedEntry) -> bool {
    entry.is_file
}

/// Whether a copy takes a file of `bin`.
pub open spec fn from_bin(step: CopyStep) -> bool {
    step.subtree == Subtree::Bin
}

/// A filter keeps the last element of a sequence exactly where that element
/// passes it.
pub proof fn lemma_filter_push<A>(s: Seq<A>, last: A, pred: spec_fn(A) -> bool)
    ensures
        s.push(last).filter(pred) == if pred(last) {
            s.filter(pred).push(last)
        } else {
            s.filter(pred)
        },
{
    reveal(Seq::filter);
    assert(s.push(last).drop_last() =~= s);
}

/// The copies planned for the first `n` entries of `bin` all take a file of
/// `bin`, and there is one for each regular file among those entries.
pub proof fn lemma_bin_steps_count(entries: Seq<WalkedEntry>, n: int, host_mirror: bool)
    requires
        0 <= n <= entries.len(),
    ensures
        bin_steps(entries, n, host_mirror).filter(|s: CopyStep| from_bin(s)) == bin_steps(
            entries,
            n,
            host_mirror,
        ),
        bin_steps(entries, n, host_mirror).len() == entries.subrange(0, n).filter(
            |e: WalkedEntry| is_regular(e),
        ).len(),
    decreases n,
{
    let from = |s: CopyStep| from_bin(s);
    let regular = |e: WalkedEntry| is_regular(e);
    if n > 0 {
        lemma_bin_steps_count(entries, n - 1, host_mirror);
        let before = bin_steps(entries, n - 1, host_mirror);
        let entry = entries[n - 1];
        assert(entries.subrange(0, n) =~= entries.subrange(0, n - 1).push(entry));
        lemma_filter_push(entries.subrange(0, n - 1), entry, regular);
        if entry.is_file {
            let step = CopyStep {
                subtree: Subtree::Bin,
                index: (n - 1) as usize,
                tree: bin_tree(host_mirror),
            };
            assert(bin_steps(entries, n, host_mirror) =~= before.push(step));
            lemma_filter_push(before, step, from);
        } else {
            assert(bin_steps(entries, n, host_mirror) =~= before);
        }
    } else {
        assert(entries.subrange(0, n) =~= Seq::<WalkedEntry>::empty());
        lemma_filter_none(entries.subrange(0, n), regular);
        lemma_filter_none(bin_steps(entries, n, host_mirror), from);
        assert(bin_steps(entries, n, host_mirror).filter(from) =~= bin_steps(
            entries,
            n,
            host_mirror,
        ));
    }
}

/// A filter keeps nothing of a sequence in which no element passes it.
pub proof fn lemma_filter_none<A>(s: Seq<A>, pred: spec_fn(A) -> bool)
    requires
        forall|k: int| 0 <= k < s.len() ==> !pred(#[trigger] s[k]),
    ensures
        s.filter(pred).len() == 0,
    decreases s.len(),
{
    reveal(Seq::filter);
    if s.len() > 0 {
        lemma_filter_none(s.drop_last(), pred);
    }
}

/// None of the copies planned for `lib` takes a file of `bin`.
pub proof fn lemma_lib_steps_count(entries: Seq<WalkedEntry>, n: int, host_mirror: bool)
    requires
        0 <= n <= entries.len(),
    ensures
        lib_steps(entries, n, host_mirror).filter(|s: CopyStep| from_bin(s)).len() == 0,
    decreases n,
{
    let from = |s: CopyStep| from_bin(s);
    if n > 0 {
        lemma_lib_steps_count(entries, n - 1, host_mirror);
        let before = lib_steps(entries, n - 1, host_mirror);
        let last = lib_entry_steps(entries[n - 1], n - 1, host_mirror);
        Seq::filter_distributes_over_add(before, last, from);
        lemma_filter_none(last, from);
    } else {
        lemma_filter_none(lib_steps(entries, n, host_mirror), from);
    }
}

/// Every file under `bin` is planned, unfiltered: the plan holds as many
/// copies of files of `bin` as `bin` holds regular files.
pub proof fn lemma_bin_copied_unfiltered(
    bin_entries: Seq<WalkedEntry>,
    lib_entries: Seq<WalkedEntry>,
    host_mirror: bool,
)
    ensures
        spec_plan(bin_entries, lib_entries, host_mirror).filter(|s: CopyStep| from_bin(s)).len()
            == bin_entries.filter(|e: WalkedEntry| is_regular(e)).len(),
{
    let from = |s: CopyStep| from_bin(s);
    let bins = bin_steps(bin_entries, bin_entries.len() as int, host_mirror);
    let libs = lib_steps(lib_entries, lib_entries.len() as int, host_mirror);
    lemma_bin_steps_count(bin_entries, bin_entries.len() as int, host_mirror);
    lemma_lib_steps_count(lib_entries, lib_entries.len() as int, host_mirror);
    Seq::filter_distributes_over_add(bins, libs, from);
    assert(bin_entries.subrange(0, bin_entries.len() as int) =~= bin_entries);
}

} // verus!
