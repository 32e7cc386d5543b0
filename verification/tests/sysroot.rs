use cargo_no_std_check::sysroot::{
    destination_dir, is_libstd, library_name, plan_sysroot, subtree_dir, workspace_sysroot_dir,
    CopyStep, Subtree, Tree, WalkedEntry,
};

fn file(name: &str) -> WalkedEntry {
    WalkedEntry { is_file: true, file_name: name.to_string() }
}

fn dir(name: &str) -> WalkedEntry {
    WalkedEntry { is_file: false, file_name: name.to_string() }
}

fn step(subtree: Subtree, index: usize, tree: Tree) -> CopyStep {
    CopyStep { subtree, index, tree }
}

#[test]
fn library_name_ends_at_first_separator() {
    assert_eq!(library_name("libstd-0a1b2c3d.rlib"), "libstd");
    assert_eq!(library_name("libstd.so"), "libstd");
    assert_eq!(library_name("libcore-0a1b2c3d.rlib"), "libcore");
    assert_eq!(library_name("libstd_detect-77.rlib"), "libstd_detect");
    assert_eq!(library_name("libtest.so.1-2"), "libtest");
    assert_eq!(library_name("README"), "README");
    assert_eq!(library_name(".hidden"), "");
    assert_eq!(library_name("-x"), "");
    assert_eq!(library_name(""), "");
    assert_eq!(library_name("lïb-é"), "lïb");
}

#[test]
fn is_libstd_goes_by_the_library_name() {
    assert!(is_libstd("libstd-0a1b2c3d.rlib"));
    assert!(is_libstd("libstd-0a1b2c3d.so"));
    assert!(is_libstd("libstd.rlib"));
    assert!(is_libstd("libstd"));
    assert!(!is_libstd("libstd_detect-0a1b.rlib"));
    assert!(!is_libstd("libstdc++.a"));
    assert!(!is_libstd("libcore-0a1b.rlib"));
    assert!(!is_libstd("liblibstd-1.rlib"));
    assert!(!is_libstd(""));
}

#[test]
fn plan_without_mirror_filters_the_target_tree() {
    let bin = vec![dir("bin"), file("rust-lld"), file("gcc-ld")];
    let lib = vec![
        dir("lib"),
        file("libcore-1.rlib"),
        file("libstd-1.rlib"),
        file("liballoc-1.rlib"),
        file("libstd-1.so"),
    ];
    let plan = plan_sysroot(&bin, &lib, false);
    assert_eq!(
        plan,
        vec![
            step(Subtree::Bin, 1, Tree::Target),
            step(Subtree::Bin, 2, Tree::Target),
            step(Subtree::Lib, 1, Tree::Target),
            step(Subtree::Lib, 3, Tree::Target),
        ]
    );
}

#[test]
fn plan_with_mirror_keeps_everything_for_the_host() {
    let bin = vec![file("rust-lld")];
    let lib = vec![file("libstd-1.rlib"), dir("self-contained"), file("libcore-1.rlib")];
    let plan = plan_sysroot(&bin, &lib, true);
    assert_eq!(
        plan,
        vec![
            step(Subtree::Bin, 0, Tree::Host),
            step(Subtree::Lib, 0, Tree::Host),
            step(Subtree::Lib, 2, Tree::Host),
            step(Subtree::Lib, 2, Tree::Target),
        ]
    );
}

#[test]
fn plan_of_nothing_is_empty() {
    assert_eq!(plan_sysroot(&[], &[], false), Vec::<CopyStep>::new());
    assert_eq!(plan_sysroot(&[dir("bin")], &[dir("lib")], true), Vec::<CopyStep>::new());
}

#[test]
fn plan_never_puts_the_standard_runtime_into_the_target_tree() {
    let lib = vec![
        file("libstd-aa.rlib"),
        file("libfoo.rlib"),
        file("libstd.so"),
        file("libstd_extra.rlib"),
        file("x"),
        file("libstd-bb.rmeta"),
    ];
    for mirror in [false, true] {
        let plan = plan_sysroot(&[], &lib, mirror);
        let into_target: Vec<usize> = plan
            .iter()
            .filter(|s| s.subtree == Subtree::Lib && s.tree == Tree::Target)
            .map(|s| s.index)
            .collect();
        assert_eq!(into_target, vec![1, 3, 4]);
        for index in into_target {
            assert_ne!(library_name(&lib[index].file_name), "libstd");
        }
    }
}

#[test]
fn plan_copies_every_file_under_bin() {
    let bin = vec![file("libstd-1.rlib"), file("a"), dir("d"), file("b.exe"), file("libstd")];
    let lib = vec![file("libcore.rlib"), file("libstd.rlib")];
    for mirror in [false, true] {
        let plan = plan_sysroot(&bin, &lib, mirror);
        let from_bin: Vec<usize> =
            plan.iter().filter(|s| s.subtree == Subtree::Bin).map(|s| s.index).collect();
        assert_eq!(from_bin.len(), 4);
        assert_eq!(from_bin, vec![0, 1, 3, 4]);
    }
}

#[test]
fn directories_follow_the_compiler_layout() {
    assert_eq!(
        subtree_dir("x86_64-unknown-linux-gnu", Subtree::Bin),
        vec!["lib", "rustlib", "x86_64-unknown-linux-gnu", "bin"]
    );
    assert_eq!(
        subtree_dir("thumbv7em-none-eabi", Subtree::Lib),
        vec!["lib", "rustlib", "thumbv7em-none-eabi", "lib"]
    );
    assert_eq!(workspace_sysroot_dir(), vec!["target", "nostd_sysroot"]);
}

#[test]
fn destination_goes_by_the_tree() {
    let host = step(Subtree::Lib, 0, Tree::Host);
    let target = step(Subtree::Bin, 7, Tree::Target);
    assert_eq!(destination_dir(&host, "h-triple", "t-triple"), vec!["lib", "rustlib", "h-triple", "lib"]);
    assert_eq!(
        destination_dir(&target, "h-triple", "t-triple"),
        vec!["lib", "rustlib", "t-triple", "bin"]
    );
}
