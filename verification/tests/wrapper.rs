use cargo_no_std_check::protocol::{
    select_role, Role, COMPILER_VARIABLE, ORCHESTRATOR_VARIABLE, PLACEHOLDER_TARGET, SYSROOT_FLAG,
    SYSROOT_VARIABLE, TARGET_FLAG, TARGET_VARIABLE, WRAPPER_VARIABLE,
};
use cargo_no_std_check::wrapper::{
    find_placeholder, rewrite_compiler_args, rustc_wrapper, CompilerInvocation, PlaceholderSite,
    WrapperError,
};

fn strings(items: &[&str]) -> Vec<String> {
    items.iter().map(|s| s.to_string()).collect()
}

#[test]
fn protocol_names() {
    assert_eq!(TARGET_FLAG, "--target");
    assert_eq!(SYSROOT_FLAG, "--sysroot");
    assert_eq!(PLACEHOLDER_TARGET, "no_std-fake-target");
    assert_eq!(SYSROOT_VARIABLE, "CARGO_NOSTD_CHECK");
    assert_eq!(TARGET_VARIABLE, "CARGO_NOSTD_TARGET");
    assert_eq!(WRAPPER_VARIABLE, "RUSTC_WRAPPER");
    assert_eq!(COMPILER_VARIABLE, "RUSTC");
    assert_eq!(ORCHESTRATOR_VARIABLE, "CARGO");
}

#[test]
fn role_goes_by_the_sentinel() {
    assert_eq!(select_role(None), Role::Driver);
    assert_eq!(
        select_role(Some("/ws/target/nostd_sysroot".to_string())),
        Role::Wrapper { sysroot: "/ws/target/nostd_sysroot".to_string() }
    );
    assert_eq!(select_role(Some(String::new())), Role::Wrapper { sysroot: String::new() });
}

#[test]
fn rewrite_spaced_placeholder() {
    let mut args = strings(&["rustc", "--crate-name", "x", "--target", "no_std-fake-target", "-O"]);
    assert!(rewrite_compiler_args(&mut args, "thumbv7em-none-eabi", "/sys".to_string()));
    assert_eq!(
        args,
        strings(&[
            "rustc",
            "--crate-name",
            "x",
            "--target",
            "thumbv7em-none-eabi",
            "-O",
            "--sysroot",
            "/sys",
        ])
    );
}

#[test]
fn rewrite_joined_placeholder() {
    let mut args = strings(&["rustc", "--target=no_std-fake-target", "src/lib.rs"]);
    assert!(rewrite_compiler_args(&mut args, "x86_64-unknown-linux-gnu", "/s p".to_string()));
    assert_eq!(
        args,
        strings(&[
            "rustc",
            "--target=x86_64-unknown-linux-gnu",
            "src/lib.rs",
            "--sysroot",
            "/s p",
        ])
    );
}

#[test]
fn rewrite_without_placeholder_changes_nothing() {
    let cases: Vec<Vec<String>> = vec![
        strings(&["rustc", "build.rs", "--crate-type", "bin"]),
        strings(&["rustc", "--target", "x86_64-unknown-linux-gnu"]),
        strings(&["rustc", "--target=x86_64-unknown-linux-gnu"]),
        strings(&["rustc", "--target"]),
        strings(&["rustc", "no_std-fake-target"]),
        strings(&["rustc", "--target=no_std-fake-target2"]),
        strings(&["rustc"]),
        Vec::new(),
    ];
    for case in cases {
        let mut args = case.clone();
        assert!(!rewrite_compiler_args(&mut args, "real", "/sys".to_string()));
        assert_eq!(args, case);
    }
}

#[test]
fn rewrite_stops_at_the_first_bare_target_flag() {
    let before = strings(&["rustc", "--target", "other", "--target=no_std-fake-target"]);
    let mut args = before.clone();
    assert!(!rewrite_compiler_args(&mut args, "real", "/sys".to_string()));
    assert_eq!(args, before);
    let before = strings(&["rustc", "--target", "other", "--target", "no_std-fake-target"]);
    let mut args = before.clone();
    assert!(!rewrite_compiler_args(&mut args, "real", "/sys".to_string()));
    assert_eq!(args, before);
}

#[test]
fn rewrite_passes_over_other_joined_targets() {
    let mut args = strings(&["rustc", "--target=other", "--target", "no_std-fake-target"]);
    assert!(rewrite_compiler_args(&mut args, "real", "/sys".to_string()));
    assert_eq!(args, strings(&["rustc", "--target=other", "--target", "real", "--sysroot", "/sys"]));
}

#[test]
fn rewrite_replaces_one_occurrence_only() {
    let mut args = strings(&[
        "--target=no_std-fake-target",
        "--target=no_std-fake-target",
        "--target",
        "no_std-fake-target",
    ]);
    assert!(rewrite_compiler_args(&mut args, "real", "/sys".to_string()));
    assert_eq!(
        args,
        strings(&[
            "--target=real",
            "--target=no_std-fake-target",
            "--target",
            "no_std-fake-target",
            "--sysroot",
            "/sys",
        ])
    );
    assert_eq!(args.iter().filter(|a| *a == "--sysroot").count(), 1);
}

#[test]
fn find_placeholder_tells_the_form() {
    assert_eq!(
        find_placeholder(&strings(&["a", "--target", "no_std-fake-target"])),
        Some(PlaceholderSite::Spaced(2))
    );
    assert_eq!(
        find_placeholder(&strings(&["a", "b", "--target=no_std-fake-target"])),
        Some(PlaceholderSite::Joined(2))
    );
    assert_eq!(find_placeholder(&strings(&["a", "--target", "t"])), None);
    assert_eq!(find_placeholder(&[]), None);
}

#[test]
fn wrapper_needs_a_compiler_argument() {
    assert_eq!(
        rustc_wrapper(Vec::new(), "/sys".to_string(), Some("t".to_string())),
        Err(WrapperError::ExpectedCompilerArgument)
    );
    assert_eq!(
        rustc_wrapper(Vec::new(), "/sys".to_string(), None),
        Err(WrapperError::ExpectedCompilerArgument)
    );
}

#[test]
fn wrapper_needs_the_real_target() {
    assert_eq!(
        rustc_wrapper(strings(&["rustc", "-vV"]), "/sys".to_string(), None),
        Err(WrapperError::MissingTarget)
    );
}

#[test]
fn wrapper_runs_the_first_argument_with_the_rest() {
    assert_eq!(
        rustc_wrapper(
            strings(&["/bin/rustc", "--target", "no_std-fake-target", "lib.rs"]),
            "/sys".to_string(),
            Some("real".to_string())
        ),
        Ok(CompilerInvocation {
            program: "/bin/rustc".to_string(),
            args: strings(&["--target", "real", "lib.rs", "--sysroot", "/sys"]),
        })
    );
    assert_eq!(
        rustc_wrapper(strings(&["rustc", "-vV"]), "/sys".to_string(), Some("real".to_string())),
        Ok(CompilerInvocation { program: "rustc".to_string(), args: strings(&["-vV"]) })
    );
    assert_eq!(
        rustc_wrapper(strings(&["rustc"]), "/sys".to_string(), Some("real".to_string())),
        Ok(CompilerInvocation { program: "rustc".to_string(), args: Vec::new() })
    );
}
