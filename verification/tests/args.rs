use cargo_no_std_check::args::{
    find_flag, get_arg, get_arg_equals, get_arg_in, get_flag, manifest_path_arg, ArgList, FoundArg,
};
use cargo_no_std_check::text::{join_equals, split_equals, str_eq};

fn strings(items: &[&str]) -> Vec<String> {
    items.iter().map(|s| s.to_string()).collect()
}

#[test]
fn get_arg_reads_spaced_form() {
    let args = strings(&["--verbose", "--target", "foo", "--release"]);
    assert_eq!(get_arg(&args, "--target"), Some("foo".to_string()));
    assert_eq!(
        get_arg_in(&args, "--target"),
        Some(FoundArg { value: "foo".to_string(), start: 1, end: 3 })
    );
}

#[test]
fn get_arg_reads_equals_form() {
    let args = strings(&["--verbose", "--release", "--target=foo"]);
    assert_eq!(get_arg(&args, "--target"), Some("foo".to_string()));
    assert_eq!(
        get_arg_in(&args, "--target"),
        Some(FoundArg { value: "foo".to_string(), start: 2, end: 3 })
    );
}

#[test]
fn get_arg_absent() {
    let args = strings(&["--verbose", "--release"]);
    assert_eq!(get_arg(&args, "--target"), None);
    assert_eq!(get_arg_in(&args, "--target"), None);
    assert_eq!(get_arg(&[], "--target"), None);
}

#[test]
fn get_arg_switch_without_value_stops_the_scan() {
    let args = strings(&["--release", "--target"]);
    assert_eq!(get_arg(&args, "--target"), None);
}

#[test]
fn get_arg_takes_first_occurrence_only() {
    let args = strings(&["--target=first", "--target", "second"]);
    assert_eq!(get_arg(&args, "--target"), Some("first".to_string()));
    let args = strings(&["--target", "first", "--target=second"]);
    assert_eq!(
        get_arg_in(&args, "--target"),
        Some(FoundArg { value: "first".to_string(), start: 0, end: 2 })
    );
}

#[test]
fn get_arg_value_may_be_another_flag() {
    let args = strings(&["--target", "--target=x"]);
    assert_eq!(get_arg(&args, "--target"), Some("--target=x".to_string()));
}

#[test]
fn get_arg_needs_the_whole_name() {
    let args = strings(&["--target-dir=out", "--targets", "x", "--targe=t"]);
    assert_eq!(get_arg(&args, "--target"), None);
    assert_eq!(get_arg(&args, "--target-dir"), Some("out".to_string()));
}

#[test]
fn get_arg_splits_at_first_equals_sign() {
    let args = strings(&["--cfg=feature=\"std\"", "--target="]);
    assert_eq!(get_arg(&args, "--cfg"), Some("feature=\"std\"".to_string()));
    assert_eq!(get_arg(&args, "--target"), Some(String::new()));
}

#[test]
fn get_arg_handles_characters_of_several_bytes() {
    let args = strings(&["--näme=wért", "--näme", "x"]);
    assert_eq!(get_arg(&args, "--näme"), Some("wért".to_string()));
    assert_eq!(get_arg(&args, "--n"), None);
}

#[test]
fn get_arg_equals_agrees_with_get_arg() {
    let args = strings(&["build", "--manifest-path", "a/Cargo.toml", "--target=t"]);
    assert_eq!(get_arg_equals("--manifest-path", &args), Some("a/Cargo.toml".to_string()));
    assert_eq!(get_arg_equals("--target", &args), Some("t".to_string()));
    assert_eq!(get_arg_equals("--missing", &args), None);
}

#[test]
fn manifest_path_arg_reads_both_forms() {
    assert_eq!(
        manifest_path_arg(&strings(&["--manifest-path", "x/Cargo.toml"])),
        Some("x/Cargo.toml".to_string())
    );
    assert_eq!(
        manifest_path_arg(&strings(&["-v", "--manifest-path=y/Cargo.toml"])),
        Some("y/Cargo.toml".to_string())
    );
    assert_eq!(manifest_path_arg(&strings(&["-v", "--target", "t"])), None);
}

#[test]
fn get_flag_finds_bare_switch_only() {
    let args = strings(&["--verbose", "--help=1", "-h"]);
    assert!(get_flag(&args, "-h"));
    assert!(get_flag(&args, "--verbose"));
    assert!(!get_flag(&args, "--help"));
    assert!(!get_flag(&args, "--version"));
    assert!(!get_flag(&[], "-h"));
}

#[test]
fn find_flag_gives_first_position() {
    let args = strings(&["a", "--x", "b", "--x"]);
    assert_eq!(find_flag(&args, "--x"), Some(1));
    assert_eq!(find_flag(&args, "b"), Some(2));
    assert_eq!(find_flag(&args, "--y"), None);
    let list = ArgList::new(args);
    assert_eq!(list.find("--x"), Some(1));
    assert_eq!(list.find("--y"), None);
    assert_eq!(list.len(), 4);
}

#[test]
fn replace_splices_a_range() {
    let mut list = ArgList::new(strings(&["a", "b", "c", "d"]));
    list.replace(1, 3, strings(&["x", "y", "z"]));
    assert_eq!(list.clone().into_vec(), strings(&["a", "x", "y", "z", "d"]));
    list.replace(0, 1, Vec::new());
    assert_eq!(list.clone().into_vec(), strings(&["x", "y", "z", "d"]));
    list.replace(4, 4, strings(&["e"]));
    assert_eq!(list.clone().into_vec(), strings(&["x", "y", "z", "d", "e"]));
    list.replace(2, 2, Vec::new());
    assert_eq!(list.clone().into_vec(), strings(&["x", "y", "z", "d", "e"]));
    list.replace(0, 5, Vec::new());
    assert_eq!(list.into_vec(), Vec::<String>::new());
}

#[test]
fn replace_then_get_round_trips() {
    let mut list = ArgList::new(strings(&["-v", "--target", "old", "--release"]));
    let found = list.get("--target").unwrap();
    assert_eq!((found.start, found.end), (1, 3));
    list.replace(found.start, found.end, strings(&["--target", "new"]));
    assert_eq!(
        list.get("--target"),
        Some(FoundArg { value: "new".to_string(), start: 1, end: 3 })
    );
    let found = list.get("--target").unwrap();
    list.replace(found.start, found.end, vec![join_equals("--target", "newer")]);
    assert_eq!(list.clone().into_vec(), strings(&["-v", "--target=newer", "--release"]));
    assert_eq!(
        list.get("--target"),
        Some(FoundArg { value: "newer".to_string(), start: 1, end: 2 })
    );
}

#[test]
fn append_adds_only_when_absent() {
    let mut list = ArgList::new(strings(&["--release"]));
    assert!(list.append("--target", "t1"));
    assert_eq!(list.clone().into_vec(), strings(&["--release", "--target", "t1"]));
    assert!(!list.append("--target", "t2"));
    assert_eq!(list.clone().into_vec(), strings(&["--release", "--target", "t1"]));
    let mut joined = ArgList::new(strings(&["--target=t0"]));
    assert!(!joined.append("--target", "t3"));
    assert_eq!(joined.into_vec(), strings(&["--target=t0"]));
}

#[test]
fn text_helpers_split_and_join() {
    assert!(str_eq("abc", "abc"));
    assert!(!str_eq("abc", "abd"));
    assert!(!str_eq("abc", "ab"));
    assert_eq!(split_equals("--a=b", "--a"), Some("b".to_string()));
    assert_eq!(split_equals("--a=", "--a"), Some(String::new()));
    assert_eq!(split_equals("--a", "--a"), None);
    assert_eq!(split_equals("--ab=c", "--a"), None);
    assert_eq!(split_equals("=v", ""), Some("v".to_string()));
    assert_eq!(join_equals("--sysroot", "/tmp/x"), "--sysroot=/tmp/x");
}
