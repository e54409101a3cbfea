use aur_sources::location::{
    base_text, find_scheme_end, is_directory_name, is_qualified, normalize_id, resolve, Location,
    ParseError, ID_SEPARATOR,
};

#[test]
fn shorthand_is_looked_up_under_the_base() {
    let location = resolve("foo").unwrap();
    assert_eq!(location.raw(), "foo");
    assert_eq!(location.remote_url(), "https://aur.archlinux.org/foo");
    assert_eq!(location.id(), "aur.archlinux.org_foo");
}

#[test]
fn shorthand_with_a_path_keeps_every_component() {
    let location = resolve("group/foo").unwrap();
    assert_eq!(location.remote_url(), "https://aur.archlinux.org/group/foo");
    assert_eq!(location.id(), "aur.archlinux.org_group_foo");
}

#[test]
fn qualified_address_is_taken_as_it_stands() {
    let location = resolve("https://github.com/user/repo").unwrap();
    assert_eq!(location.raw(), "https://github.com/user/repo");
    assert_eq!(location.remote_url(), "https://github.com/user/repo");
    assert_eq!(location.id(), "github.com_user_repo");
}

#[test]
fn scheme_is_cut_off_by_the_parser() {
    // Were the address handed through unread, the scheme would show in the name.
    let location = resolve("https://foo").unwrap();
    assert_eq!(location.id(), "foo");
    let other = resolve("ssh://host/repo").unwrap();
    assert_eq!(other.id(), "host_repo");
}

#[test]
fn trailing_slashes_are_dropped() {
    let location = resolve("https://example.org/pkg///").unwrap();
    assert_eq!(location.remote_url(), "https://example.org/pkg///");
    assert_eq!(location.id(), "example.org_pkg");
    let shorthand = resolve("foo/").unwrap();
    assert_eq!(shorthand.remote_url(), "https://aur.archlinux.org/foo/");
    assert_eq!(shorthand.id(), "aur.archlinux.org_foo");
}

#[test]
fn inner_double_slash_becomes_two_separators() {
    let location = resolve("https://example.org//pkg").unwrap();
    assert_eq!(location.id(), "example.org__pkg");
}

#[test]
fn backslash_is_kept() {
    let location = resolve("https://example.org/a\\b").unwrap();
    assert_eq!(location.id(), "example.org_a\\b");
    let pattern = resolve("https://foo\\d+").unwrap();
    assert_eq!(pattern.id(), "foo\\d+");
}

#[test]
fn address_without_a_path_names_nothing() {
    for input in ["https://", "https:////", "a://", "https:///"] {
        assert_eq!(resolve(input).unwrap_err(), ParseError::NoDirectory, "{}", input);
    }
}

#[test]
fn address_of_the_root_or_its_parent_names_nothing() {
    for input in ["https://.", "https://..", "https://../", "https://.//", "https://..///"] {
        assert_eq!(resolve(input).unwrap_err(), ParseError::NoDirectory, "{}", input);
    }
    // Dots among other characters are names like any other.
    assert_eq!(resolve("https://...").unwrap().id(), "...");
    assert_eq!(resolve("https://../x").unwrap().id(), ".._x");
    assert_eq!(resolve("https://./.").unwrap().id(), "._.");
    assert_eq!(resolve("..").unwrap().id(), "aur.archlinux.org_..");
    assert_eq!(resolve(".").unwrap().id(), "aur.archlinux.org_.");
}

#[test]
fn directory_name_is_one_component_below() {
    assert!(is_directory_name("foo"));
    assert!(is_directory_name("..."));
    assert!(is_directory_name("a\\b"));
    assert!(is_directory_name(" "));
    assert!(is_directory_name("aur.archlinux.org_foo"));
    assert!(!is_directory_name(""));
    assert!(!is_directory_name("."));
    assert!(!is_directory_name(".."));
    assert!(!is_directory_name("a/b"));
    assert!(!is_directory_name("/"));
    assert!(!is_directory_name("a/"));
}

#[test]
fn empty_input_names_nothing() {
    assert_eq!(resolve("").unwrap_err(), ParseError::Empty);
}

#[test]
fn input_without_a_scheme_before_the_colon_is_a_shorthand() {
    let location = resolve("://x").unwrap();
    assert_eq!(location.remote_url(), "https://aur.archlinux.org/://x");
    assert_eq!(location.id(), "aur.archlinux.org_:__x");
    let ssh = resolve("git@host:repo").unwrap();
    assert_eq!(ssh.remote_url(), "https://aur.archlinux.org/git@host:repo");
    assert_eq!(ssh.id(), "aur.archlinux.org_git@host:repo");
}

#[test]
fn resolution_is_stable_across_calls() {
    for input in ["foo", "a/b", "https://example.org/x/", "x y", "é/ü"] {
        let first = resolve(input).unwrap();
        let second = resolve(input).unwrap();
        assert_eq!(first.id(), second.id());
        assert_eq!(first.remote_url(), second.remote_url());
        assert_eq!(first.raw(), second.raw());
    }
}

#[test]
fn equal_addresses_have_equal_names() {
    let u1 = String::from("https://example.org/some/pkg");
    let u2 = format!("https://{}/some/pkg", "example.org");
    assert_eq!(u1, u2);
    assert_eq!(resolve(&u1).unwrap().id(), resolve(&u2).unwrap().id());
    // A shorthand and its full address name the same working copy.
    let short = resolve("pkg").unwrap();
    let full = resolve("https://aur.archlinux.org/pkg").unwrap();
    assert_eq!(short.remote_url(), full.remote_url());
    assert_eq!(short.id(), full.id());
}

#[test]
fn names_hold_no_path_separator() {
    for input in ["a/b/c", "https://h/a/b\\c//", "\\", "/", "x/../y", "https://host/~user/pkg"] {
        let location = resolve(input).unwrap();
        assert!(!location.id().contains('/'), "{}", location.id());
        assert!(!location.id().is_empty());
        assert!(location.id() != "." && location.id() != "..");
        assert!(is_directory_name(location.id()));
    }
    assert_eq!(ID_SEPARATOR, '_');
}

#[test]
fn base_location_is_the_base_address() {
    let base = Location::base();
    assert_eq!(base.raw(), "");
    assert_eq!(base.remote_url(), "https://aur.archlinux.org/");
    assert_eq!(base.remote_url(), base_text());
    assert_eq!(base.id(), "aur.archlinux.org");
    assert!(base.is_base());
    assert!(!resolve("foo").unwrap().is_base());
    assert!(resolve("https://aur.archlinux.org/").unwrap().is_base());
}

#[test]
fn duplicate_keeps_every_part() {
    let location = resolve("https://example.org/pkg").unwrap();
    let copy = location.duplicate();
    assert_eq!(copy.raw(), location.raw());
    assert_eq!(copy.remote_url(), location.remote_url());
    assert_eq!(copy.id(), location.id());
}

#[test]
fn scheme_end_is_the_first_colon_or_slash() {
    assert_eq!(find_scheme_end(""), 0);
    assert_eq!(find_scheme_end("abc"), 3);
    assert_eq!(find_scheme_end("https://x"), 5);
    assert_eq!(find_scheme_end("a/b:c"), 1);
    assert_eq!(find_scheme_end(":x"), 0);
    assert_eq!(find_scheme_end("éé:x"), 2);
}

#[test]
fn qualified_means_scheme_colon_slash_slash() {
    assert!(is_qualified("https://x"));
    assert!(is_qualified("a://"));
    assert!(is_qualified("git+ssh://host/x"));
    assert!(!is_qualified(""));
    assert!(!is_qualified("://x"));
    assert!(!is_qualified("https:/x"));
    assert!(!is_qualified("https:"));
    assert!(!is_qualified("a/b://c"));
    assert!(!is_qualified("host:path"));
    assert!(!is_qualified("foo"));
}

#[test]
fn normalize_trims_then_replaces() {
    assert_eq!(normalize_id(""), "");
    assert_eq!(normalize_id("/"), "");
    assert_eq!(normalize_id("a"), "a");
    assert_eq!(normalize_id("a/b//"), "a_b");
    assert_eq!(normalize_id("/a"), "_a");
    assert_eq!(normalize_id("a\\"), "a\\");
    assert_eq!(normalize_id("a\\/b"), "a\\_b");
    assert_eq!(normalize_id("é/ü"), "é_ü");
}
