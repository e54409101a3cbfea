use aur_sources::command::{
    build_command, delete_command, exit_code, is_root, search_url, uninstall_command, FAILURE_CODE,
};
use aur_sources::text::{followed_by, join, split_on};

fn names(list: &[&str]) -> Vec<String> {
    list.iter().map(|s| s.to_string()).collect()
}

#[test]
fn build_runs_makepkg() {
    let quiet = build_command("foo", false);
    assert_eq!(quiet.program, "makepkg");
    assert_eq!(quiet.args, names(&["-sirc", "foo", "--noconfirm"]));
    assert_eq!(quiet.display(), "> makepkg -sirc foo --noconfirm");
    let asking = build_command("foo", true);
    assert_eq!(asking.program, "makepkg");
    assert_eq!(asking.args, names(&["-sirc", "foo"]));
    assert_eq!(asking.display(), "> makepkg -sirc foo");
}

#[test]
fn uninstall_runs_pacman_through_sudo_unless_root() {
    let user = uninstall_command("foo", false, false);
    assert_eq!(user.program, "sudo");
    assert_eq!(user.args, names(&["pacman", "-Rns", "foo", "--noconfirm"]));
    assert_eq!(user.display(), "> sudo pacman -Rns foo --noconfirm");
    let root = uninstall_command("foo", false, true);
    assert_eq!(root.program, "pacman");
    assert_eq!(root.args, names(&["-Rns", "foo", "--noconfirm"]));
    let asking = uninstall_command("foo", true, false);
    assert_eq!(asking.args, names(&["pacman", "-Rns", "foo"]));
    let asking_root = uninstall_command("foo", true, true);
    assert_eq!(asking_root.program, "pacman");
    assert_eq!(asking_root.args, names(&["-Rns", "foo"]));
}

#[test]
fn only_root_is_root() {
    assert!(is_root(Some("root")));
    assert!(!is_root(Some("alice")));
    assert!(!is_root(Some("")));
    assert!(!is_root(Some("Root")));
    assert!(!is_root(None));
}

#[test]
fn delete_runs_rm_by_force() {
    let command = delete_command("/home/user/.osoy/aur/foo");
    assert_eq!(command.program, "rm");
    assert_eq!(command.args, names(&["-rf", "/home/user/.osoy/aur/foo"]));
    assert_eq!(command.display(), "> rm -rf /home/user/.osoy/aur/foo");
}

#[test]
fn exit_code_of_a_program_that_did_not_end_by_itself_is_one() {
    assert_eq!(exit_code(Some(Some(0))), 0);
    assert_eq!(exit_code(Some(Some(3))), 3);
    assert_eq!(exit_code(Some(Some(-5))), -5);
    assert_eq!(exit_code(Some(None)), 1);
    assert_eq!(exit_code(None), 1);
    assert_eq!(FAILURE_CODE, 1);
}

#[test]
fn search_address_joins_the_keywords() {
    assert_eq!(
        search_url(&names(&["foo", "bar"])),
        "https://aur.archlinux.org/rpc/?v=5&type=search&arg=foo bar"
    );
    assert_eq!(search_url(&names(&["foo"])), "https://aur.archlinux.org/rpc/?v=5&type=search&arg=foo");
    assert_eq!(search_url(&Vec::new()), "https://aur.archlinux.org/rpc/?v=5&type=search&arg=");
}

#[test]
fn join_puts_the_separator_between() {
    assert_eq!(join(&Vec::new(), ", "), "");
    assert_eq!(join(&names(&["a"]), ", "), "a");
    assert_eq!(join(&names(&["a", "b", "c"]), ", "), "a, b, c");
    assert_eq!(join(&names(&["", ""]), "-"), "-");
    assert_eq!(join(&names(&["a", "b"]), ""), "ab");
}

#[test]
fn split_gives_one_piece_more_than_separators() {
    assert_eq!(split_on("", ' '), names(&[""]));
    assert_eq!(split_on("a", ' '), names(&["a"]));
    assert_eq!(split_on("a b", ' '), names(&["a", "b"]));
    assert_eq!(split_on(" a  b ", ' '), names(&["", "a", "", "b", ""]));
    assert_eq!(split_on(" ", ' '), names(&["", ""]));
    assert_eq!(split_on("é ü", ' '), names(&["é", "ü"]));
}

#[test]
fn split_then_join_gives_the_text_back() {
    for text in ["", " ", "a b c", "  lead", "trail  ", "no_space", "é  ü "] {
        assert_eq!(join(&split_on(text, ' '), " "), text);
        let std_pieces: Vec<String> = text.split(' ').map(|s| s.to_string()).collect();
        assert_eq!(split_on(text, ' '), std_pieces);
    }
}

#[test]
fn one_text_follows_the_other() {
    assert_eq!(followed_by("ab", "cd"), "abcd");
    assert_eq!(followed_by("", ""), "");
    assert_eq!(followed_by("é", ""), "é");
}
