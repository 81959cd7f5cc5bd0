use tui_lipan::home::abbreviate_home;

const WINDOWS: &[char] = &['\\', '/'];
const POSIX: &[char] = &['/'];

#[test]
fn a_home_that_does_not_fit_does_not_mask_one_that_does() {
    let homes = [r"C:\Users\adam".to_string(), "/c/Users/adam".to_string()];
    assert_eq!(abbreviate_home(r"C:\Users\adam\src", &homes, WINDOWS), r"~\src");

    let reversed = ["/c/Users/adam".to_string(), r"C:\Users\adam".to_string()];
    assert_eq!(
        abbreviate_home(r"C:\Users\adam\src", &reversed, WINDOWS),
        r"~\src",
        "order decides nothing when only one candidate can match"
    );
}

#[test]
fn a_posix_home_is_abbreviated() {
    let homes = ["/home/adam".to_string()];
    assert_eq!(abbreviate_home("/home/adam/src", &homes, POSIX), "~/src");
}

#[test]
fn an_unset_home_leaves_the_path_alone() {
    let homes = [String::new(), String::new()];
    assert_eq!(abbreviate_home(r"C:\Users\adam", &homes, WINDOWS), r"C:\Users\adam");
}

#[test]
fn the_home_match_lands_on_a_component_boundary() {
    let homes = ["/home/adam".to_string()];
    assert_eq!(abbreviate_home("/home/adamant/src", &homes, POSIX), "/home/adamant/src");
    assert_eq!(abbreviate_home("/home/adam", &homes, POSIX), "~", "the home itself");
    assert_eq!(abbreviate_home("/home/adam/src", &homes, POSIX), "~/src");
}

#[test]
fn a_trailing_separator_is_not_part_of_the_home_name() {
    let posix = ["/home/adam/".to_string()];
    assert_eq!(abbreviate_home("/home/adam/src", &posix, POSIX), "~/src");

    let windows = [r"C:\Users\adam\".to_string()];
    assert_eq!(abbreviate_home(r"C:\Users\adam\src", &windows, WINDOWS), r"~\src");
}

#[test]
fn a_backslash_is_an_ordinary_character_in_a_posix_name() {
    let homes = ["/home/adam".to_string()];
    assert_eq!(abbreviate_home(r"/home/adam\x", &homes, POSIX), r"/home/adam\x");
    assert_eq!(abbreviate_home(r"/home/adam\x", &homes, WINDOWS), r"~\x");
}

#[test]
fn a_home_made_only_of_separators_never_matches() {
    let homes = ["///".to_string()];
    assert_eq!(abbreviate_home("/etc", &homes, POSIX), "/etc");
}
