use semantic_image_browser::paths::{components, paths_leaving_with, starts_with};

fn strings(v: &[&str]) -> Vec<String> {
    v.iter().map(|s| s.to_string()).collect()
}

#[test]
fn components_of_absolute_path() {
    let c = components("/photos//2024/./a.jpg", false);
    let expected: Vec<Vec<char>> = vec![
        vec!['/'],
        "photos".chars().collect(),
        "2024".chars().collect(),
        "a.jpg".chars().collect(),
    ];
    assert_eq!(c, expected);
}

#[test]
fn components_of_relative_paths() {
    assert_eq!(components("./a/b/", false), vec![vec!['.'], vec!['a'], vec!['b']]);
    assert_eq!(components("a/../b", false), vec![vec!['a'], vec!['.', '.'], vec!['b']]);
    assert_eq!(components(".a", false), vec![vec!['.', 'a']]);
    assert!(components("", false).is_empty());
}

#[test]
fn starts_with_is_component_wise() {
    assert!(starts_with("/photos/a.jpg", "/photos", false));
    assert!(starts_with("/photos/a.jpg", "/photos/", false));
    assert!(starts_with("/photos", "/photos", false));
    assert!(!starts_with("/photos2/a.jpg", "/photos", false));
    assert!(!starts_with("photos/a.jpg", "/photos", false));
    assert!(starts_with("/anything", "", false));
}

#[test]
fn removed_directory_takes_only_its_own_files() {
    let all = strings(&["/p/a.jpg", "/p/sub/b.jpg", "/p2/c.jpg", "/q/d.jpg", "/p/keep/e.jpg"]);
    let remaining = strings(&["/q", "/p/keep"]);
    let gone = paths_leaving_with(all, "/p", &remaining, false);
    assert_eq!(gone, strings(&["/p/a.jpg", "/p/sub/b.jpg"]));
}

#[test]
fn nested_removal_removes_nothing() {
    let all = strings(&["/p/a.jpg", "/p/sub/b.jpg"]);
    let remaining = strings(&["/p"]);
    let gone = paths_leaving_with(all, "/p/sub", &remaining, false);
    assert!(gone.is_empty());
}

#[test]
fn windows_separators() {
    assert!(starts_with("C:\\photos\\a.jpg", "C:\\photos", true));
    assert!(starts_with("C:\\photos/sub\\a.jpg", "C:/photos/", true));
    assert!(!starts_with("C:\\photos2\\a.jpg", "C:\\photos", true));
    // A backslash is an ordinary character on Unix.
    assert!(!starts_with("C:\\photos\\a.jpg", "C:\\photos", false));
    let all = strings(&["C:\\p\\a.jpg", "C:\\q\\b.jpg"]);
    assert_eq!(paths_leaving_with(all, "C:\\p", &Vec::new(), true), strings(&["C:\\p\\a.jpg"]));
}

#[test]
fn windows_drive_letters_ignore_case() {
    assert!(starts_with("C:\\a", "c:", true));
    assert!(starts_with("c:\\photos\\x.png", "C:\\Photos", true) == false);
    assert!(starts_with("c:\\photos\\x.png", "C:\\photos", true));
    assert!(!starts_with("D:\\photos\\x.png", "C:\\photos", true));
    assert_eq!(components("c:\\a", true), vec![vec!['C', ':'], vec!['/'], vec!['a']]);
    assert_eq!(components("C:a", true), vec![vec!['C', ':'], vec!['a']]);
    let all = strings(&["C:\\a"]);
    assert_eq!(paths_leaving_with(all, "c:", &Vec::new(), true), strings(&["C:\\a"]));
}
