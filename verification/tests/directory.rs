use ontime::directory::filter_dir_content;
use ontime::directory::has_suffix;
use ontime::directory::DirEntry;
use ontime::text::chars_of;

fn entry(path: &str, is_file: bool) -> DirEntry {
    DirEntry {
        path: String::from(path),
        file_name: String::from(path.rsplit('/').next().unwrap()),
        is_file,
    }
}

#[test]
fn plan_files_are_regular_files_with_a_yaml_name() {
    let content = vec![
        entry("/etc/ontime/monday.yml", true),
        entry("/etc/ontime/notes.txt", true),
        entry("/etc/ontime/main.yaml", true),
        entry("/etc/ontime/dir.yml", false),
        entry("/etc/ontime/yml", true),
        entry("/etc/ontime/.yml", true),
        entry("/etc/ontime/a.yml.bak", true),
        entry("/etc/ontime/B.YML", true),
    ];
    assert_eq!(
        filter_dir_content(&content),
        vec!["/etc/ontime/monday.yml", "/etc/ontime/main.yaml", "/etc/ontime/.yml"]
    );
}

#[test]
fn plan_files_are_judged_by_their_name_not_their_path() {
    let content = vec![DirEntry {
        path: String::from("/etc/ontime.yml/readme"),
        file_name: String::from("readme"),
        is_file: true,
    }];
    assert!(filter_dir_content(&content).is_empty());
    assert!(filter_dir_content(&Vec::new()).is_empty());
}

#[test]
fn suffixes_are_compared_character_by_character() {
    assert!(has_suffix(&chars_of("a.yml"), &chars_of(".yml")));
    assert!(has_suffix(&chars_of(".yml"), &chars_of(".yml")));
    assert!(has_suffix(&chars_of("abc"), &chars_of("")));
    assert!(!has_suffix(&chars_of("yml"), &chars_of(".yml")));
    assert!(!has_suffix(&chars_of("a.yml "), &chars_of(".yml")));
    assert!(!has_suffix(&chars_of("a.yaml"), &chars_of(".yml")));
}
