use fileaway::update::push_decimal;
use fileaway::{FileDetails, Update};

fn update_of(paths: &[&str]) -> Update {
    Update::Replace(paths.iter().map(|path| FileDetails { path: path.to_string() }).collect())
}

#[test]
fn an_empty_update_reads_as_an_empty_list() {
    assert_eq!(update_of(&[]).to_string(), "Set(0 files): []");
}

#[test]
fn a_single_entry_is_shown_without_a_comma() {
    assert_eq!(update_of(&["/data/a.txt"]).to_string(), "Set(1 files): [/data/a.txt]");
}

#[test]
fn entries_are_parted_by_comma_and_space() {
    assert_eq!(
        update_of(&["/data/a.txt", "/data/b", "/data/b/c.txt"]).to_string(),
        "Set(3 files): [/data/a.txt, /data/b, /data/b/c.txt]"
    );
}

#[test]
fn the_count_is_written_in_decimal() {
    let names: Vec<String> = (0..120).map(|i| format!("f{}", i)).collect();
    let borrowed: Vec<&str> = names.iter().map(|name| name.as_str()).collect();
    let text = update_of(&borrowed).to_string();
    assert_eq!(text, format!("Set(120 files): [{}]", names.join(", ")));
}

#[test]
fn paths_are_shown_as_they_are() {
    assert_eq!(
        update_of(&["/home/me/My Files/a, b.txt", "", "/tmp/é"]).to_string(),
        "Set(3 files): [/home/me/My Files/a, b.txt, , /tmp/é]"
    );
}

#[test]
fn decimal_of_small_and_large_numbers() {
    for n in [0usize, 1, 9, 10, 11, 99, 100, 101, 1000, 12345, 4294967295, usize::MAX] {
        let mut text = String::from("n=");
        push_decimal(&mut text, n);
        assert_eq!(text, format!("n={}", n));
    }
}

#[test]
fn an_update_owns_a_copy_of_its_own() {
    let original = update_of(&["/a"]);
    let copy = original.clone();
    assert_eq!(original, copy);
    let Update::Replace(mut entries) = copy;
    entries.clear();
    assert_eq!(original.to_string(), "Set(1 files): [/a]");
}
