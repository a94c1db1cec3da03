use fileaway::{apply, FileDetails, FileObject, IntegerObject, Update};

fn set(paths: &[&str]) -> Update {
    Update::Replace(paths.iter().map(|path| FileDetails { path: path.to_string() }).collect())
}

fn shown(model: &[FileObject]) -> Vec<String> {
    model.iter().map(|object| object.details()).collect()
}

#[test]
fn file_details_hold_their_path() {
    let entry = FileDetails { path: "/data/a.txt".to_string() };
    assert_eq!(entry.path, "/data/a.txt");
    assert_eq!(FileDetails::default().path, "");
}

#[test]
fn a_cloned_entry_is_equal_and_separate() {
    let entry = FileDetails { path: "/data/a.txt".to_string() };
    let mut copy = entry.clone();
    assert_eq!(copy, entry);
    copy.path.push('~');
    assert_eq!(entry.path, "/data/a.txt");
    assert_eq!(copy.path, "/data/a.txt~");
}

#[test]
fn a_file_object_holds_the_path_of_its_entry() {
    let entry = FileDetails { path: "/data/b/c.txt".to_string() };
    let object = FileObject::new(&entry);
    assert_eq!(object.details(), "/data/b/c.txt");
    assert_eq!(entry.path, "/data/b/c.txt");
}

#[test]
fn the_details_of_a_file_object_can_be_replaced() {
    let mut object = FileObject::default();
    assert_eq!(object.details(), "");
    object.set_details("/x".to_string());
    assert_eq!(object.details(), "/x");
    object.set_details("/y/z".to_string());
    assert_eq!(object.details(), "/y/z");
}

#[test]
fn an_integer_object_holds_its_number() {
    let mut object = IntegerObject::default();
    assert_eq!(object.number(), 0);
    object.set_number(-17);
    assert_eq!(object.number(), -17);
    object.set_number(i32::MAX);
    assert_eq!(object.number(), i32::MAX);
    assert_eq!(IntegerObject::new(i32::MIN).number(), i32::MIN);
}

#[test]
fn applying_an_update_replaces_the_model() {
    let mut model = vec![FileObject::new(&FileDetails { path: "/old".to_string() })];
    apply(&mut model, &set(&["/data/a.txt", "/data/b", "/data/b/c.txt"]));
    assert_eq!(shown(&model), vec!["/data/a.txt", "/data/b", "/data/b/c.txt"]);
}

#[test]
fn the_last_update_wins() {
    let mut model = Vec::new();
    apply(&mut model, &set(&["/a", "/b", "/c"]));
    apply(&mut model, &set(&["/c", "/a"]));
    assert_eq!(shown(&model), vec!["/c", "/a"]);
    apply(&mut model, &set(&[]));
    assert!(model.is_empty());
    apply(&mut model, &set(&["/z"]));
    assert_eq!(shown(&model), vec!["/z"]);
}

#[test]
fn applying_an_update_leaves_the_update_as_it_was() {
    let update = set(&["/a", "/b"]);
    let mut model = Vec::new();
    apply(&mut model, &update);
    model[0].set_details("/changed".to_string());
    assert_eq!(update, set(&["/a", "/b"]));
}
