use ttrpg_tool::registry::{split_path, Registry, RegistryNode};

#[test]
fn paths_split_on_separators() {
    assert_eq!(split_path("a/b/c", false), vec!["a", "b", "c"]);
    assert_eq!(split_path("a\\b/c", true), vec!["a", "b", "c"]);
    assert_eq!(split_path("a\\b", false), vec!["a\\b"]);
    assert_eq!(split_path("", false), vec![""]);
    assert_eq!(split_path("/x/", false), vec!["", "x", ""]);
}

#[test]
fn registered_values_are_found() {
    let mut r: Registry<u32> = Registry::new();
    assert_eq!(r.register("weapons/swords/long", 1), Ok(()));
    assert_eq!(r.register("weapons/axe", 2), Ok(()));
    assert_eq!(r.get_value("weapons/swords/long"), Some(&1));
    assert_eq!(r.get_value("weapons/axe"), Some(&2));
    assert_eq!(r.get_value("weapons/swords"), None);
    assert!(matches!(r.get("weapons/swords"), Some(RegistryNode::SubRegistry(_))));
    assert!(r.get("armor").is_none());
    assert!(r.get("weapons/axe/head").is_none());
}

#[test]
fn registering_again_replaces_the_value() {
    let mut r: Registry<&str> = Registry::new();
    r.register("a/b", "first").unwrap();
    r.register("a/b", "second").unwrap();
    assert_eq!(r.get_value("a/b"), Some(&"second"));
    assert_eq!(r.tree.len(), 1);
}

#[test]
fn a_value_blocks_the_way() {
    let mut r: Registry<u32> = Registry::new();
    r.register("a/b", 1).unwrap();
    assert_eq!(r.register("a/b/c", 2), Err(()));
    assert_eq!(r.get_value("a/b"), Some(&1));
    assert_eq!(r.register("x/y/z", 3), Ok(()));
    assert_eq!(r.register("x/y/z/w", 4), Err(()));
    assert!(matches!(r.get("x/y"), Some(RegistryNode::SubRegistry(_))));
}

#[test]
fn backslashes_separate_when_registering() {
    let mut r: Registry<u32> = Registry::new();
    r.register("x\\y", 3).unwrap();
    assert_eq!(r.get_value("x/y"), Some(&3));
    assert_eq!(r.get_value("x\\y"), None);
}

#[test]
fn a_refused_registration_changes_nothing() {
    let mut r: Registry<u32> = Registry::new();
    r.register("a/b", 1).unwrap();
    r.register("a/c/d", 4).unwrap();
    assert_eq!(r.register("a/b/new/deeper", 2), Err(()));
    assert_eq!(r.get_value("a/b"), Some(&1));
    assert_eq!(r.get_value("a/c/d"), Some(&4));
    assert!(r.get("a/b/new").is_none());
    assert_eq!(r.tree.len(), 1);
}

#[test]
fn registering_keeps_values_elsewhere() {
    let mut r: Registry<u32> = Registry::new();
    r.register("a/c", 1).unwrap();
    r.register("a/bc", 2).unwrap();
    r.register("z", 3).unwrap();
    r.register("a/b", 4).unwrap();
    assert_eq!(r.get_value("a/c"), Some(&1));
    assert_eq!(r.get_value("a/bc"), Some(&2));
    assert_eq!(r.get_value("z"), Some(&3));
    assert_eq!(r.get_value("a/b"), Some(&4));
}

#[test]
fn a_name_registered_again_is_kept_once() {
    let mut r: Registry<u32> = Registry::new();
    assert!(r.register("a/b", 1).is_ok());
    assert!(r.register("a/b", 2).is_ok());
    assert!(r.register("a/c", 3).is_ok());
    assert_eq!(r.tree.len(), 1);
    match &r.tree[0].1 {
        RegistryNode::SubRegistry(sub) => {
            assert_eq!(sub.len(), 2);
            assert_eq!(sub[0].0, "b");
            assert_eq!(sub[1].0, "c");
        },
        _ => panic!("a folder was expected"),
    }
    assert_eq!(r.get_value("a/b"), Some(&2));
}
