use command_groups::model::{CommandGroup, CommandItem};
use command_groups::store::GroupStore;

fn group(id: &str, name: &str, commands: Vec<CommandItem>) -> CommandGroup {
    CommandGroup { id: id.to_string(), name: name.to_string(), commands }
}

fn command(id: &str, name: &str, line: &str) -> CommandItem {
    CommandItem {
        id: id.to_string(),
        name: name.to_string(),
        command: line.to_string(),
        is_detached: None,
    }
}

fn is_uuid_text(text: &str) -> bool {
    let chars: Vec<char> = text.chars().collect();
    chars.len() == 36
        && chars.iter().enumerate().all(|(i, c)| {
            if i == 8 || i == 13 || i == 18 || i == 23 {
                *c == '-'
            } else {
                matches!(*c, '0'..='9' | 'a'..='f')
            }
        })
}

#[test]
fn a_new_store_is_empty() {
    let store = GroupStore::new();
    assert!(store.get_groups().is_empty());
    assert!(store.entries().is_empty());
    assert_eq!(store.get("g1"), None);
}

#[test]
fn insert_then_get() {
    let mut store = GroupStore::new();
    store.insert("g1".to_string(), group("g1", "first", Vec::new()));
    assert_eq!(store.get("g1"), Some(group("g1", "first", Vec::new())));
    assert_eq!(store.get("g2"), None);
    assert_eq!(store.get(""), None);
}

#[test]
fn insert_over_a_key_replaces_the_group_in_place() {
    let mut store = GroupStore::new();
    store.insert("a".to_string(), group("a", "one", Vec::new()));
    store.insert("b".to_string(), group("b", "two", Vec::new()));
    store.insert("a".to_string(), group("a", "three", Vec::new()));
    assert_eq!(
        store.get_groups(),
        vec![group("a", "three", Vec::new()), group("b", "two", Vec::new())]
    );
}

#[test]
fn the_key_finds_the_group_whatever_its_id_field_says() {
    let mut store = GroupStore::new();
    store.insert("key".to_string(), group("other", "n", Vec::new()));
    assert_eq!(store.get("key"), Some(group("other", "n", Vec::new())));
    assert_eq!(store.get("other"), None);
}

#[test]
fn entries_list_keys_and_groups_in_order() {
    let mut store = GroupStore::new();
    store.insert("k1".to_string(), group("g1", "one", Vec::new()));
    store.insert("k2".to_string(), group("g2", "two", vec![command("c", "n", "ls")]));
    assert_eq!(
        store.entries(),
        vec![
            ("k1".to_string(), group("g1", "one", Vec::new())),
            ("k2".to_string(), group("g2", "two", vec![command("c", "n", "ls")])),
        ]
    );
}

#[test]
fn delete_group_removes_only_that_group() {
    let mut store = GroupStore::new();
    store.insert("a".to_string(), group("a", "one", Vec::new()));
    store.insert("b".to_string(), group("b", "two", Vec::new()));
    store.insert("c".to_string(), group("c", "three", Vec::new()));
    store.delete_group("b");
    assert_eq!(store.get("b"), None);
    assert_eq!(
        store.get_groups(),
        vec![group("a", "one", Vec::new()), group("c", "three", Vec::new())]
    );
}

#[test]
fn delete_group_of_a_missing_key_changes_nothing() {
    let mut store = GroupStore::new();
    store.insert("a".to_string(), group("a", "one", Vec::new()));
    store.delete_group("zzz");
    assert_eq!(store.get_groups(), vec![group("a", "one", Vec::new())]);
}

#[test]
fn push_command_appends_in_order() {
    let mut store = GroupStore::new();
    store.insert("g".to_string(), group("g", "n", Vec::new()));
    assert_eq!(store.push_command("g", command("c1", "first", "ls")), Ok(()));
    assert_eq!(store.push_command("g", command("c2", "second", "pwd")), Ok(()));
    assert_eq!(
        store.get("g"),
        Some(group(
            "g",
            "n",
            vec![command("c1", "first", "ls"), command("c2", "second", "pwd")]
        ))
    );
}

#[test]
fn push_command_to_a_missing_group_fails() {
    let mut store = GroupStore::new();
    store.insert("g".to_string(), group("g", "n", Vec::new()));
    assert_eq!(
        store.push_command("nope", command("c1", "first", "ls")),
        Err("Group not found".to_string())
    );
    assert_eq!(store.get_groups(), vec![group("g", "n", Vec::new())]);
}

#[test]
fn create_group_returns_a_fresh_uuid() {
    let mut store = GroupStore::new();
    let first = store.create_group("tools".to_string());
    let second = store.create_group("tools".to_string());
    assert!(is_uuid_text(&first), "{}", first);
    assert!(is_uuid_text(&second), "{}", second);
    assert_ne!(first, second);
    assert_eq!(first.chars().nth(14), Some('4'));
    assert_eq!(store.get(&first), Some(group(&first, "tools", Vec::new())));
    assert_eq!(store.get(&second), Some(group(&second, "tools", Vec::new())));
    assert_eq!(store.get_groups().len(), 2);
}

#[test]
fn add_command_to_group_appends_with_a_fresh_id() {
    let mut store = GroupStore::new();
    let gid = store.create_group("tools".to_string());
    let c1 = store
        .add_command_to_group(&gid, "list".to_string(), "ls -la".to_string(), None)
        .unwrap();
    let c2 = store
        .add_command_to_group(&gid, "serve".to_string(), "python -m http.server".to_string(), Some(true))
        .unwrap();
    assert!(is_uuid_text(&c1));
    assert!(is_uuid_text(&c2));
    assert_ne!(c1, c2);
    let found = store.get(&gid).unwrap();
    assert_eq!(
        found.commands,
        vec![
            CommandItem {
                id: c1,
                name: "list".to_string(),
                command: "ls -la".to_string(),
                is_detached: None,
            },
            CommandItem {
                id: c2,
                name: "serve".to_string(),
                command: "python -m http.server".to_string(),
                is_detached: Some(true),
            },
        ]
    );
}

#[test]
fn add_command_to_a_missing_group_fails() {
    let mut store = GroupStore::new();
    let gid = store.create_group("tools".to_string());
    let result = store.add_command_to_group("nope", "n".to_string(), "ls".to_string(), None);
    assert_eq!(result, Err("Group not found".to_string()));
    assert_eq!(store.get(&gid), Some(group(&gid, "tools", Vec::new())));
}

#[test]
fn delete_command_keeps_the_others_in_order() {
    let mut store = GroupStore::new();
    store.insert(
        "g".to_string(),
        group(
            "g",
            "n",
            vec![
                command("c1", "one", "a"),
                command("c2", "two", "b"),
                command("c3", "three", "c"),
                command("c2", "two again", "d"),
            ],
        ),
    );
    assert_eq!(store.delete_command_from_group("g", "c2"), Ok(()));
    assert_eq!(
        store.get("g"),
        Some(group("g", "n", vec![command("c1", "one", "a"), command("c3", "three", "c")]))
    );
}

#[test]
fn delete_command_that_is_not_there_changes_nothing() {
    let mut store = GroupStore::new();
    store.insert("g".to_string(), group("g", "n", vec![command("c1", "one", "a")]));
    assert_eq!(store.delete_command_from_group("g", "zzz"), Ok(()));
    assert_eq!(store.get("g"), Some(group("g", "n", vec![command("c1", "one", "a")])));
}

#[test]
fn delete_command_from_a_missing_group_fails() {
    let mut store = GroupStore::new();
    store.insert("g".to_string(), group("g", "n", vec![command("c1", "one", "a")]));
    assert_eq!(
        store.delete_command_from_group("nope", "c1"),
        Err("Group not found".to_string())
    );
    assert_eq!(store.get("g"), Some(group("g", "n", vec![command("c1", "one", "a")])));
}

#[test]
fn get_returns_a_copy() {
    let mut store = GroupStore::new();
    store.insert("g".to_string(), group("g", "n", vec![command("c1", "one", "a")]));
    let mut copy = store.get("g").unwrap();
    copy.commands.clear();
    copy.name = "changed".to_string();
    assert_eq!(store.get("g"), Some(group("g", "n", vec![command("c1", "one", "a")])));
}
