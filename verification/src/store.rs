//! The group store: a map from identifier to group that remembers the order in
//! which its keys arrived.

use vstd::prelude::*;
use crate::ident::{fresh_id, is_uuid_text};
use crate::model::{item_views, CommandGroup, CommandGroupView, CommandItem, CommandItemView};
use crate::text::same_text;

verus! {

#[derive(Debug)]
struct Entry {
    key: String,
    group: CommandGroup,
}

/// The groups of the application, each under its key.
///
/// No key occurs twice. A key keeps its place when its group is replaced or
/// changed; a new key goes to the end.
#[derive(Debug)]
pub struct GroupStore {
    entries: Vec<Entry>,
}

/// The group with its commands replaced.
pub open spec fn with_commands(group: CommandGroupView, commands: Seq<CommandItemView>) -> CommandGroupView {
    CommandGroupView { id: group.id, name: group.name, commands }
}

/// The commands whose identifier is not `command_id`, in their order.
pub open spec fn without_command(commands: Seq<CommandItemView>, command_id: Seq<char>) -> Seq<
    CommandItemView,
> {
    commands.filter(|item: CommandItemView| item.id != command_id)
}

spec fn keys_of(entries: Seq<Entry>) -> Seq<Seq<char>> {
    Seq::new(entries.len(), |i: int| entries[i].key@)
}

spec fn entries_map(entries: Seq<Entry>) -> Map<Seq<char>, CommandGroupView> {
    Map::new(
        |key: Seq<char>| keys_of(entries).contains(key),
        |key: Seq<char>| entries[keys_of(entries).index_of(key)].group@,
    )
}

/// With distinct keys, the map holds at each entry's key that entry's group.
proof fn lemma_entry_at(entries: Seq<Entry>, i: int)
    requires
        keys_of(entries).no_duplicates(),
        0 <= i < entries.len(),
    ensures
        keys_of(entries).contains(entries[i].key@),
        keys_of(entries).index_of(entries[i].key@) == i,
        entries_map(entries).contains_key(entries[i].key@),
        entries_map(entries)[entries[i].key@] == entries[i].group@,
{
    let keys = keys_of(entries);
    assert(keys[i] == entries[i].key@);
}

/// A map is the map of the entries if it holds each entry's group at that
/// entry's key and has no other key.
proof fn lemma_map_of(entries: Seq<Entry>, map: Map<Seq<char>, CommandGroupView>)
    requires
        keys_of(entries).no_duplicates(),
        forall|i: int|
            0 <= i < entries.len() ==> map.contains_key(#[trigger] entries[i].key@) && map[entries[i].key@]
                == entries[i].group@,
        forall|key: Seq<char>| #[trigger] map.contains_key(key) ==> keys_of(entries).contains(key),
    ensures
        entries_map(entries) == map,
{
    assert forall|key: Seq<char>| #[trigger] entries_map(entries).contains_key(key) implies map.contains_key(key)
        && map[key] == entries_map(entries)[key] by {
        let i = keys_of(entries).index_of(key);
        lemma_entry_at(entries, i);
    }
    assert forall|key: Seq<char>| #[trigger] map.contains_key(key) implies entries_map(entries).contains_key(key) by {}
}

/// Replacing the group of one entry changes the map at that entry's key and
/// nowhere else, and leaves the keys as they were.
proof fn lemma_replace_at(before: Seq<Entry>, i: int, after: Seq<Entry>)
    requires
        keys_of(before).no_duplicates(),
        0 <= i < before.len(),
        after.len() == before.len(),
        after[i].key@ == before[i].key@,
        forall|j: int| 0 <= j < before.len() && j != i ==> after[j] == before[j],
    ensures
        keys_of(after) == keys_of(before),
        entries_map(after) == entries_map(before).insert(before[i].key@, after[i].group@),
{
    let wanted = entries_map(before).insert(before[i].key@, after[i].group@);
    assert(keys_of(after) =~= keys_of(before));
    assert forall|j: int| 0 <= j < after.len() implies wanted.contains_key(#[trigger] after[j].key@)
        && wanted[after[j].key@] == after[j].group@ by {
        lemma_entry_at(before, j);
        assert(keys_of(before)[i] == before[i].key@);
    }
    lemma_entry_at(before, i);
    lemma_map_of(after, wanted);
}

/// Where `key` stands among the entries, if it does.
fn position(entries: &Vec<Entry>, key: &str) -> (at: Option<usize>)
    ensures
        match at {
            Some(i) => i < entries.len() && entries[i as int].key@ == key@,
            None => !keys_of(entries@).contains(key@),
        },
{
    let mut i: usize = 0;
    while i < entries.len()
        invariant
            i <= entries.len(),
            forall|j: int| 0 <= j < i ==> entries[j].key@ != key@,
        decreases entries.len() - i,
    {
        if same_text(entries[i].key.as_str(), key) {
            return Some(i);
        }
        i += 1;
    }
    None
}

impl View for GroupStore {
    type V = Map<Seq<char>, CommandGroupView>;

    closed spec fn view(&self) -> Map<Seq<char>, CommandGroupView> {
        entries_map(self.entries@)
    }
}

impl GroupStore {
    #[verifier::type_invariant]
    spec fn distinct_keys(self) -> bool {
        keys_of(self.entries@).no_duplicates()
    }

    /// The keys in the order in which the store lists its groups.
    pub closed spec fn order(&self) -> Seq<Seq<char>> {
        keys_of(self.entries@)
    }

    /// A store without groups.
    pub fn new() -> (store: GroupStore)
        ensures
            store@ == Map::<Seq<char>, CommandGroupView>::empty(),
            store.order() == Seq::<Seq<char>>::empty(),
    {
        GroupStore { entries: Vec::new() }
    }

    /// Moves the entries out, leaving the store empty until they are put back.
    fn take_entries(&mut self) -> (entries: Vec<Entry>)
        ensures
            entries@ == old(self).entries@,
            keys_of(entries@).no_duplicates(),
    {
        proof {
            use_type_invariant(&*self);
        }
        let mut entries: Vec<Entry> = Vec::new();
        std::mem::swap(&mut self.entries, &mut entries);
        entries
    }

    /// Puts `group` under `key`, in place of the group that was there, if any.
    pub fn insert(&mut self, key: String, group: CommandGroup)
        ensures
            final(self)@ == old(self)@.insert(key@, group@),
            final(self).order() == if old(self)@.contains_key(key@) {
                old(self).order()
            } else {
                old(self).order().push(key@)
            },
    {
        let ghost before = self.entries@;
        let ghost wanted = self@.insert(key@, group@);
        let mut entries = self.take_entries();
        match position(&entries, key.as_str()) {
            Some(i) => {
                entries.set(i, Entry { key, group });
                proof {
                    lemma_entry_at(before, i as int);
                    lemma_replace_at(before, i as int, entries@);
                }
            },
            None => {
                entries.push(Entry { key, group });
                proof {
                    let after = entries@;
                    assert(keys_of(after) =~= keys_of(before).push(key@));
                    assert forall|j: int| 0 <= j < after.len() implies wanted.contains_key(
                        #[trigger] after[j].key@,
                    ) && wanted[after[j].key@] == after[j].group@ by {
                        if j < before.len() {
                            lemma_entry_at(before, j);
                        }
                    }
                    assert forall|k: Seq<char>| #[trigger] wanted.contains_key(k) implies keys_of(
                        after,
                    ).contains(k) by {
                        if k == key@ {
                            assert(keys_of(after)[before.len() as int] == k);
                        } else {
                            let j = keys_of(before).index_of(k);
                            assert(keys_of(after)[j] == k);
                        }
                    }
                    lemma_map_of(after, wanted);
                }
            },
        }
        self.entries = entries;
    }

    /// A copy of the group under `group_id`, if there is one.
    pub fn get(&self, group_id: &str) -> (found: Option<CommandGroup>)
        ensures
            match found {
                Some(group) => self@.contains_key(group_id@) && group@ == self@[group_id@],
                None => !self@.contains_key(group_id@),
            },
    {
        proof {
            use_type_invariant(self);
        }
        match position(&self.entries, group_id) {
            Some(i) => {
                proof {
                    lemma_entry_at(self.entries@, i as int);
                }
                Some(self.entries[i].group.clone())
            },
            None => None,
        }
    }

    /// Removes the group under `group_id`. A key that is not there changes
    /// nothing.
    pub fn delete_group(&mut self, group_id: &str)
        ensures
            final(self)@ == old(self)@.remove(group_id@),
            final(self).order() == if old(self)@.contains_key(group_id@) {
                old(self).order().remove(old(self).order().index_of(group_id@))
            } else {
                old(self).order()
            },
    {
        let ghost before = self.entries@;
        let ghost wanted = self@.remove(group_id@);
        let mut entries = self.take_entries();
        match position(&entries, group_id) {
            Some(i) => {
                proof {
                    lemma_entry_at(before, i as int);
                }
                let _ = entries.remove(i);
                proof {
                    let after = entries@;
                    assert(keys_of(after) =~= keys_of(before).remove(i as int));
                    assert forall|j: int| 0 <= j < after.len() implies wanted.contains_key(
                        #[trigger] after[j].key@,
                    ) && wanted[after[j].key@] == after[j].group@ by {
                        let j0 = if j < i { j } else { j + 1 };
                        lemma_entry_at(before, j0);
                    }
                    assert forall|k: Seq<char>| #[trigger] wanted.contains_key(k) implies keys_of(
                        after,
                    ).contains(k) by {
                        let j0 = keys_of(before).index_of(k);
                        let j = if j0 < i { j0 } else { j0 - 1 };
                        assert(keys_of(after)[j] == k);
                    }
                    lemma_map_of(after, wanted);
                }
            },
            None => {},
        }
        self.entries = entries;
    }

    /// Appends `item` to the commands of the group under `group_id`.
    ///
    /// Fails with "Group not found", and changes nothing, when there is no
    /// such group.
    pub fn push_command(&mut self, group_id: &str, item: CommandItem) -> (result: Result<(), String>)
        ensures
            final(self).order() == old(self).order(),
            match result {
                Ok(_) => old(self)@.contains_key(group_id@) && final(self)@ == old(self)@.insert(
                    group_id@,
                    with_commands(old(self)@[group_id@], old(self)@[group_id@].commands.push(item@)),
                ),
                Err(message) => !old(self)@.contains_key(group_id@) && final(self)@ == old(self)@
                    && message@ == "Group not found"@,
            },
    {
        let ghost before = self.entries@;
        let mut entries = self.take_entries();
        let result = match position(&entries, group_id) {
            Some(i) => {
                entries[i].group.commands.push(item);
                proof {
                    let after = entries@;
                    lemma_entry_at(before, i as int);
                    lemma_replace_at(before, i as int, after);
                    assert(item_views(after[i as int].group.commands@) =~= item_views(
                        before[i as int].group.commands@,
                    ).push(item@));
                }
                Ok(())
            },
            None => Err(String::from_str("Group not found")),
        };
        self.entries = entries;
        result
    }

    /// Leaves in the group under `group_id` only the commands whose identifier
    /// is not `command_id`, in their order.
    ///
    /// Fails with "Group not found", and changes nothing, when there is no
    /// such group. A group without such a command stays as it is.
    pub fn delete_command_from_group(&mut self, group_id: &str, command_id: &str) -> (result: Result<
        (),
        String,
    >)
        ensures
            final(self).order() == old(self).order(),
            match result {
                Ok(_) => old(self)@.contains_key(group_id@) && final(self)@ == old(self)@.insert(
                    group_id@,
                    with_commands(
                        old(self)@[group_id@],
                        without_command(old(self)@[group_id@].commands, command_id@),
                    ),
                ),
                Err(message) => !old(self)@.contains_key(group_id@) && final(self)@ == old(self)@
                    && message@ == "Group not found"@,
            },
    {
        let ghost before = self.entries@;
        let mut entries = self.take_entries();
        let result = match position(&entries, group_id) {
            Some(i) => {
                let kept = retain_others(&entries[i].group.commands, command_id);
                entries[i].group.commands = kept;
                proof {
                    lemma_entry_at(before, i as int);
                    lemma_replace_at(before, i as int, entries@);
                }
                Ok(())
            },
            None => Err(String::from_str("Group not found")),
        };
        self.entries = entries;
        result
    }

    /// Adds an empty group called `name` under a fresh identifier, which is
    /// returned.
    pub fn create_group(&mut self, name: String) -> (id: String)
        ensures
            is_uuid_text(id@),
            final(self)@ == old(self)@.insert(
                id@,
                CommandGroupView { id: id@, name: name@, commands: Seq::empty() },
            ),
            final(self).order() == if old(self)@.contains_key(id@) {
                old(self).order()
            } else {
                old(self).order().push(id@)
            },
    {
        let id = fresh_id();
        let group = CommandGroup { id: id.clone(), name, commands: Vec::new() };
        assert(group@.commands =~= Seq::empty());
        self.insert(id.clone(), group);
        id
    }

    /// Appends a command with a fresh identifier to the group under
    /// `group_id` and returns the identifier.
    ///
    /// Fails with "Group not found", and changes nothing, when there is no
    /// such group.
    pub fn add_command_to_group(
        &mut self,
        group_id: &str,
        name: String,
        command: String,
        is_detached: Option<bool>,
    ) -> (result: Result<String, String>)
        ensures
            final(self).order() == old(self).order(),
            match result {
                Ok(id) => is_uuid_text(id@) && old(self)@.contains_key(group_id@) && final(self)@
                    == old(self)@.insert(
                    group_id@,
                    with_commands(
                        old(self)@[group_id@],
                        old(self)@[group_id@].commands.push(
                            CommandItemView { id: id@, name: name@, command: command@, is_detached },
                        ),
                    ),
                ),
                Err(message) => !old(self)@.contains_key(group_id@) && final(self)@ == old(self)@
                    && message@ == "Group not found"@,
            },
    {
        let id = fresh_id();
        let item = CommandItem { id: id.clone(), name, command, is_detached };
        match self.push_command(group_id, item) {
            Ok(_) => Ok(id),
            Err(message) => Err(message),
        }
    }

    /// Copies of all groups, each once, in the store's order.
    pub fn get_groups(&self) -> (groups: Vec<CommandGroup>)
        ensures
            groups.len() == self.order().len(),
            forall|i: int|
                0 <= i < groups.len() ==> self@.contains_key(self.order()[i]) && (#[trigger] groups[i])@
                    == self@[self.order()[i]],
            self.order().no_duplicates(),
            forall|key: Seq<char>| self@.contains_key(key) <==> self.order().contains(key),
    {
        proof {
            use_type_invariant(self);
        }
        let mut groups: Vec<CommandGroup> = Vec::new();
        let mut i: usize = 0;
        while i < self.entries.len()
            invariant
                i <= self.entries.len(),
                groups.len() == i,
                keys_of(self.entries@).no_duplicates(),
                forall|j: int|
                    0 <= j < i ==> self@.contains_key(self.order()[j]) && (#[trigger] groups[j])@
                        == self@[self.order()[j]],
            decreases self.entries.len() - i,
        {
            proof {
                lemma_entry_at(self.entries@, i as int);
            }
            groups.push(self.entries[i].group.clone());
            i += 1;
        }
        groups
    }

    /// Copies of all groups with their keys, each once, in the store's order.
    pub fn entries(&self) -> (pairs: Vec<(String, CommandGroup)>)
        ensures
            pairs.len() == self.order().len(),
            forall|i: int|
                0 <= i < pairs.len() ==> (#[trigger] pairs[i]).0@ == self.order()[i]
                    && self@.contains_key(self.order()[i]) && pairs[i].1@ == self@[self.order()[i]],
            self.order().no_duplicates(),
            forall|key: Seq<char>| self@.contains_key(key) <==> self.order().contains(key),
    {
        proof {
            use_type_invariant(self);
        }
        let mut pairs: Vec<(String, CommandGroup)> = Vec::new();
        let mut i: usize = 0;
        while i < self.entries.len()
            invariant
                i <= self.entries.len(),
                pairs.len() == i,
                keys_of(self.entries@).no_duplicates(),
                forall|j: int|
                    0 <= j < i ==> (#[trigger] pairs[j]).0@ == self.order()[j] && self@.contains_key(
                        self.order()[j],
                    ) && pairs[j].1@ == self@[self.order()[j]],
            decreases self.entries.len() - i,
        {
            proof {
                lemma_entry_at(self.entries@, i as int);
            }
            pairs.push((self.entries[i].key.clone(), self.entries[i].group.clone()));
            i += 1;
        }
        pairs
    }
}

/// Copies of the commands whose identifier is not `command_id`.
fn retain_others(items: &Vec<CommandItem>, command_id: &str) -> (kept: Vec<CommandItem>)
    ensures
        item_views(kept@) == without_command(item_views(items@), command_id@),
{
    let ghost all = item_views(items@);
    let ghost others = |item: CommandItemView| item.id != command_id@;
    let mut kept: Vec<CommandItem> = Vec::new();
    let mut i: usize = 0;
    proof {
        reveal(Seq::filter);
    }
    while i < items.len()
        invariant
            i <= items.len(),
            all == item_views(items@),
            others == (|item: CommandItemView| item.id != command_id@),
            item_views(kept@) == all.subrange(0, i as int).filter(others),
        decreases items.len() - i,
    {
        proof {
            reveal(Seq::filter);
            assert(all.subrange(0, i + 1).drop_last() =~= all.subrange(0, i as int));
        }
        if !same_text(items[i].id.as_str(), command_id) {
            kept.push(items[i].clone());
        }
        i += 1;
    }
    assert(all.subrange(0, items.len() as int) =~= all);
    kept
}

} // verus!
