//! Command definitions and the groups that own them.

use vstd::prelude::*;

verus! {

/// One shell command of a group.
///
/// `command` is handed to the host shell as it is; nothing here parses it.
/// A command whose `is_detached` is absent runs attached.
#[derive(Debug, PartialEq, Eq)]
pub struct CommandItem {
    pub id: String,
    pub name: String,
    pub command: String,
    pub is_detached: Option<bool>,
}

/// A command as contracts see it.
pub struct CommandItemView {
    pub id: Seq<char>,
    pub name: Seq<char>,
    pub command: Seq<char>,
    pub is_detached: Option<bool>,
}

impl View for CommandItem {
    type V = CommandItemView;

    open spec fn view(&self) -> CommandItemView {
        CommandItemView {
            id: self.id@,
            name: self.name@,
            command: self.command@,
            is_detached: self.is_detached,
        }
    }
}

impl CommandItemView {
    /// Whether the command is launched without waiting for it: only when the
    /// flag is present and set.
    pub open spec fn detached(self) -> bool {
        self.is_detached == Some(true)
    }
}

impl CommandItem {
    /// Whether the command is launched without waiting for it.
    pub fn detached(&self) -> (flag: bool)
        ensures
            flag == self@.detached(),
    {
        match self.is_detached {
            Some(flag) => flag,
            None => false,
        }
    }
}

impl Clone for CommandItem {
    fn clone(&self) -> (copy: Self)
        ensures
            copy@ == self@,
    {
        CommandItem {
            id: self.id.clone(),
            name: self.name.clone(),
            command: self.command.clone(),
            is_detached: self.is_detached,
        }
    }
}

/// A named, ordered list of commands. The order is the order of a batch run.
#[derive(Debug, PartialEq, Eq)]
pub struct CommandGroup {
    pub id: String,
    pub name: String,
    pub commands: Vec<CommandItem>,
}

/// A group as contracts see it.
pub struct CommandGroupView {
    pub id: Seq<char>,
    pub name: Seq<char>,
    pub commands: Seq<CommandItemView>,
}

/// The views of a list of commands, in the same order.
pub open spec fn item_views(items: Seq<CommandItem>) -> Seq<CommandItemView> {
    items.map_values(|item: CommandItem| item@)
}

impl View for CommandGroup {
    type V = CommandGroupView;

    open spec fn view(&self) -> CommandGroupView {
        CommandGroupView {
            id: self.id@,
            name: self.name@,
            commands: item_views(self.commands@),
        }
    }
}

/// A copy of a list of commands.
pub fn clone_items(items: &Vec<CommandItem>) -> (copy: Vec<CommandItem>)
    ensures
        item_views(copy@) == item_views(items@),
{
    let mut copy: Vec<CommandItem> = Vec::new();
    let mut i: usize = 0;
    while i < items.len()
        invariant
            i <= items.len(),
            copy.len() == i,
            forall|j: int| 0 <= j < i ==> copy@[j]@ == items@[j]@,
        decreases items.len() - i,
    {
        copy.push(items[i].clone());
        i += 1;
    }
    copy
}

impl Clone for CommandGroup {
    fn clone(&self) -> (copy: Self)
        ensures
            copy@ == self@,
    {
        CommandGroup {
            id: self.id.clone(),
            name: self.name.clone(),
            commands: clone_items(&self.commands),
        }
    }
}

} // verus!
