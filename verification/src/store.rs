//! The list store as this subsystem sees it: the commands it sends, the
//! replies it gets, and what a store that works does with a command.

use vstd::prelude::*;

verus! {

/// A command for the store of keyed lists. Each is atomic in the store.
#[derive(Debug)]
pub enum StoreCommand {
    /// Asks for the length of the list at `key`.
    Length { key: String },
    /// Keeps of the list at `key` the items from position `start` to
    /// position `stop`, both counted from the head and both included.
    Trim { key: String, start: isize, stop: isize },
    /// Puts `item` at the head of the list at `key`.
    PushFront { key: String, item: String },
    /// Asks for the position of the first `item` in the list at `key`.
    FindPosition { key: String, item: String },
    /// Takes the first `item` out of the list at `key`, if there is one.
    RemoveOne { key: String, item: String },
}

/// A command, by the characters of its strings.
pub enum CommandView {
    Length { key: Seq<char> },
    Trim { key: Seq<char>, start: int, stop: int },
    PushFront { key: Seq<char>, item: Seq<char> },
    FindPosition { key: Seq<char>, item: Seq<char> },
    RemoveOne { key: Seq<char>, item: Seq<char> },
}

impl View for StoreCommand {
    type V = CommandView;

    open spec fn view(&self) -> CommandView {
        match self {
            StoreCommand::Length { key } => CommandView::Length { key: key@ },
            StoreCommand::Trim { key, start, stop } => CommandView::Trim {
                key: key@,
                start: *start as int,
                stop: *stop as int,
            },
            StoreCommand::PushFront { key, item } => CommandView::PushFront {
                key: key@,
                item: item@,
            },
            StoreCommand::FindPosition { key, item } => CommandView::FindPosition {
                key: key@,
                item: item@,
            },
            StoreCommand::RemoveOne { key, item } => CommandView::RemoveOne {
                key: key@,
                item: item@,
            },
        }
    }
}

/// What came back from the store for a command.
#[derive(Clone, Copy, Debug)]
pub enum StoreReply {
    /// The length asked for.
    Length(isize),
    /// The position asked for; `None` where the item is not in the list.
    Position(Option<i32>),
    /// The list was changed as asked.
    Done,
    /// The store could not be reached, or failed.
    Failed,
}

/// A reply, with numbers of any size.
pub enum ReplyView {
    Length(int),
    Position(Option<int>),
    Done,
    Failed,
}

impl View for StoreReply {
    type V = ReplyView;

    open spec fn view(&self) -> ReplyView {
        match self {
            StoreReply::Length(n) => ReplyView::Length(*n as int),
            StoreReply::Position(Some(i)) => ReplyView::Position(Some(*i as int)),
            StoreReply::Position(None) => ReplyView::Position(None),
            StoreReply::Done => ReplyView::Done,
            StoreReply::Failed => ReplyView::Failed,
        }
    }
}

/// The part of `list` that a trim from `start` to `stop` keeps. A negative
/// position counts from the tail, `-1` being the last item; positions
/// beyond the list are cut to it.
pub open spec fn trimmed(list: Seq<Seq<char>>, start: int, stop: int) -> Seq<Seq<char>> {
    let len = list.len() as int;
    let from = if start >= 0 {
        start
    } else if len + start >= 0 {
        len + start
    } else {
        0
    };
    let to = if stop < 0 {
        len + stop
    } else if stop < len {
        stop
    } else {
        len - 1
    };
    if from > to {
        Seq::empty()
    } else {
        list.subrange(from, to + 1)
    }
}

/// The lists that a store holds, each under its key, head first. A key
/// without an entry has the empty list.
pub struct ListStore {
    pub lists: Map<Seq<char>, Seq<Seq<char>>>,
}

impl ListStore {
    /// The list at `key`.
    pub open spec fn list(self, key: Seq<char>) -> Seq<Seq<char>> {
        if self.lists.dom().contains(key) {
            self.lists[key]
        } else {
            Seq::empty()
        }
    }

    /// The store with `list` at `key` and every other list as it was.
    pub open spec fn with_list(self, key: Seq<char>, list: Seq<Seq<char>>) -> ListStore {
        ListStore { lists: self.lists.insert(key, list) }
    }

    /// Whether both stores hold the same list at every key.
    pub open spec fn same_lists(self, other: ListStore) -> bool {
        forall|key: Seq<char>| self.list(key) == other.list(key)
    }

    /// What a store that works does with a command: the store afterwards and
    /// its reply.
    pub open spec fn execute(self, command: CommandView) -> (ListStore, ReplyView) {
        match command {
            CommandView::Length { key } => (self, ReplyView::Length(self.list(key).len() as int)),
            CommandView::Trim { key, start, stop } => (
                self.with_list(key, trimmed(self.list(key), start, stop)),
                ReplyView::Done,
            ),
            CommandView::PushFront { key, item } => (
                self.with_list(key, seq![item] + self.list(key)),
                ReplyView::Done,
            ),
            CommandView::FindPosition { key, item } => (
                self,
                ReplyView::Position(self.list(key).index_of_first(item)),
            ),
            CommandView::RemoveOne { key, item } => (
                self.with_list(key, self.list(key).remove_value(item)),
                ReplyView::Done,
            ),
        }
    }
}

} // verus!
