//! The resource table: the resources of all files, grouped by kind.
//!
//! Groups stand in the order in which their kinds were first seen, and the
//! resources of a group in the order in which they were added. Nothing is
//! deduplicated: a name may occur twice in a group, and a lookup finds the
//! first.
use vstd::prelude::*;
use crate::text::str_eq;
use crate::types::{ResourceValue, ValueView};

verus! {

/// The resources of one kind.
#[derive(Debug, Clone)]
pub struct ResourceGroup {
    pub kind: String,
    pub items: Vec<(String, ResourceValue)>,
}

/// The mathematical value of a `ResourceGroup`.
pub struct GroupView {
    pub kind: Seq<char>,
    pub items: Seq<(Seq<char>, ValueView)>,
}

/// The views of a list of named values.
pub open spec fn items_view(items: Seq<(String, ResourceValue)>) -> Seq<(Seq<char>, ValueView)> {
    Seq::new(items.len(), |i: int| (items[i].0@, items[i].1@))
}

impl View for ResourceGroup {
    type V = GroupView;

    open spec fn view(&self) -> GroupView {
        GroupView { kind: self.kind@, items: items_view(self.items@) }
    }
}

/// All resources, grouped by kind.
#[derive(Debug, Clone)]
pub struct ResourceTable {
    pub groups: Vec<ResourceGroup>,
}

impl View for ResourceTable {
    type V = Seq<GroupView>;

    open spec fn view(&self) -> Seq<GroupView> {
        Seq::new(self.groups@.len(), |i: int| self.groups@[i]@)
    }
}

/// The position at or after `i` of the first group of the given kind.
pub open spec fn group_index_from(t: Seq<GroupView>, kind: Seq<char>, i: int) -> Option<int>
    decreases t.len() - i,
{
    if i < 0 || i >= t.len() {
        None
    } else if t[i].kind == kind {
        Some(i)
    } else {
        group_index_from(t, kind, i + 1)
    }
}

/// The position of the first group of the given kind.
pub open spec fn group_index(t: Seq<GroupView>, kind: Seq<char>) -> Option<int> {
    group_index_from(t, kind, 0)
}

/// The position at or after `i` of the first resource with the given name.
pub open spec fn item_index_from(items: Seq<(Seq<char>, ValueView)>, key: Seq<char>, i: int)
    -> Option<int>
    decreases items.len() - i,
{
    if i < 0 || i >= items.len() {
        None
    } else if items[i].0 == key {
        Some(i)
    } else {
        item_index_from(items, key, i + 1)
    }
}

/// The resources of the given kind: those of the first group of that kind.
pub open spec fn group_items(t: Seq<GroupView>, kind: Seq<char>) -> Option<
    Seq<(Seq<char>, ValueView)>,
> {
    match group_index(t, kind) {
        Some(i) => Some(t[i].items),
        None => None,
    }
}

/// The value of the first resource of the given kind and name.
pub open spec fn lookup(t: Seq<GroupView>, kind: Seq<char>, key: Seq<char>) -> Option<ValueView> {
    match group_items(t, kind) {
        Some(items) => match item_index_from(items, key, 0) {
            Some(j) => Some(items[j].1),
            None => None,
        },
        None => None,
    }
}

/// The table after one more resource: appended to the group of its kind,
/// or alone in a new last group where the kind is new.
pub open spec fn pushed(t: Seq<GroupView>, kind: Seq<char>, name: Seq<char>, value: ValueView)
    -> Seq<GroupView> {
    match group_index(t, kind) {
        Some(i) => t.update(i, GroupView { kind: t[i].kind, items: t[i].items.push((name, value)) }),
        None => t.push(GroupView { kind, items: seq![(name, value)] }),
    }
}

/// The table without any resource.
pub open spec fn empty_table() -> Seq<GroupView> {
    Seq::empty()
}

/// Finds the first resource with the given name.
pub fn find_item<'a>(items: &'a Vec<(String, ResourceValue)>, key: &str) -> (r: Option<usize>)
    ensures
        match r {
            Some(j) => item_index_from(items_view(items@), key@, 0) == Some(j as int) && j
                < items@.len(),
            None => item_index_from(items_view(items@), key@, 0).is_none(),
        },
{
    let mut j: usize = 0;
    while j < items.len()
        invariant
            j <= items@.len(),
            item_index_from(items_view(items@), key@, 0) == item_index_from(
                items_view(items@),
                key@,
                j as int,
            ),
        decreases items@.len() - j,
    {
        assert(items_view(items@)[j as int].0 == items@[j as int].0@);
        if str_eq(items[j].0.as_str(), key) {
            return Some(j);
        }
        j = j + 1;
    }
    None
}

impl ResourceTable {
    pub fn new() -> (t: Self)
        ensures
            t@ == empty_table(),
    {
        let t = ResourceTable { groups: Vec::new() };
        assert(t@ =~= empty_table());
        t
    }

    /// The position of the first group of the given kind.
    pub fn position(&self, kind: &str) -> (r: Option<usize>)
        ensures
            match r {
                Some(i) => group_index(self@, kind@) == Some(i as int) && i < self.groups@.len(),
                None => group_index(self@, kind@).is_none(),
            },
    {
        let mut i: usize = 0;
        while i < self.groups.len()
            invariant
                i <= self.groups@.len(),
                group_index(self@, kind@) == group_index_from(self@, kind@, i as int),
            decreases self.groups@.len() - i,
        {
            assert(self@[i as int].kind == self.groups@[i as int].kind@);
            if str_eq(self.groups[i].kind.as_str(), kind) {
                return Some(i);
            }
            i = i + 1;
        }
        None
    }

    /// The resources of the given kind.
    pub fn get(&self, kind: &str) -> (r: Option<&Vec<(String, ResourceValue)>>)
        ensures
            match group_items(self@, kind@) {
                Some(items) => r.is_some() && items_view(r.unwrap()@) == items,
                None => r.is_none(),
            },
    {
        match self.position(kind) {
            Some(i) => {
                assert(self@[i as int] == self.groups@[i as int]@);
                Some(&self.groups[i].items)
            },
            None => None,
        }
    }

    /// The value of the first resource of the given kind and name.
    pub fn find(&self, kind: &str, key: &str) -> (r: Option<&ResourceValue>)
        ensures
            match lookup(self@, kind@, key@) {
                Some(v) => r.is_some() && r.unwrap()@ == v,
                None => r.is_none(),
            },
    {
        match self.get(kind) {
            Some(items) => match find_item(items, key) {
                Some(j) => {
                    assert(items_view(items@)[j as int].1 == items@[j as int].1@);
                    assert(group_items(self@, kind@) == Some(items_view(items@)));
                    Some(&items[j].1)
                },
                None => None,
            },
            None => None,
        }
    }

    /// Adds a resource to the group of its kind.
    pub fn push(&mut self, kind: &str, name: String, value: ResourceValue)
        ensures
            final(self)@ == pushed(old(self)@, kind@, name@, value@),
    {
        match self.position(kind) {
            Some(i) => {
                let mut group = self.groups.remove(i);
                let ghost before = group@;
                group.items.push((name, value));
                assert(group@.items =~= before.items.push((name@, value@)));
                self.groups.insert(i, group);
                assert(self@ =~= pushed(old(self)@, kind@, name@, value@));
            },
            None => {
                let mut items: Vec<(String, ResourceValue)> = Vec::new();
                items.push((name, value));
                let group = ResourceGroup { kind: kind.to_string(), items };
                assert(group@.items =~= seq![(name@, value@)]);
                self.groups.push(group);
                assert(self@ =~= pushed(old(self)@, kind@, name@, value@));
            },
        }
    }
}

} // verus!
