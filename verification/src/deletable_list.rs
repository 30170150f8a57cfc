//! A list of items, each paired with an identifier, from which any entry can
//! be deleted and to which an identifier is added at most once.

use vstd::prelude::*;
use vstd::std_specs::cmp::PartialEqSpec;

verus! {

/// What can happen to a deletable list: an entry is deleted, or a message
/// arrives for the item of one entry.
#[derive(Debug, Clone)]
pub enum DeletableListMessage<T: Clone> {
    /// Delete the entry at this index.
    Delete(usize),
    /// Hand the message to the item at this index.
    Item(usize, T),
}

/// A list of `(identifier, item)` entries in insertion order, with the two
/// functions that the items are updated and shown with.
///
/// The list never calls `item_view`; it keeps it for whoever draws the list.
/// `message` holds nothing: it names the kind of message that the items take.
pub struct DeletableList<Id, Item, ItemMessage, Update, View> where
    Id: Clone + PartialEq,
    ItemMessage: Clone,
    Update: Fn(&mut Item, ItemMessage),
 {
    pub data: Vec<(Id, Item)>,
    pub item_view: View,
    pub item_update: Update,
    pub message: core::marker::PhantomData<ItemMessage>,
}

impl<Id, Item, ItemMessage, Update, View> DeletableList<Id, Item, ItemMessage, Update, View> where
    Id: Clone + PartialEq,
    ItemMessage: Clone,
    Update: Fn(&mut Item, ItemMessage),
 {
    /// Whether some entry's identifier is found equal to `id`.
    pub open spec fn has_id(&self, id: &Id) -> bool {
        exists|j: int| 0 <= j < self.data@.len() && id.eq_spec(&#[trigger] self.data@[j].0)
    }

    /// Whether `i` is the lowest index whose identifier is found equal to `id`.
    pub open spec fn is_first_with_id(&self, id: &Id, i: int) -> bool {
        &&& 0 <= i < self.data@.len()
        &&& id.eq_spec(&self.data@[i].0)
        &&& forall|j: int| 0 <= j < i ==> !id.eq_spec(&#[trigger] self.data@[j].0)
    }

    /// Whether no entry's identifier is found equal to that of an earlier entry.
    pub open spec fn ids_unique(&self) -> bool {
        forall|i: int, j: int|
            0 <= i < j < self.data@.len() ==> !(#[trigger] self.data@[j]).0.eq_spec(
                &(#[trigger] self.data@[i]).0,
            )
    }

    /// An empty list that updates and shows its items with the two functions given.
    pub fn new(update: Update, view: View) -> (list: Self)
        ensures
            list.data@ == Seq::<(Id, Item)>::empty(),
            list.item_update == update,
            list.item_view == view,
            list.ids_unique(),
    {
        DeletableList {
            data: Vec::new(),
            item_view: view,
            item_update: update,
            message: core::marker::PhantomData,
        }
    }

    /// Carries out `message`: deletes the entry it names, or hands its payload
    /// to the update function together with the item it names. Every other
    /// entry, and every identifier, stays as it was.
    pub fn update(&mut self, message: DeletableListMessage<ItemMessage>)
        requires
            match message {
                DeletableListMessage::Delete(i) => i < old(self).data@.len(),
                DeletableListMessage::Item(i, payload) => {
                    &&& i < old(self).data@.len()
                    &&& forall|item: &mut Item|
                        *item == old(self).data@[i as int].1 ==> call_requires(
                            old(self).item_update,
                            (item, payload),
                        )
                },
            },
        ensures
            final(self).item_update == old(self).item_update,
            final(self).item_view == old(self).item_view,
            match message {
                DeletableListMessage::Delete(i) => final(self).data@ == old(self).data@.remove(
                    i as int,
                ),
                DeletableListMessage::Item(i, payload) => {
                    &&& final(self).data@.len() == old(self).data@.len()
                    &&& forall|j: int|
                        0 <= j < old(self).data@.len() && j != i ==> final(self).data@[j] == old(
                            self,
                        ).data@[j]
                    &&& final(self).data@[i as int].0 == old(self).data@[i as int].0
                    &&& exists|item: &mut Item|
                        {
                            &&& *item == old(self).data@[i as int].1
                            &&& *final(item) == final(self).data@[i as int].1
                            &&& #[trigger] call_ensures(old(self).item_update, (item, payload), ())
                        }
                },
            },
            old(self).ids_unique() ==> final(self).ids_unique(),
    {
        match message {
            DeletableListMessage::Delete(i) => {
                self.data.remove(i);
            },
            DeletableListMessage::Item(i, payload) => {
                (self.item_update)(&mut self.data[i].1, payload);
            },
        }
    }

    /// The lowest index at which `id` is held, if it is held at all.
    #[allow(non_snake_case)]
    pub fn scan_ID(&self, id: &Id) -> (found: Option<usize>)
        ensures
            found matches Some(i) ==> i < self.data@.len(),
            Id::obeys_eq_spec() ==> match found {
                Some(i) => self.is_first_with_id(id, i as int),
                None => !self.has_id(id),
            },
    {
        let mut i: usize = 0;
        while i < self.data.len()
            invariant
                i <= self.data@.len(),
                Id::obeys_eq_spec() ==> forall|j: int|
                    0 <= j < i ==> !id.eq_spec(&#[trigger] self.data@[j].0),
            decreases self.data@.len() - i,
        {
            if *id == self.data[i].0 {
                return Some(i);
            }
            i += 1;
        }
        None
    }

    /// Appends `(id, item)` unless `id` is already held; then the list stays as it is.
    pub fn unique_push(&mut self, id: Id, item: Item)
        ensures
            final(self).item_update == old(self).item_update,
            final(self).item_view == old(self).item_view,
            final(self).data@ == old(self).data@ || final(self).data@ == old(self).data@.push(
                (id, item),
            ),
            Id::obeys_eq_spec() ==> final(self).data@ == if old(self).has_id(&id) {
                old(self).data@
            } else {
                old(self).data@.push((id, item))
            },
            Id::obeys_eq_spec() && old(self).ids_unique() ==> final(self).ids_unique(),
    {
        if self.scan_ID(&id).is_none() {
            self.data.push((id, item));
        }
    }
}

} // verus!
