use option_calculator::adjustables::Adjustables;
use option_calculator::deletable_list::{DeletableList, DeletableListMessage};

fn add(item: &mut i64, amount: i64) {
    *item += amount;
}

fn show(item: &i64) -> String {
    format!("{}", item)
}

type Numbers = DeletableList<u32, i64, i64, fn(&mut i64, i64), fn(&i64) -> String>;

fn numbers() -> Numbers {
    DeletableList::new(add, show)
}

#[test]
fn a_new_list_is_empty() {
    let list = numbers();
    assert!(list.data.is_empty());
    assert_eq!(list.scan_ID(&1), None);
}

#[test]
fn a_new_list_keeps_its_two_functions() {
    let list = numbers();
    let mut n = 40;
    (list.item_update)(&mut n, 2);
    assert_eq!(n, 42);
    assert_eq!((list.item_view)(&n), "42");
}

#[test]
fn unique_push_appends_in_order() {
    let mut list = numbers();
    list.unique_push(7, 70);
    list.unique_push(3, 30);
    list.unique_push(9, 90);
    assert_eq!(list.data, vec![(7, 70), (3, 30), (9, 90)]);
}

#[test]
fn unique_push_leaves_the_list_alone_where_the_id_is_held() {
    let mut list = numbers();
    list.unique_push(7, 70);
    list.unique_push(3, 30);
    list.unique_push(7, 71);
    assert_eq!(list.data, vec![(7, 70), (3, 30)]);
}

#[test]
fn scan_finds_the_lowest_index() {
    let mut list = numbers();
    list.data = vec![(5, 1), (6, 2), (5, 3), (6, 4)];
    assert_eq!(list.scan_ID(&5), Some(0));
    assert_eq!(list.scan_ID(&6), Some(1));
    assert_eq!(list.scan_ID(&7), None);
}

#[test]
fn delete_removes_the_entry_and_closes_the_gap() {
    let mut list = numbers();
    list.unique_push(1, 10);
    list.unique_push(2, 20);
    list.unique_push(3, 30);
    list.update(DeletableListMessage::Delete(1));
    assert_eq!(list.data, vec![(1, 10), (3, 30)]);
    list.update(DeletableListMessage::Delete(0));
    assert_eq!(list.data, vec![(3, 30)]);
    list.update(DeletableListMessage::Delete(0));
    assert!(list.data.is_empty());
}

#[test]
fn a_deleted_id_can_be_pushed_again() {
    let mut list = numbers();
    list.unique_push(1, 10);
    list.unique_push(2, 20);
    list.update(DeletableListMessage::Delete(0));
    list.unique_push(1, 11);
    assert_eq!(list.data, vec![(2, 20), (1, 11)]);
}

#[test]
fn an_item_message_reaches_only_its_item() {
    let mut list = numbers();
    list.unique_push(1, 10);
    list.unique_push(2, 20);
    list.unique_push(3, 30);
    list.update(DeletableListMessage::Item(1, 5));
    assert_eq!(list.data, vec![(1, 10), (2, 25), (3, 30)]);
    list.update(DeletableListMessage::Item(2, -30));
    assert_eq!(list.data, vec![(1, 10), (2, 25), (3, 0)]);
}

#[test]
fn adjustables_serve_as_identifiers() {
    let mut list: DeletableList<Adjustables, i64, i64, fn(&mut i64, i64), fn(&i64) -> String> =
        DeletableList::new(add, show);
    for a in Adjustables::everything() {
        list.unique_push(a, a.index() as i64);
        list.unique_push(a, -1);
    }
    assert_eq!(list.data.len(), Adjustables::COUNT);
    for a in Adjustables::everything() {
        assert_eq!(list.scan_ID(&a), Some(a.index()));
        assert_eq!(list.data[a.index()].1, a.index() as i64);
    }
    list.update(DeletableListMessage::Delete(Adjustables::Expiry.index()));
    assert_eq!(list.scan_ID(&Adjustables::Expiry), None);
    assert_eq!(list.scan_ID(&Adjustables::EndPrice), Some(1));
}

#[test]
fn messages_can_be_cloned() {
    let delete: DeletableListMessage<i64> = DeletableListMessage::Delete(3);
    assert!(matches!(delete.clone(), DeletableListMessage::Delete(3)));
    let item = DeletableListMessage::Item(2, 8i64);
    assert!(matches!(item.clone(), DeletableListMessage::Item(2, 8)));
}
