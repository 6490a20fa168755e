use garnish_copy::CollectVisitor;
use garnish_copy::Data;
use garnish_copy::DataInfoProvider;
use garnish_copy::DataError;
use garnish_copy::clone_data;
use garnish_copy::iterate_concatentation;

#[test]
fn composite_addresses_ordered_into_fresh_destination() {
    let mut from: Data<()> = Data::new();
    let left = from.add_number(7).unwrap();
    let right = from.add_number(9).unwrap();
    let pair = from.add_pair((left, right)).unwrap();

    let mut to: Data<()> = Data::new();
    let new_addr = clone_data(pair, &from, &mut to).unwrap();

    let (new_left, new_right) = to.get_data().get(new_addr).unwrap().as_pair().unwrap();
    assert!(new_left < new_right);
    assert!(new_right < new_addr);
    assert_eq!((new_left, new_right, new_addr), (3, 4, 5));
}

#[test]
fn list_isomorphism_keeps_length_and_order() {
    let mut from: Data<()> = Data::new();
    from.start_list(4).unwrap();
    for n in [4, 8, 15, 16] {
        let a = from.add_number(n).unwrap();
        from.add_to_list(a, false).unwrap();
    }
    let list = from.end_list().unwrap();

    let mut to: Data<()> = Data::new();
    let new_addr = clone_data(list, &from, &mut to).unwrap();

    let (items, assocs) = to.get_data().get(new_addr).unwrap().as_list().unwrap();
    assert_eq!(items.len(), 4);
    assert!(assocs.is_empty());
    let copied: Vec<i64> = items
        .iter()
        .map(|a| to.get_data().get(*a).unwrap().as_number().unwrap())
        .collect();
    assert_eq!(copied, vec![4, 8, 15, 16]);
}

#[test]
fn association_visible_through_accessors() {
    let mut from: Data<()> = Data::new();
    from.start_list(2).unwrap();
    let sym = from.add_symbol(77).unwrap();
    let num = from.add_number(5).unwrap();
    let pair = from.add_pair((sym, num)).unwrap();
    from.add_to_list(pair, false).unwrap();
    let plain = from.add_number(1).unwrap();
    from.add_to_list(plain, false).unwrap();
    let list = from.end_list().unwrap();

    let mut to: Data<()> = Data::new();
    let new_addr = clone_data(list, &from, &mut to).unwrap();

    assert_eq!(to.get_list_associations_len(new_addr).unwrap(), 1);
    let assoc = to.get_list_association(new_addr, 0).unwrap();
    let (assoc_left, _) = to.get_pair(assoc).unwrap();
    assert_eq!(to.get_symbol(assoc_left).unwrap(), 77);
}

#[test]
fn duplicate_item_address_copied_to_distinct_addresses() {
    let mut from: Data<()> = Data::new();
    let shared = from.add_number(42).unwrap();
    from.start_list(2).unwrap();
    from.add_to_list(shared, false).unwrap();
    from.add_to_list(shared, false).unwrap();
    let list = from.end_list().unwrap();

    let mut to: Data<()> = Data::new();
    let new_addr = clone_data(list, &from, &mut to).unwrap();

    let (items, _) = to.get_data().get(new_addr).unwrap().as_list().unwrap();
    assert_eq!(items.len(), 2);
    assert_ne!(items[0], items[1]);
    assert_eq!(to.get_data().get(items[0]).unwrap().as_number().unwrap(), 42);
    assert_eq!(to.get_data().get(items[1]).unwrap().as_number().unwrap(), 42);
}

#[test]
fn invalid_degrades_to_unit() {
    let mut from: Data<()> = Data::new();
    let addr = from.add_invalid().unwrap();

    let mut to: Data<()> = Data::new();
    let new_addr = clone_data(addr, &from, &mut to).unwrap();

    assert_eq!(new_addr, 0);
    assert!(to.get_data().get(0).unwrap().is_unit());
}

#[test]
fn copy_empty_list() {
    let mut from: Data<()> = Data::new();
    from.start_list(0).unwrap();
    let list = from.end_list().unwrap();

    let mut to: Data<()> = Data::new();
    let new_addr = clone_data(list, &from, &mut to).unwrap();

    assert_eq!(new_addr, 3);
    assert_eq!(
        to.get_data().get(3).unwrap().as_list().unwrap(),
        (vec![], vec![])
    );
}

#[test]
fn copy_empty_char_list() {
    let mut from: Data<()> = Data::new();
    from.start_char_list().unwrap();
    let addr = from.end_char_list().unwrap();

    let mut to: Data<()> = Data::new();
    let new_addr = clone_data(addr, &from, &mut to).unwrap();

    assert_eq!(new_addr, 3);
    assert_eq!(to.get_data().get(3).unwrap().as_char_list().unwrap(), "");
}

#[test]
fn copy_nested_lists() {
    let mut from: Data<()> = Data::new();
    from.start_list(2).unwrap();
    from.start_list(1).unwrap();
    let inner_item = from.add_number(11).unwrap();
    from.add_to_list(inner_item, false).unwrap();
    let inner = from.end_list().unwrap();
    from.add_to_list(inner, false).unwrap();
    let outer_item = from.add_number(22).unwrap();
    from.add_to_list(outer_item, false).unwrap();
    let outer = from.end_list().unwrap();

    let mut to: Data<()> = Data::new();
    let new_addr = clone_data(outer, &from, &mut to).unwrap();

    let (items, _) = to.get_data().get(new_addr).unwrap().as_list().unwrap();
    assert_eq!(items.len(), 2);
    let (inner_items, _) = to.get_data().get(items[0]).unwrap().as_list().unwrap();
    assert_eq!(inner_items.len(), 1);
    assert_eq!(
        to.get_data()
            .get(inner_items[0])
            .unwrap()
            .as_number()
            .unwrap(),
        11
    );
    assert_eq!(to.get_data().get(items[1]).unwrap().as_number().unwrap(), 22);
}

#[test]
fn clone_of_missing_address_fails() {
    let from: Data<()> = Data::new();
    let mut to: Data<()> = Data::new();
    assert_eq!(
        clone_data(99, &from, &mut to),
        Err(DataError::AddressOutOfBounds)
    );
    assert_eq!(to.get_data().len(), 3);
}

#[test]
fn reader_of_wrong_kind_fails() {
    let mut store: Data<()> = Data::new();
    let addr = store.add_char('x').unwrap();
    assert_eq!(store.get_number(addr), Err(DataError::WrongKind));
    assert_eq!(store.get_number(99), Err(DataError::AddressOutOfBounds));
}

#[test]
fn composite_writer_rejects_missing_operand() {
    let mut store: Data<()> = Data::new();
    let n = store.add_number(1).unwrap();
    assert_eq!(store.add_pair((n, 50)), Err(DataError::AddressOutOfBounds));
    assert_eq!(store.add_range(50, n), Err(DataError::AddressOutOfBounds));
    assert_eq!(store.get_data().len(), 4);
}

#[test]
fn list_protocol_requires_start() {
    let mut store: Data<()> = Data::new();
    assert_eq!(store.end_list(), Err(DataError::NoListInProgress));
    assert_eq!(store.add_to_list(0, false), Err(DataError::NoListInProgress));
    assert_eq!(store.add_to_char_list('a'), Err(DataError::NoListInProgress));
    assert_eq!(store.end_char_list(), Err(DataError::NoListInProgress));
    assert_eq!(store.add_to_byte_list(1), Err(DataError::NoListInProgress));
    assert_eq!(store.end_byte_list(), Err(DataError::NoListInProgress));
}

#[test]
fn flatten_simple_concatenation() {
    let mut store: Data<()> = Data::new();
    let a = store.add_number(1).unwrap();
    let b = store.add_number(2).unwrap();
    let cat = store.add_concatenation(a, b).unwrap();

    let mut visitor = CollectVisitor::new();
    iterate_concatentation(cat, &store, &mut visitor).unwrap();
    assert_eq!(visitor.items, vec![a, b]);
}

#[test]
fn flatten_long_chain_in_order() {
    let mut store: Data<()> = Data::new();
    let mut expected = Vec::new();
    let first = store.add_number(0).unwrap();
    expected.push(first);
    let mut chain = first;
    for n in 1..10_000 {
        let leaf = store.add_number(n).unwrap();
        expected.push(leaf);
        chain = store.add_concatenation(chain, leaf).unwrap();
    }

    let mut visitor = CollectVisitor::new();
    iterate_concatentation(chain, &store, &mut visitor).unwrap();
    assert_eq!(visitor.items.len(), 10_000);
    assert_eq!(visitor.items, expected);
}

#[test]
fn flatten_visits_list_items_individually() {
    let mut store: Data<()> = Data::new();
    store.start_list(3).unwrap();
    let mut list_items = Vec::new();
    for n in [5, 6, 7] {
        let a = store.add_number(n).unwrap();
        list_items.push(a);
        store.add_to_list(a, false).unwrap();
    }
    let list = store.end_list().unwrap();
    let single = store.add_number(8).unwrap();
    let cat = store.add_concatenation(list, single).unwrap();

    let mut visitor = CollectVisitor::new();
    iterate_concatentation(cat, &store, &mut visitor).unwrap();
    assert_eq!(visitor.items, vec![list_items[0], list_items[1], list_items[2], single]);
}

#[test]
fn flatten_nested_concatenations_left_to_right() {
    let mut store: Data<()> = Data::new();
    let a = store.add_number(1).unwrap();
    let b = store.add_number(2).unwrap();
    let c = store.add_number(3).unwrap();
    let d = store.add_number(4).unwrap();
    let left = store.add_concatenation(a, b).unwrap();
    let right = store.add_concatenation(c, d).unwrap();
    let top = store.add_concatenation(left, right).unwrap();

    let mut visitor = CollectVisitor::new();
    iterate_concatentation(top, &store, &mut visitor).unwrap();
    assert_eq!(visitor.items, vec![a, b, c, d]);
}

#[test]
fn flatten_rejects_non_concatenation() {
    let mut store: Data<()> = Data::new();
    let n = store.add_number(1).unwrap();
    let mut visitor = CollectVisitor::new();
    assert_eq!(
        iterate_concatentation(n, &store, &mut visitor),
        Err(DataError::WrongKind)
    );
    assert_eq!(
        iterate_concatentation(99, &store, &mut visitor),
        Err(DataError::AddressOutOfBounds)
    );
    assert!(visitor.items.is_empty());
}

#[test]
fn fresh_store_holds_shared_constants() {
    let store: Data<()> = Data::new();
    assert_eq!(store.get_data_len(), 3);
    assert!(store.get_data().get(0).unwrap().is_unit());
    assert!(store.get_data().get(1).unwrap().is_false());
    assert!(store.get_data().get(2).unwrap().is_true());
    let mut store = store;
    assert_eq!(store.add_unit().unwrap(), 0);
    assert_eq!(store.add_false().unwrap(), 1);
    assert_eq!(store.add_true().unwrap(), 2);
    assert_eq!(store.get_data_len(), 3);
}

struct NoInfo;

impl garnish_copy::DataInfoProvider<()> for NoInfo {}

#[test]
fn info_provider_defaults_decline() {
    let store: Data<()> = Data::new();
    let info = NoInfo;
    assert!(info.get_symbol_name(1, &store).is_none());
    assert!(info.get_address_name(0, &store).is_none());
    assert!(info.format_symbol_data(1, &store).is_none());
    assert!(info.format_custom_data(0, &store).is_none());
}

#[test]
fn ordering_holds_with_shared_left_operand() {
    let mut from: Data<()> = Data::new();
    let left = from.add_true().unwrap();
    let right = from.add_number(9).unwrap();
    let pair = from.add_pair((left, right)).unwrap();

    let mut to: Data<()> = Data::new();
    let new_addr = clone_data(pair, &from, &mut to).unwrap();

    let (new_left, new_right) = to.get_data().get(new_addr).unwrap().as_pair().unwrap();
    assert_eq!((new_left, new_right, new_addr), (2, 3, 4));
    assert!(new_left < new_right && new_right < new_addr);
}
