use garnish_copy::Data;
use garnish_copy::Kind;
use garnish_copy::NumberHandler;
use garnish_copy::clone_data;
use garnish_copy::clone_data_with_custom_handler;

#[test]
fn copy_number() {
    let mut from: Data<()> = Data::new();
    let addr = from.add_number(40).unwrap();

    let mut to: Data<()> = Data::new();
    to.add_number(10).unwrap();
    to.add_number(20).unwrap();
    to.add_number(30).unwrap();

    let new_addr = clone_data(addr, &from, &mut to).unwrap();

    assert_eq!(new_addr, 6);
    assert_eq!(to.get_data().get(6).unwrap().as_number().unwrap(), 40);
}

#[test]
fn copy_unit() {
    let mut from: Data<()> = Data::new();
    let addr = from.add_unit().unwrap();

    let mut to: Data<()> = Data::new();
    to.add_number(10).unwrap();
    to.add_number(20).unwrap();
    to.add_number(30).unwrap();

    let new_addr = clone_data(addr, &from, &mut to).unwrap();

    assert_eq!(new_addr, 0);
    assert!(to.get_data().get(0).unwrap().is_unit());
}

#[test]
fn copy_true() {
    let mut from: Data<()> = Data::new();
    let addr = from.add_true().unwrap();

    let mut to: Data<()> = Data::new();
    to.add_number(10).unwrap();
    to.add_number(20).unwrap();
    to.add_number(30).unwrap();

    let new_addr = clone_data(addr, &from, &mut to).unwrap();

    assert_eq!(new_addr, 2);
    assert!(to.get_data().get(2).unwrap().is_true());
}

#[test]
fn copy_false() {
    let mut from: Data<()> = Data::new();
    let addr = from.add_false().unwrap();

    let mut to: Data<()> = Data::new();
    to.add_number(10).unwrap();
    to.add_number(20).unwrap();
    to.add_number(30).unwrap();

    let new_addr = clone_data(addr, &from, &mut to).unwrap();

    assert_eq!(new_addr, 1);
    assert!(to.get_data().get(1).unwrap().is_false());
}

#[test]
fn copy_type() {
    let mut from: Data<()> = Data::new();
    let addr = from.add_type(Kind::Byte).unwrap();

    let mut to: Data<()> = Data::new();
    to.add_number(10).unwrap();
    to.add_number(20).unwrap();
    to.add_number(30).unwrap();

    let new_addr = clone_data(addr, &from, &mut to).unwrap();

    assert_eq!(new_addr, 6);
    assert_eq!(to.get_data().get(6).unwrap().as_type().unwrap(), Kind::Byte);
}

#[test]
fn copy_char() {
    let mut from: Data<()> = Data::new();
    let addr = from.add_char('a').unwrap();

    let mut to: Data<()> = Data::new();
    to.add_number(10).unwrap();
    to.add_number(20).unwrap();
    to.add_number(30).unwrap();

    let new_addr = clone_data(addr, &from, &mut to).unwrap();

    assert_eq!(new_addr, 6);
    assert_eq!(to.get_data().get(6).unwrap().as_char().unwrap(), 'a');
}

#[test]
fn copy_char_list() {
    let mut from: Data<()> = Data::new();
    from.start_char_list().unwrap();
    for c in "stuff".chars() {
        from.add_to_char_list(c).unwrap();
    }
    let addr = from.end_char_list().unwrap();

    let mut to: Data<()> = Data::new();
    to.add_number(10).unwrap();
    to.add_number(20).unwrap();
    to.add_number(30).unwrap();

    let new_addr = clone_data(addr, &from, &mut to).unwrap();

    assert_eq!(new_addr, 6);
    assert_eq!(
        to.get_data().get(6).unwrap().as_char_list().unwrap(),
        "stuff"
    );
}

#[test]
fn copy_byte() {
    let mut from: Data<()> = Data::new();
    let addr = from.add_byte(10).unwrap();

    let mut to: Data<()> = Data::new();
    to.add_number(10).unwrap();
    to.add_number(20).unwrap();
    to.add_number(30).unwrap();

    let new_addr = clone_data(addr, &from, &mut to).unwrap();

    assert_eq!(new_addr, 6);
    assert_eq!(to.get_data().get(6).unwrap().as_byte().unwrap(), 10);
}

#[test]
fn copy_byte_list() {
    let mut from: Data<()> = Data::new();
    from.start_byte_list().unwrap();
    from.add_to_byte_list(100).unwrap();
    from.add_to_byte_list(150).unwrap();
    from.add_to_byte_list(200).unwrap();
    let addr = from.end_byte_list().unwrap();

    let mut to: Data<()> = Data::new();
    to.add_number(10).unwrap();
    to.add_number(20).unwrap();
    to.add_number(30).unwrap();

    let new_addr = clone_data(addr, &from, &mut to).unwrap();

    assert_eq!(new_addr, 6);
    assert_eq!(
        to.get_data().get(6).unwrap().as_byte_list().unwrap(),
        vec![100, 150, 200]
    );
}

#[test]
fn copy_range() {
    let mut from: Data<()> = Data::new();
    let s = from.add_number(1).unwrap();
    let e = from.add_number(5).unwrap();
    let addr = from.add_range(s, e).unwrap();

    let mut to: Data<()> = Data::new();
    to.add_number(10).unwrap();
    to.add_number(20).unwrap();
    to.add_number(30).unwrap();

    let new_addr = clone_data(addr, &from, &mut to).unwrap();

    assert_eq!(new_addr, 8);
    assert_eq!(to.get_data().get(8).unwrap().as_range().unwrap(), (6, 7));
    assert_eq!(to.get_data().get(6).unwrap().as_number().unwrap(), 1);
    assert_eq!(to.get_data().get(7).unwrap().as_number().unwrap(), 5);
}

#[test]
fn copy_symbol() {
    let mut from: Data<()> = Data::new();
    let addr = from.add_symbol(100).unwrap();

    let mut to: Data<()> = Data::new();
    to.add_number(10).unwrap();
    to.add_number(20).unwrap();
    to.add_number(30).unwrap();

    let new_addr = clone_data(addr, &from, &mut to).unwrap();

    assert_eq!(new_addr, 6);
    assert_eq!(to.get_data().get(6).unwrap().as_symbol().unwrap(), 100);
}

#[test]
fn copy_expression() {
    let mut from: Data<()> = Data::new();
    let addr = from.add_expression(100).unwrap();

    let mut to: Data<()> = Data::new();
    to.add_number(10).unwrap();
    to.add_number(20).unwrap();
    to.add_number(30).unwrap();

    let new_addr = clone_data(addr, &from, &mut to).unwrap();

    assert_eq!(new_addr, 6);
    assert_eq!(to.get_data().get(6).unwrap().as_expression().unwrap(), 100);
}

#[test]
fn copy_external() {
    let mut from: Data<()> = Data::new();
    let addr = from.add_external(100).unwrap();

    let mut to: Data<()> = Data::new();
    to.add_number(10).unwrap();
    to.add_number(20).unwrap();
    to.add_number(30).unwrap();

    let new_addr = clone_data(addr, &from, &mut to).unwrap();

    assert_eq!(new_addr, 6);
    assert_eq!(to.get_data().get(6).unwrap().as_external().unwrap(), 100);
}

#[derive(Copy, Clone, PartialOrd, PartialEq, Eq, Debug, Hash)]
struct CustomData {
    num: usize,
}

#[test]
fn copy_custom_no_handler() {
    let mut from: Data<CustomData> = Data::new();
    let addr = from.add_custom(CustomData { num: 12345 }).unwrap();

    let mut to: Data<CustomData> = Data::new();
    to.add_number(10).unwrap();
    to.add_number(20).unwrap();
    to.add_number(30).unwrap();

    let new_addr = clone_data(addr, &from, &mut to).unwrap();

    assert_eq!(new_addr, 0);
    assert!(to.get_data().get(0).unwrap().is_unit());
}

#[test]
fn copy_custom_handler() {
    let mut from: Data<CustomData> = Data::new();
    let addr = from.add_custom(CustomData { num: 12345 }).unwrap();

    let mut to: Data<CustomData> = Data::new();
    to.add_number(10).unwrap();
    to.add_number(20).unwrap();
    to.add_number(30).unwrap();

    let handler = NumberHandler { value: 12345 };
    let new_addr = clone_data_with_custom_handler(addr, &from, &mut to, &handler).unwrap();

    assert_eq!(new_addr, 6);
    assert_eq!(to.get_data().get(6).unwrap().as_number().unwrap(), 12345);
}

#[test]
fn copy_pair() {
    let mut from: Data<()> = Data::new();
    let d1 = from.add_symbol(100).unwrap();
    let d2 = from.add_number(200).unwrap();
    let d3 = from.add_pair((d1, d2)).unwrap();

    let mut to: Data<()> = Data::new();
    to.add_number(10).unwrap();
    to.add_number(20).unwrap();
    to.add_number(30).unwrap();

    let new_addr = clone_data(d3, &from, &mut to).unwrap();

    assert_eq!(new_addr, 8);
    assert_eq!(to.get_data().get(8).unwrap().as_pair().unwrap(), (6, 7));
    assert_eq!(to.get_data().get(6).unwrap().as_symbol().unwrap(), 100);
    assert_eq!(to.get_data().get(7).unwrap().as_number().unwrap(), 200);
}

#[test]
fn copy_concatenation() {
    let mut from: Data<()> = Data::new();
    let d1 = from.add_symbol(100).unwrap();
    let d2 = from.add_number(200).unwrap();
    let d3 = from.add_concatenation(d1, d2).unwrap();

    let mut to: Data<()> = Data::new();
    to.add_number(10).unwrap();
    to.add_number(20).unwrap();
    to.add_number(30).unwrap();

    let new_addr = clone_data(d3, &from, &mut to).unwrap();

    assert_eq!(new_addr, 8);
    assert_eq!(
        to.get_data().get(8).unwrap().as_concatenation().unwrap(),
        (6, 7)
    );
    assert_eq!(to.get_data().get(6).unwrap().as_symbol().unwrap(), 100);
    assert_eq!(to.get_data().get(7).unwrap().as_number().unwrap(), 200);
}

#[test]
fn copy_list() {
    let mut from: Data<()> = Data::new();
    from.start_list(3).unwrap();
    from.add_number(100)
        .and_then(|i| from.add_to_list(i, false))
        .unwrap();
    from.add_number(200)
        .and_then(|i| from.add_to_list(i, false))
        .unwrap();
    from.add_number(300)
        .and_then(|i| from.add_to_list(i, false))
        .unwrap();
    let d4 = from.end_list().unwrap();

    let mut to: Data<()> = Data::new();
    to.add_number(10).unwrap();
    to.add_number(20).unwrap();
    to.add_number(30).unwrap();

    let new_addr = clone_data(d4, &from, &mut to).unwrap();

    assert_eq!(new_addr, 9);
    assert_eq!(
        to.get_data().get(9).unwrap().as_list().unwrap(),
        (vec![6, 7, 8], vec![])
    );
    assert_eq!(to.get_data().get(6).unwrap().as_number().unwrap(), 100);
    assert_eq!(to.get_data().get(7).unwrap().as_number().unwrap(), 200);
    assert_eq!(to.get_data().get(8).unwrap().as_number().unwrap(), 300);
}

#[test]
fn copy_list_with_associations() {
    let mut from: Data<()> = Data::new();
    from.start_list(3).unwrap();

    let left = from.add_symbol(200).unwrap();
    let right = from.add_number(100).unwrap();
    from.add_pair((left, right))
        .and_then(|i| from.add_to_list(i, false))
        .unwrap();
    let d4 = from.end_list().unwrap();

    let mut to: Data<()> = Data::new();
    to.add_number(10).unwrap();
    to.add_number(20).unwrap();
    to.add_number(30).unwrap();

    let new_addr = clone_data(d4, &from, &mut to).unwrap();

    assert_eq!(new_addr, 9);
    assert_eq!(
        to.get_data().get(9).unwrap().as_list().unwrap(),
        (vec![8], vec![8])
    );
    assert_eq!(to.get_data().get(7).unwrap().as_number().unwrap(), 100);
    assert_eq!(to.get_data().get(6).unwrap().as_symbol().unwrap(), 200);
}

#[test]
fn copy_slice() {
    let mut from: Data<()> = Data::new();
    let d1 = from.add_number(1).unwrap();
    let d2 = from.add_number(3).unwrap();
    let d3 = from.add_range(d1, d2).unwrap();
    from.start_list(3).unwrap();
    from.add_number(100)
        .and_then(|i| from.add_to_list(i, false))
        .unwrap();
    from.add_number(200)
        .and_then(|i| from.add_to_list(i, false))
        .unwrap();
    from.add_number(300)
        .and_then(|i| from.add_to_list(i, false))
        .unwrap();
    let d4 = from.end_list().unwrap();
    let d5 = from.add_slice(d4, d3).unwrap();

    let mut to: Data<()> = Data::new();
    to.add_number(10).unwrap();
    to.add_number(20).unwrap();
    to.add_number(30).unwrap();

    let new_addr = clone_data(d5, &from, &mut to).unwrap();

    assert_eq!(new_addr, 13);
    assert_eq!(to.get_data().get(13).unwrap().as_slice().unwrap(), (9, 12));
    assert_eq!(to.get_data().get(12).unwrap().as_range().unwrap(), (10, 11));
    assert_eq!(to.get_data().get(10).unwrap().as_number().unwrap(), 1);
    assert_eq!(to.get_data().get(11).unwrap().as_number().unwrap(), 3);
    assert_eq!(
        to.get_data().get(9).unwrap().as_list().unwrap(),
        (vec![6, 7, 8], vec![])
    );
    assert_eq!(to.get_data().get(6).unwrap().as_number().unwrap(), 100);
    assert_eq!(to.get_data().get(7).unwrap().as_number().unwrap(), 200);
    assert_eq!(to.get_data().get(8).unwrap().as_number().unwrap(), 300);
}
