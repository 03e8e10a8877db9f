use restaurant::database::mock::MockDB;
use restaurant::database::Database;
use restaurant::errors::Error;

#[test]
fn test_mock_db() {
    let mut db = MockDB::new().unwrap();
    let pizza_id = db.insert_order("Pizza", 1).unwrap().id;
    let burger_id = db.insert_order("Burger", 2).unwrap().id;
    let pasta_id = db.insert_order("Pasta", 1).unwrap().id;

    let result = db.get_order(1).unwrap();
    assert_eq!(result.items.len(), 2);
    assert_eq!(result.items[0].name, "Pizza");
    assert_eq!(result.items[0].id, pizza_id as u32);
    assert_eq!(result.items[1].name, "Pasta");
    assert_eq!(result.items[1].id, pasta_id as u32);

    let result = db.get_order(2).unwrap();
    assert_eq!(result.items.len(), 1);
    assert_eq!(result.items[0].name, "Burger");
    assert_eq!(result.items[0].id, burger_id as u32);

    let result = db.get_order(3);
    assert!(result.is_err());

    assert_eq!(db.get_order_item(1, pizza_id).unwrap().name, "Pizza");
    assert_eq!(db.get_order_item(2, burger_id).unwrap().name, "Burger");
    assert_eq!(db.get_order_item(1, pasta_id).unwrap().name, "Pasta");

    assert!(db.delete_item(1, pizza_id).is_ok());
    assert!(db.delete_item(1, pizza_id).is_err());
    assert!(db.delete_item(1, burger_id).is_err());
    assert!(db.delete_item(2, burger_id).is_ok());
}

#[test]
fn ids_increase_and_times_are_in_range() {
    let mut db = MockDB::new().unwrap();
    let first = db.insert_orders(vec!["A".to_string(), "B".to_string()], 4).unwrap();
    let second = db.insert_orders(vec!["C".to_string()], 5).unwrap();
    assert_eq!(first.iter().map(|i| i.id).collect::<Vec<_>>(), vec![0, 1]);
    assert_eq!(second[0].id, 2);
    for item in first.iter().chain(second.iter()) {
        assert!(item.time_to_completion >= 5 && item.time_to_completion < 15);
    }
    assert_eq!(first[0].name, "A");
    assert_eq!(first[1].name, "B");
    let order = db.get_order(4).unwrap();
    assert_eq!(order.table_number, 4);
    assert_eq!(order.items.len(), 2);
    assert_eq!(order.items[1].time_to_completion, first[1].time_to_completion);
    assert!(db.insert_orders(vec![], 9).unwrap().is_empty());
    assert!(matches!(db.get_order(9), Err(Error::NotFound(_))));
}

#[test]
fn deleted_item_is_gone() {
    let mut db = MockDB::new().unwrap();
    let items = db.insert_orders(vec!["Pizza".to_string(), "Soda".to_string()], 1).unwrap();
    let gone = db.delete_item(1, items[0].id).unwrap();
    assert_eq!(gone.name, "Pizza");
    assert!(matches!(db.get_order_item(1, items[0].id), Err(Error::NotFound(_))));
    assert!(matches!(db.delete_item(1, items[0].id), Err(Error::NotFound(_))));
    assert_eq!(db.get_order(1).unwrap().items.len(), 1);
    assert_eq!(db.find_by_name("Soda").unwrap().id, items[1].id);
    assert!(db.find_by_name("Pizza").is_none());
}
