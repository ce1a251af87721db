use keeper_core::inventory::Inventory;
use keeper_core::item::Item;

#[test]
fn it_should_add_item_successfully() {
    let mut inventory: Inventory<i64> = Inventory::new();
    let item = Item {
        id: "1".to_string(),
        name: "Item 1".to_string(),
        quantity: 1,
        properties: Vec::new(),
    };
    inventory.add_item(item).unwrap();
    assert_eq!(inventory.get_total_quantity(), 1);
}

#[test]
fn it_should_update_item_successfully() {
    let mut inventory: Inventory<i64> = Inventory::new();
    let item = Item {
        id: "1".to_string(),
        name: "Item 1".to_string(),
        quantity: 1,
        properties: Vec::new(),
    };
    inventory.add_item(item).unwrap();
    let new_item = Item {
        id: "1".to_string(),
        name: "Item 1".to_string(),
        quantity: 2,
        properties: Vec::new(),
    };
    inventory.update_item("1", new_item).unwrap();
    assert_eq!(inventory.get_total_quantity(), 2);
}

#[test]
fn it_should_delete_item_successfully() {
    let mut inventory: Inventory<i64> = Inventory::new();
    let item = Item {
        id: "1".to_string(),
        name: "Item 1".to_string(),
        quantity: 1,
        properties: Vec::new(),
    };
    inventory.add_item(item).unwrap();
    inventory.delete_item("1").unwrap();
    assert_eq!(inventory.get_total_quantity(), 0);
}

#[test]
fn it_should_get_total_quantity_successfully() {
    let mut inventory: Inventory<i64> = Inventory::new();
    let item1 = Item {
        id: "1".to_string(),
        name: "Item 1".to_string(),
        quantity: 1,
        properties: Vec::new(),
    };
    let item2 = Item {
        id: "2".to_string(),
        name: "Item 2".to_string(),
        quantity: 2,
        properties: Vec::new(),
    };
    inventory.add_item(item1).unwrap();
    inventory.add_item(item2).unwrap();
    assert_eq!(inventory.get_total_quantity(), 3);
}
