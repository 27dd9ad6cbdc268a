use restaurant::client::{
    action_for, house_order, Client, ClientActions, JobOutcome, FIRST_TABLE, LAST_TABLE,
    MAX_JOBS, MAX_WAIT, MIN_WAIT, WAITSTAFF,
};
use restaurant::database::{Action, Restaurant};
use restaurant::item::Item;

fn plate(id: u128, name: &str, cook_time: u32) -> Item {
    Item { name: name.to_string(), cook_time, _id: id }
}

/// Identifier, name and cook time of each dish of `table`, or `None` where
/// the table has no entry.
fn on_table(res: &Restaurant, table: u8) -> Option<Vec<(u128, String, u32)>> {
    match res.items_from_table(table) {
        Ok(Action::Data(items)) => {
            Some(items.iter().map(|i| (i._id, i.name.clone(), i.cook_time)).collect())
        }
        Ok(other) => panic!("a query answered {:?}", other),
        Err(_) => None,
    }
}

#[test]
fn constants_of_the_simulation() {
    assert_eq!(WAITSTAFF, 25);
    assert_eq!((FIRST_TABLE, LAST_TABLE), (1, 15));
    assert_eq!((MIN_WAIT, MAX_WAIT), (1000, 5000));
    assert_eq!(MAX_JOBS, 3);
}

#[test]
fn client_keeps_its_id() {
    assert_eq!(Client::new(0).id, 0);
    assert_eq!(Client::new(24).id, 24);
    assert_eq!(Client::new(255).id, 255);
}

#[test]
fn rolls_map_to_actions() {
    assert!(matches!(action_for(1), ClientActions::WriteOrder));
    assert!(matches!(action_for(2), ClientActions::RemoveItem));
    assert!(matches!(action_for(3), ClientActions::TableStatus));
    assert!(matches!(action_for(0), ClientActions::TableStatus));
    assert!(matches!(action_for(u64::MAX), ClientActions::TableStatus));
}

#[test]
fn waits_stay_in_range_and_vary() {
    let client = Client::new(1);
    let waits: Vec<u64> = (0..200).map(|_| client.wait_some_time()).collect();
    assert!(waits.iter().all(|&w| 1000 <= w && w <= 5000));
    assert!(waits.iter().any(|&w| w != waits[0]));
}

#[test]
fn job_counts_stay_in_range() {
    let client = Client::new(1);
    let counts: Vec<u64> = (0..200).map(|_| client.job_count()).collect();
    assert!(counts.iter().all(|&c| 1 <= c && c <= 3));
    assert!(counts.iter().any(|&c| c != counts[0]));
}

#[test]
fn house_order_is_ramen_curry_coffee() {
    let order = house_order();
    let names: Vec<&str> = order.iter().map(|i| i.name.as_str()).collect();
    assert_eq!(names, vec!["Pork Ramen", "Chicken Curry", "Coffee"]);
    for item in &order {
        assert!(5 <= item.cook_time && item.cook_time <= 15);
        assert_eq!((item._id >> 76) & 0xf, 4);
        assert_eq!((item._id >> 62) & 0x3, 2);
    }
    assert_ne!(order[0]._id, order[1]._id);
    assert_ne!(order[1]._id, order[2]._id);
    assert_ne!(order[0]._id, order[2]._id);
}

#[test]
fn status_of_a_missing_table() {
    let res = Restaurant::new();
    match Client::new(1).table_status(&res, 3) {
        JobOutcome::Status(Err(e)) => assert_eq!(e, "Table is empty"),
        other => panic!("unexpected outcome {:?}", other),
    }
}

#[test]
fn status_of_a_served_table() {
    let mut res = Restaurant::new();
    res.add_items(3, vec![plate(1, "Soup", 5), plate(2, "Rice", 6)]).unwrap();
    match Client::new(1).table_status(&res, 3) {
        JobOutcome::Status(Ok(Action::Data(items))) => {
            let ids: Vec<u128> = items.iter().map(|i| i._id).collect();
            assert_eq!(ids, vec![1, 2]);
        }
        other => panic!("unexpected outcome {:?}", other),
    }
    assert_eq!(on_table(&res, 3).map(|d| d.len()), Some(2));
}

#[test]
fn written_order_is_appended() {
    let mut res = Restaurant::new();
    res.add_items(3, vec![plate(1, "Soup", 5)]).unwrap();
    let outcome =
        Client::new(1).write_order(&mut res, 3, vec![plate(2, "Rice", 6), plate(3, "Tea", 7)]);
    match outcome {
        JobOutcome::Ordered(written) => {
            let ids: Vec<u128> = written.iter().map(|i| i._id).collect();
            assert_eq!(ids, vec![2, 3]);
        }
        other => panic!("unexpected outcome {:?}", other),
    }
    assert_eq!(
        on_table(&res, 3),
        Some(vec![
            (1, "Soup".to_string(), 5),
            (2, "Rice".to_string(), 6),
            (3, "Tea".to_string(), 7),
        ])
    );
}

#[test]
fn written_order_creates_the_table() {
    let mut res = Restaurant::new();
    let outcome = Client::new(1).write_order(&mut res, 8, vec![plate(2, "Rice", 6)]);
    assert!(matches!(outcome, JobOutcome::Ordered(_)));
    assert_eq!(on_table(&res, 8), Some(vec![(2, "Rice".to_string(), 6)]));
}

#[test]
fn mistake_removes_the_last_dish() {
    let mut res = Restaurant::new();
    res.add_items(3, vec![plate(1, "Soup", 5), plate(2, "Rice", 6), plate(3, "Tea", 7)]).unwrap();
    match Client::new(1).remove_mistake(&mut res, 3) {
        JobOutcome::Removed(dish) => {
            assert_eq!((dish._id, dish.name.as_str(), dish.cook_time), (3, "Tea", 7))
        }
        other => panic!("unexpected outcome {:?}", other),
    }
    assert_eq!(
        on_table(&res, 3),
        Some(vec![(1, "Soup".to_string(), 5), (2, "Rice".to_string(), 6)])
    );
}

#[test]
fn mistake_removes_by_identifier() {
    let mut res = Restaurant::new();
    res.add_items(3, vec![plate(7, "Tea", 5), plate(1, "Soup", 5), plate(7, "Tea again", 6)])
        .unwrap();
    assert!(matches!(Client::new(1).remove_mistake(&mut res, 3), JobOutcome::Removed(_)));
    assert_eq!(on_table(&res, 3), Some(vec![(1, "Soup".to_string(), 5)]));
}

#[test]
fn mistake_at_an_empty_table() {
    let mut res = Restaurant::new();
    res.add_items(3, Vec::new()).unwrap();
    assert!(matches!(Client::new(1).remove_mistake(&mut res, 3), JobOutcome::NothingToRemove));
    assert_eq!(on_table(&res, 3), Some(Vec::new()));
}

#[test]
fn mistake_at_a_missing_table() {
    let mut res = Restaurant::new();
    match Client::new(1).remove_mistake(&mut res, 3) {
        JobOutcome::NoTable(e) => assert_eq!(e, "Table is empty"),
        other => panic!("unexpected outcome {:?}", other),
    }
    assert_eq!(on_table(&res, 3), None);
}

#[test]
fn jobs_change_the_store_as_reported() {
    let client = Client::new(7);
    let mut res = Restaurant::new();
    let mut seen = [false; 3];
    for _ in 0..400 {
        let before: Vec<Option<Vec<(u128, String, u32)>>> =
            (0..=255u8).map(|t| on_table(&res, t)).collect();
        let report = client.do_job(&mut res);
        assert!(1 <= report.table && report.table <= 15);
        let at = report.table as usize;
        let mut expected = before.clone();
        match (&report.action, &report.outcome) {
            (ClientActions::TableStatus, JobOutcome::Status(answer)) => {
                seen[0] = true;
                match answer {
                    Ok(Action::Data(items)) => {
                        let told: Vec<(u128, String, u32)> =
                            items.iter().map(|i| (i._id, i.name.clone(), i.cook_time)).collect();
                        assert_eq!(Some(told), before[at]);
                    }
                    Ok(other) => panic!("a query answered {:?}", other),
                    Err(e) => {
                        assert_eq!(e, "Table is empty");
                        assert_eq!(before[at], None);
                    }
                }
            }
            (ClientActions::WriteOrder, JobOutcome::Ordered(order)) => {
                seen[1] = true;
                let names: Vec<&str> = order.iter().map(|i| i.name.as_str()).collect();
                assert_eq!(names, vec!["Pork Ramen", "Chicken Curry", "Coffee"]);
                let mut dishes = before[at].clone().unwrap_or_default();
                dishes.extend(order.iter().map(|i| (i._id, i.name.clone(), i.cook_time)));
                expected[at] = Some(dishes);
            }
            (ClientActions::RemoveItem, JobOutcome::Removed(dish)) => {
                seen[2] = true;
                let dishes = before[at].clone().expect("a dish came off a missing table");
                let last = dishes.last().expect("a dish came off an empty table").clone();
                assert_eq!(last, (dish._id, dish.name.clone(), dish.cook_time));
                expected[at] = Some(dishes.into_iter().filter(|d| d.0 != last.0).collect());
            }
            (ClientActions::RemoveItem, JobOutcome::NothingToRemove) => {
                assert_eq!(before[at], Some(Vec::new()));
            }
            (ClientActions::RemoveItem, JobOutcome::NoTable(e)) => {
                assert_eq!(e, "Table is empty");
                assert_eq!(before[at], None);
            }
            (action, outcome) => panic!("{:?} came to {:?}", action, outcome),
        }
        let after: Vec<Option<Vec<(u128, String, u32)>>> =
            (0..=255u8).map(|t| on_table(&res, t)).collect();
        assert_eq!(after, expected);
    }
    assert_eq!(seen, [true; 3]);
}
