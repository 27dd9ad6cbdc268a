use restaurant::client::Client;
use restaurant::database::{Action, Restaurant};
use restaurant::item::Item;
use std::sync::Mutex;

/// What worker `worker` orders in its batch number `batch`.
fn batch_of(worker: u8, batch: u32) -> Vec<Item> {
    (0..(batch % 4))
        .map(|k| Item {
            name: format!("w{}b{}k{}", worker, batch, k),
            cook_time: 5 + k,
            _id: ((worker as u128) << 64) | ((batch as u128) << 8) | k as u128,
        })
        .collect()
}

#[test]
fn workers_on_tables_of_their_own() {
    let store = Mutex::new(Restaurant::new());
    let clients: Vec<Client> = (0..8u8).map(Client::new).collect();
    let mut done = [0u32; 8];
    // Whose turn it is changes from step to step; each worker keeps its own order.
    let mut turn: usize = 3;
    while done.iter().any(|&d| d < 20) {
        turn = (turn * 5 + 7) % 8;
        if done[turn] < 20 {
            let client = &clients[turn];
            let order = batch_of(client.id, done[turn]);
            let mut guard = store.lock().unwrap();
            client.write_order(&mut guard, 10 + client.id, order);
            done[turn] += 1;
        } else {
            turn += 1;
        }
    }
    let store = store.lock().unwrap();
    for worker in 0..8u8 {
        let expected: Vec<(u128, String, u32)> = (0..20u32)
            .flat_map(|batch| batch_of(worker, batch))
            .map(|i| (i._id, i.name, i.cook_time))
            .collect();
        match store.items_from_table(10 + worker) {
            Ok(Action::Data(items)) => {
                let told: Vec<(u128, String, u32)> =
                    items.iter().map(|i| (i._id, i.name.clone(), i.cook_time)).collect();
                assert_eq!(told, expected);
            }
            other => panic!("table {} answered {:?}", 10 + worker, other),
        }
    }
    for table in 0..=255u8 {
        if !(10..18).contains(&table) {
            assert!(store.items_from_table(table).is_err());
        }
    }
}
