use weather_station_bot::reading::{
    get_all_weather_messages, median_weather, NewWeatherMessage, ReadingStore, StoreError,
    WeatherMessage,
};
use weather_station_bot::registry::{
    get_all_subscribers, subscribe, unsubscribe, NewSubscriber, Registry, RegistryError, Subscriber,
};
use weather_station_bot::telemetry::EspWeatherMessage;

fn reading(stamp: &str, temp: f32) -> NewWeatherMessage {
    NewWeatherMessage::stamped(
        stamp.to_string(),
        temp.to_bits(),
        101_325.0f32.to_bits(),
        50.0f32.to_bits(),
    )
}

fn temps(rows: &[WeatherMessage]) -> Vec<f32> {
    rows.iter().map(|r| f32::from_bits(r.temp)).collect()
}

#[test]
fn lib_test_select_weather_message() {
    let store = ReadingStore::new();
    let results = get_all_weather_messages(&store);
    assert!(results.is_empty())
}

#[test]
fn db_test_select_weather_message() {
    let store = ReadingStore::new();
    let results = median_weather(1, 10, &store);
    assert!(results.is_empty())
}

#[test]
fn lib_test_insert_and_delete_weather_message() {
    let mut store = ReadingStore::new();
    let new_weather_message =
        NewWeatherMessage::new(25.0f32.to_bits(), 10000.0f32.to_bits(), 55.0f32.to_bits());
    let result = new_weather_message.save_to_db(&mut store);

    assert!(result.is_ok());

    let last_log = get_all_weather_messages(&store);
    assert_eq!(last_log.len(), 1);

    let last_log_id: i32 = last_log[0].id;
    assert_eq!(result, Ok(last_log_id));
    assert_eq!(f32::from_bits(last_log[0].temp), 25.0);
    assert_eq!(f32::from_bits(last_log[0].pressure), 10000.0);
    assert_eq!(f32::from_bits(last_log[0].humidity), 55.0);
    assert_eq!(last_log[0].timestamp, new_weather_message.timestamp);

    // The log keeps what it was given: the row cannot be taken out again.
    let results = get_all_weather_messages(&store);
    assert_eq!(results.len(), 1);
    assert_eq!(store.len(), 1);
}

#[test]
fn db_test_insert_and_delete_weather_message() {
    let mut store = ReadingStore::new();
    let new_weather_message =
        NewWeatherMessage::new(25.0f32.to_bits(), 10000.0f32.to_bits(), 55.0f32.to_bits());
    let result = store.append(new_weather_message.duplicate());

    assert!(result.is_ok());

    let last_log = median_weather(1, -1, &store);
    assert_eq!(last_log.len(), 1);

    let last_log = &last_log[0];
    assert_eq!(Ok(last_log.id), result);
    assert_eq!(f32::from_bits(last_log.temp), 25.0);
    assert_eq!(f32::from_bits(last_log.pressure), 10000.0);
    assert_eq!(f32::from_bits(last_log.humidity), 55.0);

    // The log keeps what it was given: the row cannot be taken out again.
    let results = median_weather(1, -1, &store);
    assert_eq!(results.len(), 1);
    assert_eq!(store.len(), 1);
}

#[test]
fn saving_returns_the_identifier_of_the_new_row() {
    let mut store = ReadingStore::new();
    assert_eq!(reading("a", 1.0).save_to_db(&mut store), Ok(1));
    assert_eq!(reading("b", 2.0).save_to_db(&mut store), Ok(2));
    assert_eq!(store.append(reading("c", 3.0)), Ok(3));
    let fourth = reading("d", 4.0);
    assert_eq!(fourth.save_to_db(&mut store), Ok(4));
    assert_eq!(fourth.timestamp, "d");
    let rows = store.recent(4);
    let ids: Vec<i32> = rows.iter().map(|r| r.id).collect();
    assert_eq!(ids, vec![4, 3, 2, 1]);
    assert_eq!(temps(&rows), vec![4.0, 3.0, 2.0, 1.0]);
    assert_eq!(rows[0].timestamp, "d");
    let mut later = ReadingStore::new();
    assert!(later.restore(WeatherMessage {
        id: 41,
        timestamp: "x".to_string(),
        temp: 0,
        pressure: 0,
        humidity: 0,
    }));
    assert_eq!(reading("y", 5.0).save_to_db(&mut later), Ok(42));
}

#[test]
fn test_subscription() {
    const TEST_SUB_ID: i64 = 123;
    let mut registry = Registry::new();
    let sub_result = subscribe(TEST_SUB_ID, &mut registry);
    if let Err(e) = sub_result {
        println!("{:?}", e);
    }
    assert!(sub_result.is_ok());

    let subscriber: Subscriber = sub_result.unwrap();
    assert_eq!(subscriber.telegram_chat_id, TEST_SUB_ID);
    assert!(registry.contains(TEST_SUB_ID));

    let unsub_result = unsubscribe(TEST_SUB_ID, &mut registry);
    assert!(unsub_result.is_ok());
    assert!(!registry.contains(TEST_SUB_ID));
    let result = unsubscribe(TEST_SUB_ID, &mut registry);
    assert!(result.is_err());
}

#[test]
fn subscribing_twice_is_refused_the_second_time() {
    let mut registry = Registry::new();
    assert_eq!(subscribe(7, &mut registry), Ok(Subscriber { id: 1, telegram_chat_id: 7 }));
    assert_eq!(subscribe(7, &mut registry), Err(RegistryError::AlreadyExists));
    assert_eq!(get_all_subscribers(&registry), vec![7]);
    assert_eq!(unsubscribe(7, &mut registry), Ok(()));
    assert_eq!(get_all_subscribers(&registry), Vec::<i64>::new());
}

#[test]
fn unsubscribing_a_stranger_is_refused() {
    let mut registry = Registry::new();
    assert_eq!(unsubscribe(7, &mut registry), Err(RegistryError::NotFound));
    assert_eq!(subscribe(8, &mut registry), Ok(Subscriber { id: 1, telegram_chat_id: 8 }));
    assert_eq!(unsubscribe(7, &mut registry), Err(RegistryError::NotFound));
    assert_eq!(get_all_subscribers(&registry), vec![8]);
    assert_eq!(registry.len(), 1);
}

#[test]
fn identifiers_grow_and_are_not_given_twice() {
    let mut registry = Registry::new();
    assert_eq!(subscribe(-5, &mut registry).unwrap().id, 1);
    assert_eq!(subscribe(10, &mut registry).unwrap().id, 2);
    assert_eq!(subscribe(i64::MIN, &mut registry).unwrap().id, 3);
    assert_eq!(unsubscribe(10, &mut registry), Ok(()));
    assert_eq!(subscribe(10, &mut registry).unwrap().id, 4);
    assert_eq!(get_all_subscribers(&registry), vec![-5, i64::MIN, 10]);
    assert_eq!(
        registry.insert(NewSubscriber { telegram_chat_id: 11 }),
        Ok(Subscriber { id: 5, telegram_chat_id: 11 })
    );
}

#[test]
fn restored_subscribers_keep_their_identifiers() {
    let mut registry = Registry::new();
    assert!(registry.restore(Subscriber { id: 4, telegram_chat_id: 40 }));
    assert!(registry.restore(Subscriber { id: 9, telegram_chat_id: 90 }));
    assert!(!registry.restore(Subscriber { id: 9, telegram_chat_id: 91 }));
    assert!(!registry.restore(Subscriber { id: 12, telegram_chat_id: 40 }));
    assert!(!registry.restore(Subscriber { id: -3, telegram_chat_id: 5 }));
    assert_eq!(get_all_subscribers(&registry), vec![40, 90]);
    assert_eq!(subscribe(50, &mut registry), Ok(Subscriber { id: 10, telegram_chat_id: 50 }));
}

#[test]
fn a_full_registry_refuses_to_write() {
    let mut registry = Registry::new();
    assert!(registry.restore(Subscriber { id: i32::MAX, telegram_chat_id: 1 }));
    assert_eq!(subscribe(2, &mut registry), Err(RegistryError::WriteFailed));
    assert_eq!(subscribe(1, &mut registry), Err(RegistryError::AlreadyExists));
    assert_eq!(get_all_subscribers(&registry), vec![1]);
    assert_eq!(unsubscribe(1, &mut registry), Ok(()));
    assert_eq!(subscribe(1, &mut registry), Err(RegistryError::WriteFailed));
}

#[test]
fn recent_reads_the_newest_first() {
    let mut store = ReadingStore::new();
    let mut n = 1;
    while n <= 5 {
        assert_eq!(store.append(reading("t", n as f32)), Ok(n));
        n += 1;
    }
    assert_eq!(temps(&store.recent(3)), vec![5.0, 4.0, 3.0]);
    assert_eq!(temps(&store.recent(5)), vec![5.0, 4.0, 3.0, 2.0, 1.0]);
    assert_eq!(temps(&store.recent(50)), vec![5.0, 4.0, 3.0, 2.0, 1.0]);
    assert_eq!(temps(&store.recent(0)), Vec::<f32>::new());
    let ids: Vec<i32> = store.recent(2).iter().map(|r| r.id).collect();
    assert_eq!(ids, vec![5, 4]);
    assert_eq!(temps(&get_all_weather_messages(&store)), vec![5.0, 4.0, 3.0, 2.0, 1.0]);
    assert_eq!(store.len(), 5);
}

#[test]
fn median_window_is_bounded_by_the_limit() {
    let mut store = ReadingStore::new();
    let mut n = 1;
    while n <= 4 {
        assert_eq!(store.append(reading("t", n as f32)), Ok(n));
        n += 1;
    }
    assert_eq!(temps(&median_weather(7, 2, &store)), vec![4.0, 3.0]);
    assert_eq!(temps(&median_weather(7, 4, &store)), vec![4.0, 3.0, 2.0, 1.0]);
    assert_eq!(temps(&median_weather(7, i64::MAX, &store)), vec![4.0, 3.0, 2.0, 1.0]);
    assert_eq!(temps(&median_weather(0, -1, &store)), vec![4.0, 3.0, 2.0, 1.0]);
    assert_eq!(temps(&median_weather(0, i64::MIN, &store)), vec![4.0, 3.0, 2.0, 1.0]);
    assert_eq!(temps(&median_weather(0, 0, &store)), Vec::<f32>::new());
}

#[test]
fn a_full_log_refuses_to_write_and_stays_as_it_is() {
    let mut store = ReadingStore::new();
    let last = WeatherMessage {
        id: i32::MAX,
        timestamp: "2020-01-01T00:00:00+00:00".to_string(),
        temp: 1.0f32.to_bits(),
        pressure: 2.0f32.to_bits(),
        humidity: 3.0f32.to_bits(),
    };
    assert!(store.restore(last));
    assert_eq!(store.append(reading("t", 9.0)), Err(StoreError::WriteFailed));
    assert_eq!(reading("t", 9.0).save_to_db(&mut store), Err(StoreError::WriteFailed));
    assert_eq!(store.len(), 1);
    assert_eq!(temps(&store.recent(5)), vec![1.0]);
}

#[test]
fn restored_rows_keep_their_identifiers() {
    let mut store = ReadingStore::new();
    let row = |id: i32, t: f32| WeatherMessage {
        id,
        timestamp: "s".to_string(),
        temp: t.to_bits(),
        pressure: 0,
        humidity: 0,
    };
    assert!(store.restore(row(3, 3.0)));
    assert!(store.restore(row(8, 8.0)));
    assert!(!store.restore(row(8, 8.5)));
    assert!(!store.restore(row(2, 2.0)));
    assert_eq!(store.append(reading("t", 9.0)), Ok(9));
    assert_eq!(temps(&store.recent(10)), vec![9.0, 8.0, 3.0]);
    let copy = store.recent(1)[0].duplicate();
    assert_eq!(copy.id, 9);
    assert_eq!(copy.timestamp, "t");
}

#[test]
fn a_reading_holds_the_numbers_of_its_message() {
    let msg = EspWeatherMessage {
        temp: 32.0f32.to_bits(),
        pressure: 101_325.0f32.to_bits(),
        humidity: 50.0f32.to_bits(),
    };
    let a = NewWeatherMessage::from_esp_weather_message(&msg);
    let b = msg.to_new_weather_message();
    for r in [&a, &b] {
        assert_eq!(f32::from_bits(r.temp), 32.0);
        assert_eq!(f32::from_bits(r.pressure), 101_325.0);
        assert_eq!(f32::from_bits(r.humidity), 50.0);
    }
}

#[test]
fn a_new_reading_is_stamped_with_the_time_in_utc() {
    let before = chrono::Utc::now();
    let r = NewWeatherMessage::new(0, 0, 0);
    let after = chrono::Utc::now();
    let parsed = chrono::DateTime::parse_from_rfc3339(&r.timestamp);
    assert!(parsed.is_ok(), "{}", r.timestamp);
    let at = parsed.unwrap();
    assert_eq!(at.offset().local_minus_utc(), 0);
    assert!(before <= at && at <= after);
    assert!(r.timestamp.ends_with("+00:00"));
    let year: i32 = r.timestamp[0..4].parse().unwrap();
    assert!(year >= 2024);
}
