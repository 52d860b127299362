use risk_core::feeds::{get_simulated_news_message, load_mock_historical_data, BboUpdate};

#[test]
fn mock_history_is_in_time_order() {
    let data = load_mock_historical_data();
    assert_eq!(data.len(), 5);
    assert_eq!(
        data[0],
        BboUpdate {
            instrument_id: 1,
            best_bid_price: 60000_05,
            best_bid_size: 10,
            best_ask_price: 60000_15,
            best_ask_size: 12,
            timestamp_ns: 1_000_000_000
        }
    );
    assert_eq!(data[4].instrument_id, 2);
    assert_eq!(data[4].best_ask_price, 60035_21);
    assert!(data.windows(2).all(|w| w[0].timestamp_ns <= w[1].timestamp_ns));
}

#[test]
fn news_message_is_json() {
    let text = get_simulated_news_message();
    let value: serde_json::Value = serde_json::from_str(&text).unwrap();
    assert_eq!(value["source"], "FinancialWire");
    assert_eq!(value["related_symbols"][2], "SEMI");
}
