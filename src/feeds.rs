//! Canned market and news data that stand in for live feeds in
//! demonstrations and replays.

use vstd::prelude::*;

verus! {

/// Best bid and offer of one instrument at one instant; prices in the
/// smallest currency unit.
#[derive(Debug, Clone, Copy, PartialEq, Eq, Structural)]
pub struct BboUpdate {
    pub instrument_id: u32,
    pub best_bid_price: u64,
    pub best_bid_size: u32,
    pub best_ask_price: u64,
    pub best_ask_size: u32,
    pub timestamp_ns: u64,
}

pub open spec fn bbo(
    instrument_id: u32,
    best_bid_price: u64,
    best_ask_price: u64,
    best_bid_size: u32,
    best_ask_size: u32,
    timestamp_ns: u64,
) -> BboUpdate {
    BboUpdate {
        instrument_id,
        best_bid_price,
        best_bid_size,
        best_ask_price,
        best_ask_size,
        timestamp_ns,
    }
}

/// A few seconds of market activity on two instruments, in time order.
pub open spec fn mock_history() -> Seq<BboUpdate> {
    seq![
        bbo(1, 60000_05, 60000_15, 10, 12, 1_000_000_000),
        bbo(2, 60035_10, 60035_22, 5, 8, 1_000_500_000),
        bbo(1, 60000_04, 60000_14, 15, 10, 1_001_000_000),
        bbo(1, 60000_06, 60000_16, 8, 11, 2_000_000_000),
        bbo(2, 60035_09, 60035_21, 7, 9, 2_000_800_000),
    ]
}

/// The canned market history.
pub fn load_mock_historical_data() -> (r: Vec<BboUpdate>)
    ensures
        r@ == mock_history(),
{
    let mut r: Vec<BboUpdate> = Vec::new();
    r.push(BboUpdate { instrument_id: 1, best_bid_price: 60000_05, best_bid_size: 10, best_ask_price: 60000_15, best_ask_size: 12, timestamp_ns: 1_000_000_000 });
    r.push(BboUpdate { instrument_id: 2, best_bid_price: 60035_10, best_bid_size: 5, best_ask_price: 60035_22, best_ask_size: 8, timestamp_ns: 1_000_500_000 });
    r.push(BboUpdate { instrument_id: 1, best_bid_price: 60000_04, best_bid_size: 15, best_ask_price: 60000_14, best_ask_size: 10, timestamp_ns: 1_001_000_000 });
    r.push(BboUpdate { instrument_id: 1, best_bid_price: 60000_06, best_bid_size: 8, best_ask_price: 60000_16, best_ask_size: 11, timestamp_ns: 2_000_000_000 });
    r.push(BboUpdate { instrument_id: 2, best_bid_price: 60035_09, best_bid_size: 7, best_ask_price: 60035_21, best_ask_size: 9, timestamp_ns: 2_000_800_000 });
    assert(r@ =~= mock_history());
    r
}

/// The canned news message, as JSON text.
pub open spec fn simulated_news_text() -> Seq<char> {
    "{\n    \"source\": \"FinancialWire\",\n    \"headline\": \"Tech Giant 'Innovate Inc.' Announces Breakthrough in Chip Technology\",\n    \"sentiment_score\": 0.75,\n    \"related_symbols\": [\"INVT\", \"CHIP\", \"SEMI\"]\n}"@
}

/// One message of a news-sentiment feed.
pub fn get_simulated_news_message() -> (r: String)
    ensures
        r@ == simulated_news_text(),
{
    "{\n    \"source\": \"FinancialWire\",\n    \"headline\": \"Tech Giant 'Innovate Inc.' Announces Breakthrough in Chip Technology\",\n    \"sentiment_score\": 0.75,\n    \"related_symbols\": [\"INVT\", \"CHIP\", \"SEMI\"]\n}".to_owned()
}

} // verus!
