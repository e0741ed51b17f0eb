//! JSON text, written and read by `serde_json`.
//!
//! The library hands `serde_json` plain values only: lists of texts, lists of
//! numbers, and records, which are tuples of those. What `serde_json` makes of
//! a value is named here and not spelled out. Numbers are written and read
//! as 64-bit numbers, whatever the machine word is; a number that is read and
//! does not fit the machine word is cut to the greatest that does.

use crate::text::{clip, clip_word};
use vstd::prelude::*;

verus! {

/// A passenger as a record: identifier, name, source, destination, location
/// and wait time.
pub type PassengerRecord = (u64, String, String, String, String, u32);

/// A destination and the passengers bound for it.
pub type GroupRecord = (String, Vec<PassengerRecord>);

/// A bus as a record: identifier, passengers by destination, the names of the
/// stops it services, the position of its current stop among them, and its
/// capacity.
pub type BusRecord = (String, Vec<GroupRecord>, Vec<String>, u64, u64);

/// A bus stop as a record: name, waiting passengers by destination, the
/// passengers who arrived, and the buses at the stop.
pub type StopRecord = (String, Vec<GroupRecord>, Vec<PassengerRecord>, Vec<BusRecord>);

/// What a [`PassengerRecord`] holds.
pub type PassengerFacts = (u64, Seq<char>, Seq<char>, Seq<char>, Seq<char>, u32);

/// What a [`GroupRecord`] holds.
pub type GroupFacts = (Seq<char>, Seq<PassengerFacts>);

/// What a [`BusRecord`] holds.
pub type BusFacts = (Seq<char>, Seq<GroupFacts>, Seq<Seq<char>>, u64, u64);

/// What a [`StopRecord`] holds.
pub type StopFacts = (Seq<char>, Seq<GroupFacts>, Seq<PassengerFacts>, Seq<BusFacts>);

/// The JSON text that `serde_json::to_string` writes for a list of texts.
pub uninterp spec fn json_of_texts(texts: Seq<Seq<char>>) -> Seq<char>;

/// The list of texts that `serde_json::from_str` reads from a JSON text, if
/// it reads one.
pub uninterp spec fn texts_of_json(json: Seq<char>) -> Option<Seq<Seq<char>>>;

/// The JSON text that `serde_json::to_string` writes for a list of numbers.
pub uninterp spec fn json_of_counts(counts: Seq<u64>) -> Seq<char>;

/// The list of numbers that `serde_json::from_str` reads from a JSON text, if
/// it reads one.
pub uninterp spec fn counts_of_json(json: Seq<char>) -> Option<Seq<u64>>;

/// The JSON text that `serde_json::to_string` writes for one bus record.
pub uninterp spec fn json_of_bus(bus: BusFacts) -> Seq<char>;

/// The JSON text that `serde_json::to_string` writes for a list of bus
/// records.
pub uninterp spec fn json_of_buses(buses: Seq<BusFacts>) -> Seq<char>;

/// The list of bus records that `serde_json::from_str` reads from a JSON
/// text, if it reads one.
pub uninterp spec fn buses_of_json(json: Seq<char>) -> Option<Seq<BusFacts>>;

/// The JSON text that `serde_json::to_string` writes for a list of stop
/// records.
pub uninterp spec fn json_of_stops(stops: Seq<StopFacts>) -> Seq<char>;

/// `serde_json::to_string` on a list of texts. It fails only for a value
/// whose own serialization fails or that holds a map with keys that are not
/// strings; a list of texts is neither, so the text is always there.
#[verifier::external_body]
pub(crate) fn encode_texts(texts: &Vec<String>) -> (json: String)
    ensures
        json@ == json_of_texts(texts.deep_view()),
{
    serde_json::to_string(texts).unwrap_or_default()
}

/// `serde_json::from_str` for a list of texts: the list, or `None` where the
/// text is not the JSON of one.
#[verifier::external_body]
pub(crate) fn decode_texts(json: &str) -> (texts: Option<Vec<String>>)
    ensures
        texts.deep_view() == texts_of_json(json@),
{
    serde_json::from_str::<Vec<String>>(json).ok()
}

/// `serde_json::to_string` on a list of numbers, which cannot fail: see
/// `encode_texts`.
#[verifier::external_body]
pub(crate) fn encode_counts(counts: &Vec<u64>) -> (json: String)
    ensures
        json@ == json_of_counts(counts.deep_view()),
{
    serde_json::to_string(counts).unwrap_or_default()
}

/// `serde_json::from_str` for a list of numbers: the list, or `None` where
/// the text is not the JSON of one.
#[verifier::external_body]
pub(crate) fn decode_counts(json: &str) -> (counts: Option<Vec<u64>>)
    ensures
        counts.deep_view() == counts_of_json(json@),
{
    serde_json::from_str::<Vec<u64>>(json).ok()
}

/// `serde_json::to_string` on one bus record, which cannot fail: see
/// `encode_texts`.
#[verifier::external_body]
pub(crate) fn encode_bus(bus: &BusRecord) -> (json: String)
    ensures
        json@ == json_of_bus(bus.deep_view()),
{
    serde_json::to_string(bus).unwrap_or_default()
}

/// `serde_json::to_string` on a list of bus records, which cannot fail: see
/// `encode_texts`.
#[verifier::external_body]
pub(crate) fn encode_buses(buses: &Vec<BusRecord>) -> (json: String)
    ensures
        json@ == json_of_buses(buses.deep_view()),
{
    serde_json::to_string(buses).unwrap_or_default()
}

/// `serde_json::from_str` for a list of bus records: the list, or `None`
/// where the text is not the JSON of one.
#[verifier::external_body]
pub(crate) fn decode_buses(json: &str) -> (buses: Option<Vec<BusRecord>>)
    ensures
        buses.deep_view() == buses_of_json(json@),
{
    serde_json::from_str::<Vec<BusRecord>>(json).ok()
}

/// `serde_json::to_string` on a list of stop records, which cannot fail: see
/// `encode_texts`.
#[verifier::external_body]
pub(crate) fn encode_stops(stops: &Vec<StopRecord>) -> (json: String)
    ensures
        json@ == json_of_stops(stops.deep_view()),
{
    serde_json::to_string(stops).unwrap_or_default()
}

/// The text that a JSON text holds as its only element, if it is the JSON of
/// a list of exactly one text.
pub open spec fn single_text_of_json(json: Seq<char>) -> Option<Seq<char>> {
    match texts_of_json(json) {
        Some(texts) => if texts.len() == 1 {
            Some(texts[0])
        } else {
            None
        },
        None => None,
    }
}

/// The two texts that a JSON text holds, if it is the JSON of a list of
/// exactly two texts.
pub open spec fn text_pair_of_json(json: Seq<char>) -> Option<(Seq<char>, Seq<char>)> {
    match texts_of_json(json) {
        Some(texts) => if texts.len() == 2 {
            Some((texts[0], texts[1]))
        } else {
            None
        },
        None => None,
    }
}

/// The two numbers that a JSON text holds, if it is the JSON of a list of
/// exactly two numbers.
pub open spec fn count_pair_of_json(json: Seq<char>) -> Option<(usize, usize)> {
    match counts_of_json(json) {
        Some(counts) => if counts.len() == 2 {
            Some((clip(counts[0] as nat), clip(counts[1] as nat)))
        } else {
            None
        },
        None => None,
    }
}

/// Write one text as the JSON of a list that holds it.
pub fn encode_single_text(text: &String) -> (json: String)
    ensures
        json@ == json_of_texts(seq![text@]),
{
    let mut texts: Vec<String> = Vec::new();
    texts.push(text.clone());
    assert(texts.deep_view() =~= seq![text@]);
    encode_texts(&texts)
}

/// Read the only text of the JSON of a list of one text.
pub fn decode_single_text(json: &str) -> (text: Option<String>)
    ensures
        text.deep_view() == single_text_of_json(json@),
{
    match decode_texts(json) {
        Some(mut texts) => {
            if texts.len() == 1 {
                assert(texts.deep_view()[0] == texts@[0]@);
                texts.pop()
            } else {
                None
            }
        },
        None => None,
    }
}

/// Write two texts as the JSON of a list that holds them.
pub fn encode_text_pair(first: &String, second: &String) -> (json: String)
    ensures
        json@ == json_of_texts(seq![first@, second@]),
{
    let mut texts: Vec<String> = Vec::new();
    texts.push(first.clone());
    texts.push(second.clone());
    assert(texts.deep_view() =~= seq![first@, second@]);
    encode_texts(&texts)
}

/// Read the two texts of the JSON of a list of two texts.
pub fn decode_text_pair(json: &str) -> (texts: Option<(String, String)>)
    ensures
        texts.deep_view() == text_pair_of_json(json@),
{
    match decode_texts(json) {
        Some(mut texts) => {
            if texts.len() == 2 {
                assert(texts.deep_view()[0] == texts@[0]@);
                assert(texts.deep_view()[1] == texts@[1]@);
                let second = texts.pop();
                let first = texts.pop();
                match (first, second) {
                    (Some(first), Some(second)) => Some((first, second)),
                    _ => None,
                }
            } else {
                None
            }
        },
        None => None,
    }
}

/// Write two numbers as the JSON of a list that holds them.
pub fn encode_count_pair(first: usize, second: usize) -> (json: String)
    ensures
        json@ == json_of_counts(seq![first as u64, second as u64]),
{
    let mut counts: Vec<u64> = Vec::new();
    counts.push(first as u64);
    counts.push(second as u64);
    assert(counts.deep_view() =~= seq![first as u64, second as u64]);
    encode_counts(&counts)
}

/// Read the two numbers of the JSON of a list of two numbers.
pub fn decode_count_pair(json: &str) -> (counts: Option<(usize, usize)>)
    ensures
        counts == count_pair_of_json(json@),
{
    match decode_counts(json) {
        Some(counts) => {
            if counts.len() == 2 {
                assert(counts.deep_view()[0] == counts@[0]);
                assert(counts.deep_view()[1] == counts@[1]);
                Some((clip_word(counts[0]), clip_word(counts[1])))
            } else {
                None
            }
        },
        None => None,
    }
}

} // verus!
