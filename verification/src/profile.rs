//! The fields of a profile document: reading them, and rewriting the two
//! counters in place.

use crate::decimal::{counter_value, decimal_digits, parse_counter, render_counter};
use crate::marker::{find_field, first_field, first_value, value_end, value_start, FieldKind};
use crate::text::to_chars;
use vstd::prelude::*;
use vstd::string::*;

verus! {

/// The fields read from one profile document.
#[derive(Clone, Debug, PartialEq, Eq)]
pub struct ProfileData {
    pub name: String,
    pub coins: u32,
    pub total_collected: u32,
}

/// Mathematical model of [`ProfileData`].
pub struct ProfileDataView {
    pub name: Seq<char>,
    pub coins: u32,
    pub total_collected: u32,
}

impl View for ProfileData {
    type V = ProfileDataView;

    open spec fn view(&self) -> ProfileDataView {
        ProfileDataView {
            name: self.name@,
            coins: self.coins,
            total_collected: self.total_collected,
        }
    }
}

impl DeepView for ProfileData {
    type V = ProfileDataView;

    open spec fn deep_view(&self) -> ProfileDataView {
        self@
    }
}

/// One profile found on disk, with the fields read from it.
#[derive(Clone, Debug, PartialEq, Eq)]
pub struct ProfileInfo {
    pub path: String,
    pub name: String,
    pub steam_id: String,
    pub coins: u32,
    pub total_collected: u32,
}

/// Mathematical model of [`ProfileInfo`].
pub struct ProfileInfoView {
    pub path: Seq<char>,
    pub name: Seq<char>,
    pub steam_id: Seq<char>,
    pub coins: u32,
    pub total_collected: u32,
}

impl View for ProfileInfo {
    type V = ProfileInfoView;

    open spec fn view(&self) -> ProfileInfoView {
        ProfileInfoView {
            path: self.path@,
            name: self.name@,
            steam_id: self.steam_id@,
            coins: self.coins,
            total_collected: self.total_collected,
        }
    }
}

impl DeepView for ProfileInfo {
    type V = ProfileInfoView;

    open spec fn deep_view(&self) -> ProfileInfoView {
        self@
    }
}

/// The name of the display-name field.
pub open spec fn name_tag() -> Seq<char> {
    "name"@
}

/// The name of the coins field.
pub open spec fn coins_tag() -> Seq<char> {
    "coins"@
}

/// The name of the total-collected field.
pub open spec fn total_tag() -> Seq<char> {
    "totalCollectedCoins"@
}

/// The name reported for a document without a display-name field.
pub open spec fn unknown_name() -> Seq<char> {
    "Unknown"@
}

/// The display name in `doc`: the value of its first display-name marker
/// pair, or the placeholder where there is none.
pub open spec fn spec_name(doc: Seq<char>) -> Seq<char> {
    match first_value(doc, name_tag(), FieldKind::Text) {
        Some(v) => v,
        None => unknown_name(),
    }
}

/// The counter `tag` in `doc`: the number that the value of its first
/// marker pair writes, or zero where there is no such pair, the value
/// holds a digit beyond `0` to `9`, or the number is too large.
pub open spec fn spec_counter(doc: Seq<char>, tag: Seq<char>) -> u32 {
    match first_value(doc, tag, FieldKind::Counter) {
        Some(v) => counter_value(v),
        None => 0,
    }
}

/// The fields of `doc`, each read on its own.
pub open spec fn spec_extract(doc: Seq<char>) -> ProfileDataView {
    ProfileDataView {
        name: spec_name(doc),
        coins: spec_counter(doc, coins_tag()),
        total_collected: spec_counter(doc, total_tag()),
    }
}

/// `doc` with the value of its first marker pair of the counter `tag`
/// replaced by `digits`; `doc` itself where there is no such pair.
pub open spec fn replace_value(doc: Seq<char>, tag: Seq<char>, digits: Seq<char>) -> Seq<char> {
    match first_field(doc, tag, FieldKind::Counter) {
        Some(at) => doc.subrange(0, value_start(tag, at)) + digits + doc.subrange(
            value_end(doc, tag, FieldKind::Counter, at),
            doc.len() as int,
        ),
        None => doc,
    }
}

/// `doc` with the coins counter set to `coins`, and then the
/// total-collected counter set to `total`.
pub open spec fn spec_patch(doc: Seq<char>, coins: u32, total: u32) -> Seq<char> {
    replace_value(
        replace_value(doc, coins_tag(), decimal_digits(coins as nat)),
        total_tag(),
        decimal_digits(total as nat),
    )
}

/// The message reported when a document cannot be read, `reason` being
/// what the system said.
pub open spec fn read_failure(reason: Seq<char>) -> Seq<char> {
    "Failed to read file: "@ + reason
}

fn read_name(content: &str, doc: &Vec<char>) -> (name: String)
    requires
        doc@ == content@,
    ensures
        name@ == spec_name(content@),
{
    match find_field(doc, "name", FieldKind::Text) {
        Some((start, end)) => String::from_str(content.substring_char(start, end)),
        None => String::from_str("Unknown"),
    }
}

fn read_counter(doc: &Vec<char>, tag: &str) -> (n: u32)
    ensures
        n == spec_counter(doc@, tag@),
{
    match find_field(doc, tag, FieldKind::Counter) {
        Some((start, end)) => parse_counter(doc, start, end),
        None => 0,
    }
}

/// Reads the three fields of a profile document.
///
/// Each field is looked up on its own, by its first well-formed marker
/// pair; whatever else the document holds is not examined. A missing
/// display name reads as `Unknown`. A counter reads as zero where its
/// marker pair is missing, where its value holds a digit beyond `0` to
/// `9`, and where the number does not fit into 32 bits.
pub fn extract(content: &str) -> (data: ProfileData)
    ensures
        data@ == spec_extract(content@),
{
    let doc = to_chars(content);
    let name = read_name(content, &doc);
    let coins = read_counter(&doc, "coins");
    let total_collected = read_counter(&doc, "totalCollectedCoins");
    ProfileData { name, coins, total_collected }
}

/// Turns the outcome of reading a profile document into its fields.
///
/// `read` holds the document's text, or what the system said when the
/// document could not be read.
pub fn read_profile_data(read: Result<String, String>) -> (result: Result<ProfileData, String>)
    ensures
        match read {
            Ok(content) => result matches Ok(data) && data@ == spec_extract(content@),
            Err(reason) => result matches Err(message) && message@ == read_failure(reason@),
        },
{
    match read {
        Ok(content) => Ok(extract(content.as_str())),
        Err(reason) => Err(String::from_str("Failed to read file: ").concat(reason.as_str())),
    }
}

fn set_counter(content: &str, tag: &str, value: u32) -> (updated: String)
    ensures
        updated@ == replace_value(content@, tag@, decimal_digits(value as nat)),
{
    let doc = to_chars(content);
    match find_field(&doc, tag, FieldKind::Counter) {
        Some((start, end)) => {
            let mut updated = String::from_str(content.substring_char(0, start));
            let digits = render_counter(value);
            updated.append(digits.as_str());
            updated.append(content.substring_char(end, doc.len()));
            updated
        },
        None => String::from_str(content),
    }
}

/// Rewrites the two counters of a profile document.
///
/// The digits of the first coins marker pair are replaced by `new_coins`,
/// then the digits of the first total-collected marker pair by
/// `new_total`. A counter whose marker pair is missing is left alone, and
/// nothing else in the document changes.
pub fn patch(content: &str, new_coins: u32, new_total: u32) -> (patched: String)
    ensures
        patched@ == spec_patch(content@, new_coins, new_total),
{
    let with_coins = set_counter(content, "coins", new_coins);
    set_counter(with_coins.as_str(), "totalCollectedCoins", new_total)
}

} // verus!
