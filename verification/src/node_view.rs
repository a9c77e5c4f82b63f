//! The messages fog nodes exchange about themselves.
use vstd::prelude::*;

use std::collections::HashMap;

use crate::ids::{BidId, NodeId};
use crate::market_service::{AcceptedBid, NodeRecord};
use crate::net::IpAddress;

verus! {

/// An instant in UTC: seconds since the Unix epoch, and nanoseconds.
#[derive(Debug, Clone, Copy, PartialEq, Eq)]
pub struct UtcDateTime {
    pub secs: i64,
    pub nanos: u32,
}

/// The RFC 3339 text of the instant, as `chrono` writes it; `None` when
/// `chrono` cannot represent the instant.
pub uninterp spec fn rfc3339_format(secs: i64, nanos: u32) -> Option<Seq<char>>;

/// The instant an RFC 3339 text denotes, as `chrono` reads it, in seconds
/// and nanoseconds; `None` when `chrono` refuses the text.
pub uninterp spec fn rfc3339_parse(text: Seq<char>) -> Option<(i64, u32)>;

/// Whether the instant `secs` seconds after the Unix epoch falls in a year
/// written with four digits, from 0000-01-01T00:00:00Z to 9999-12-31T23:59:59Z.
pub open spec fn in_four_digit_years(secs: i64) -> bool {
    -62167219200 <= secs <= 253402300799
}

/// Whether `chrono` writes the instant as RFC 3339 text: a four-digit year,
/// and less than a second of nanoseconds, or less than two at a second 59
/// (a leap second, written as second 60).
pub open spec fn rfc3339_writable(secs: i64, nanos: u32) -> bool {
    &&& in_four_digit_years(secs)
    &&& (nanos < 1_000_000_000 || (nanos < 2_000_000_000 && secs % 60 == 59))
}

/// `chrono::DateTime::<Utc>::from_timestamp` then `to_rfc3339`: the RFC 3339
/// text of the instant, or nothing when the instant is out of `chrono`'s range.
/// For an instant that [`rfc3339_writable`] admits there is a text, and
/// `parse_from_rfc3339` reads it back as the same instant: the year is written
/// with its four digits, a leap second as second 60, the nanoseconds within
/// the second with 0, 3, 6 or 9 fraction digits, and the offset as `+00:00`.
#[verifier::external_body]
fn format_rfc3339(secs: i64, nanos: u32) -> (res: Option<String>)
    ensures
        match res {
            Some(text) => rfc3339_format(secs, nanos) == Some(text@),
            None => rfc3339_format(secs, nanos) is None,
        },
        rfc3339_writable(secs, nanos) ==> res is Some && rfc3339_parse(
            res->0@,
        ) == Some((secs, nanos)),
{
    match chrono::DateTime::from_timestamp(secs, nanos) {
        Some(d) => Some(d.to_rfc3339()),
        None => None,
    }
}

/// `chrono::DateTime::parse_from_rfc3339`, taken to UTC: the instant the
/// text denotes, or nothing when the text is not RFC 3339.
#[verifier::external_body]
fn parse_rfc3339(text: &str) -> (res: Option<(i64, u32)>)
    ensures
        res == rfc3339_parse(text@),
{
    match chrono::DateTime::parse_from_rfc3339(text) {
        Ok(d) => {
            let utc = d.with_timezone(&chrono::Utc);
            Some((utc.timestamp(), utc.timestamp_subsec_nanos()))
        },
        Err(_) => None,
    }
}

/// Writes instants as RFC 3339 / ISO 8601 text, and reads them back.
pub struct DateTimeHelper;

impl DateTimeHelper {
    /// The RFC 3339 text of `value`; nothing when it cannot be represented.
    /// An instant that [`rfc3339_writable`] admits has a text, which
    /// [`Self::deserialize_as`] reads back as the same instant.
    pub fn serialize_as(value: &UtcDateTime) -> (res: Option<String>)
        ensures
            match res {
                Some(text) => rfc3339_format(value.secs, value.nanos) == Some(text@),
                None => rfc3339_format(value.secs, value.nanos) is None,
            },
            rfc3339_writable(value.secs, value.nanos) ==> (res matches Some(
                text,
            ) && rfc3339_parse(text@) == Some((value.secs, value.nanos))),
    {
        format_rfc3339(value.secs, value.nanos)
    }

    /// The instant the RFC 3339 text `text` denotes; nothing when it is not
    /// such a text.
    pub fn deserialize_as(text: &str) -> (res: Option<UtcDateTime>)
        ensures
            match rfc3339_parse(text@) {
                Some((secs, nanos)) => res == Some(UtcDateTime { secs, nanos }),
                None => res is None,
            },
    {
        match parse_rfc3339(text) {
            Some((secs, nanos)) => Some(UtcDateTime { secs, nanos }),
            None => None,
        }
    }
}

/// A node's update to a neighbour, to measure the latency between them.
#[derive(Debug, Clone, Copy)]
pub struct PostNode {
    pub created_at: UtcDateTime,
    pub last_answered_at: Option<UtcDateTime>,
    pub last_answer_received_at: Option<UtcDateTime>,
    pub from: NodeId,
}

/// The answer to a [`PostNode`].
#[derive(Debug, Clone, Copy)]
pub struct PostNodeResponse {
    pub answered_at: UtcDateTime,
}

/// An amount per second as the fraction `numer / denom` of bits.
#[derive(Debug, Clone, Copy, PartialEq, Eq)]
pub struct InformationRate {
    pub numer: i64,
    pub denom: i64,
}

/// A node that registers with its parent, or with the market.
#[derive(Debug, Clone)]
pub enum RegisterNode {
    MarketNode {
        node_id: NodeId,
        ip: IpAddress,
        port_http: u16,
        port_faas: u16,
        tags: Vec<String>,
        advertised_bandwidth: InformationRate,
    },
    Node {
        parent: NodeId,
        node_id: NodeId,
        ip: IpAddress,
        port_http: u16,
        port_faas: u16,
        tags: Vec<String>,
        advertised_bandwidth: InformationRate,
    },
}

/// A fog node as the market lists it.
#[derive(Debug, Clone)]
pub struct GetFogNodes {
    pub id: NodeId,
    pub ip: IpAddress,
    pub tags: Vec<String>,
    pub accepted_bids: HashMap<BidId, AcceptedBid>,
}

impl From<(NodeId, NodeRecord)> for GetFogNodes {
    fn from(value: (NodeId, NodeRecord)) -> (res: Self) {
        let (id, record) = value;
        GetFogNodes { id, ip: record.ip, tags: record.tags, accepted_bids: record.accepted_bids }
    }
}

impl vstd::std_specs::convert::FromSpecImpl<(NodeId, NodeRecord)> for GetFogNodes {
    open spec fn obeys_from_spec() -> bool {
        true
    }

    open spec fn from_spec(v: (NodeId, NodeRecord)) -> GetFogNodes {
        GetFogNodes { id: v.0, ip: v.1.ip, tags: v.1.tags, accepted_bids: v.1.accepted_bids }
    }
}

} // verus!
