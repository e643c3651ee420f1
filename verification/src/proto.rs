//! Enumerations of the OTLP protocol.

use opentelemetry_proto::tonic::logs::v1::SeverityNumber;
use opentelemetry_proto::tonic::metrics::v1::AggregationTemporality;
use vstd::prelude::*;

verus! {

/// How the data points of a metric relate to each other.
#[derive(Clone, Copy, Debug, PartialEq, Eq, Structural)]
pub enum Temporality {
    Unspecified,
    Delta,
    Cumulative,
}

/// The temporality that the protocol gives a number.
pub open spec fn temporality_of(n: i32) -> Option<Temporality> {
    if n == 0 {
        Some(Temporality::Unspecified)
    } else if n == 1 {
        Some(Temporality::Delta)
    } else if n == 2 {
        Some(Temporality::Cumulative)
    } else {
        None
    }
}

/// The temporality for a number, from
/// `opentelemetry_proto::tonic::metrics::v1::AggregationTemporality::try_from`:
/// 0 is unspecified, 1 delta, 2 cumulative, and any other number is refused.
#[verifier::external_body]
pub(crate) fn temporality(n: i32) -> (r: Option<Temporality>)
    ensures
        r == temporality_of(n),
{
    match AggregationTemporality::try_from(n) {
        Ok(AggregationTemporality::Unspecified) => Some(Temporality::Unspecified),
        Ok(AggregationTemporality::Delta) => Some(Temporality::Delta),
        Ok(AggregationTemporality::Cumulative) => Some(Temporality::Cumulative),
        Err(_) => None,
    }
}

/// The severity number that the protocol knows, from
/// `opentelemetry_proto::tonic::logs::v1::SeverityNumber::try_from`: the numbers
/// from 0 to 24 are known and keep their value, any other is refused.
#[verifier::external_body]
pub(crate) fn severity_number(n: i32) -> (r: Option<i32>)
    ensures
        r == (if 0 <= n <= 24 {
            Some(n)
        } else {
            None
        }),
{
    SeverityNumber::try_from(n).ok().map(|s| s as i32)
}

} // verus!
