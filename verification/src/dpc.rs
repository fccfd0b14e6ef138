//! The DPC radar products and the decisions taken on what the DPC API answers.
use vstd::prelude::*;

use crate::time::{utc_millis_representable, Timestamp};

verus! {

/// A radar product published by the DPC.
#[derive(Clone, Copy, Debug, PartialEq, Eq, Structural)]
pub enum DpcProduct {
    VerticalMaximumIntensity,
    SurfaceRainfallIntensity,
    VerticallyIntegratedLiquid,
    EchoTopMap,
    ProbabilityOfHail,
}

/// The code under which the DPC API knows a product.
pub open spec fn product_code(product: DpcProduct) -> Seq<char> {
    match product {
        DpcProduct::VerticalMaximumIntensity => "VMI"@,
        DpcProduct::SurfaceRainfallIntensity => "SRI"@,
        DpcProduct::VerticallyIntegratedLiquid => "VIL"@,
        DpcProduct::ProbabilityOfHail => "POH"@,
        DpcProduct::EchoTopMap => "ETM"@,
    }
}

impl DpcProduct {
    /// The product's code in the DPC API.
    pub fn as_str(&self) -> (r: &str)
        ensures
            r@ == product_code(*self),
    {
        match self {
            DpcProduct::VerticalMaximumIntensity => "VMI",
            DpcProduct::SurfaceRainfallIntensity => "SRI",
            DpcProduct::VerticallyIntegratedLiquid => "VIL",
            DpcProduct::ProbabilityOfHail => "POH",
            DpcProduct::EchoTopMap => "ETM",
        }
    }
}

/// Different products have different codes.
pub proof fn lemma_product_codes_distinct(a: DpcProduct, b: DpcProduct)
    ensures
        a != b ==> product_code(a) != product_code(b),
{
    reveal_strlit("VMI");
    reveal_strlit("SRI");
    reveal_strlit("VIL");
    reveal_strlit("POH");
    reveal_strlit("ETM");
    if a != b {
        assert(product_code(a)[0] != product_code(b)[0] || product_code(a)[1] != product_code(
            b,
        )[1]);
    }
}

/// Why a product could not be had.
#[derive(Clone, Copy, Debug, PartialEq, Eq, Structural)]
pub enum DpcError {
    /// The API lists no usable sample of the product.
    NoProductAvailable,
    /// The monitored point lies outside the area that the radar covers.
    OutsideCoverage,
}

impl DpcError {
    /// The error's message.
    pub fn message(&self) -> (r: &str)
        ensures
            r@ == match *self {
                DpcError::NoProductAvailable => "No product available"@,
                DpcError::OutsideCoverage => "home is outside DPC radar coverage"@,
            },
    {
        match self {
            DpcError::NoProductAvailable => "No product available",
            DpcError::OutsideCoverage => "home is outside DPC radar coverage",
        }
    }
}

/// The time of the latest sample of a product, from the sample times (in
/// milliseconds since the epoch) that the API lists, latest first: the first
/// one, when there is one and chrono can represent it.
pub fn latest_product_time(times: &Vec<i64>) -> (r: Result<Timestamp, DpcError>)
    ensures
        r is Ok <==> times@.len() > 0 && utc_millis_representable(times@[0]),
        r matches Ok(t) ==> t.millis == times@[0],
        r matches Err(e) ==> e == DpcError::NoProductAvailable,
{
    if times.len() == 0 {
        return Err(DpcError::NoProductAvailable);
    }
    match Timestamp::from_millis(times[0]) {
        Some(t) => Ok(t),
        None => Err(DpcError::NoProductAvailable),
    }
}

/// The monitored point must fall inside the radar's grid: `home_sample` is
/// what the grid holds at that point, `None` when the point is off the grid.
pub fn ensure_in_coverage(home_sample: Option<u32>) -> (r: Result<(), DpcError>)
    ensures
        r is Ok <==> home_sample is Some,
        r matches Err(e) ==> e == DpcError::OutsideCoverage,
{
    match home_sample {
        Some(_) => Ok(()),
        None => Err(DpcError::OutsideCoverage),
    }
}

} // verus!
