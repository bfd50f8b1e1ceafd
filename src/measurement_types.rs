//! The steps of a benchmark run that are timed.
use vstd::prelude::*;

verus! {

/// One timed step of a benchmark run.
#[derive(Debug, PartialEq, Eq, Structural, Hash, Clone, Copy)]
pub enum MeasurementType {
    GenerateJson,
    DeserializeJson,
    IterateIteratively,
    IterateRecursively,
    SerializeJson,
    Total,
    TotalIncludeContextSwitch,
}

impl MeasurementType {
    /// Every step, in declaration order.
    pub fn all() -> (r: Vec<MeasurementType>)
        ensures
            r@ == seq![
                MeasurementType::GenerateJson,
                MeasurementType::DeserializeJson,
                MeasurementType::IterateIteratively,
                MeasurementType::IterateRecursively,
                MeasurementType::SerializeJson,
                MeasurementType::Total,
                MeasurementType::TotalIncludeContextSwitch,
            ],
    {
        let mut r: Vec<MeasurementType> = Vec::new();
        r.push(MeasurementType::GenerateJson);
        r.push(MeasurementType::DeserializeJson);
        r.push(MeasurementType::IterateIteratively);
        r.push(MeasurementType::IterateRecursively);
        r.push(MeasurementType::SerializeJson);
        r.push(MeasurementType::Total);
        r.push(MeasurementType::TotalIncludeContextSwitch);
        r
    }
}

} // verus!
