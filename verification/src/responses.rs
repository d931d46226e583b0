//! The bodies of the answers that the service gives.
use crate::double::Double;
use crate::policies::policy::{DrawResult, PolicyType};
use vstd::prelude::*;

verus! {

/// The answer to the creation of an experiment.
#[derive(Clone, Copy, Debug, PartialEq, Eq, Structural)]
pub struct CreateExperimentResponse {
    pub experiment_id: u128,
}

/// The answer to a listing: the experiments with the descriptions of their
/// policies.
#[derive(Clone, Debug)]
pub struct ListExperimentsResponse {
    pub experiments: Vec<(u128, PolicyType)>,
}

/// The answer to the addition of an arm.
#[derive(Clone, Copy, Debug, PartialEq, Eq, Structural)]
pub struct AddExperimentArmResponse {
    pub arm_id: usize,
}

/// The answer to a draw.
#[derive(Clone, Copy, Debug, PartialEq, Eq, Structural)]
pub struct DrawResponse {
    pub timestamp: Double,
    pub arm_id: usize,
}

impl From<DrawResult> for DrawResponse {
    fn from(draw_result: DrawResult) -> (response: DrawResponse) {
        DrawResponse { timestamp: draw_result.timestamp, arm_id: draw_result.arm_id }
    }
}

impl vstd::std_specs::convert::FromSpecImpl<DrawResult> for DrawResponse {
    open spec fn obeys_from_spec() -> bool {
        true
    }

    open spec fn from_spec(draw_result: DrawResult) -> DrawResponse {
        DrawResponse { timestamp: draw_result.timestamp, arm_id: draw_result.arm_id }
    }
}

} // verus!
