//! The vehicle context that guardrails evaluate against.
use vstd::prelude::*;

verus! {

#[derive(Debug, Clone, Copy, PartialEq, Eq, Structural)]
pub enum Gear {
    Park,
    Reverse,
    Neutral,
    Drive,
}

#[derive(Debug, Clone, Copy, PartialEq, Eq, Structural)]
pub enum SafetyMode {
    Normal,
    Reduced,
    Emergency,
    Factory,
}

#[derive(Debug, Clone, Copy, PartialEq, Eq, Structural)]
pub enum Weather {
    Clear,
    Rain,
    Snow,
    Fog,
}

#[derive(Debug, Clone, Copy, PartialEq, Eq, Structural)]
pub enum RoadType {
    Highway,
    Urban,
    Parking,
    Offroad,
}

#[derive(Debug, Clone, Copy, PartialEq, Eq, Structural)]
pub enum Visibility {
    Good,
    Medium,
    Poor,
}

#[derive(Debug, Clone, Copy, PartialEq, Eq, Structural)]
pub struct EnvironmentInfo {
    pub weather: Weather,
    pub road_type: RoadType,
    pub visibility: Visibility,
}

impl EnvironmentInfo {
    pub open spec fn spec_default() -> EnvironmentInfo {
        EnvironmentInfo { weather: Weather::Clear, road_type: RoadType::Urban, visibility: Visibility::Good }
    }
}

impl Default for EnvironmentInfo {
    fn default() -> (e: Self)
        ensures
            e == EnvironmentInfo::spec_default(),
    {
        EnvironmentInfo { weather: Weather::Clear, road_type: RoadType::Urban, visibility: Visibility::Good }
    }
}

/// The vehicle's state. Speeds are in thousandths of a kilometre per hour.
#[derive(Debug, Clone, Copy, PartialEq, Eq, Structural)]
pub struct VehicleState {
    pub speed_milli_kmh: i64,
    pub gear: Gear,
    pub autopilot_active: bool,
    pub passenger_present: bool,
    pub environment: EnvironmentInfo,
    pub safety_mode: SafetyMode,
}

impl VehicleState {
    pub open spec fn spec_default() -> VehicleState {
        VehicleState {
            speed_milli_kmh: 0,
            gear: Gear::Park,
            autopilot_active: false,
            passenger_present: false,
            environment: EnvironmentInfo::spec_default(),
            safety_mode: SafetyMode::Normal,
        }
    }

    /// A parked vehicle: the default state.
    pub fn parked() -> (v: Self)
        ensures
            v == VehicleState::spec_default(),
    {
        Self::default()
    }

    /// A vehicle driving at `speed_milli_kmh` thousandths of a km/h, otherwise in the default
    /// state.
    pub fn driving(speed_milli_kmh: i64) -> (v: Self)
        ensures
            v == (VehicleState { speed_milli_kmh, gear: Gear::Drive, ..VehicleState::spec_default() }),
    {
        VehicleState { speed_milli_kmh, gear: Gear::Drive, ..Self::default() }
    }
}

impl Default for VehicleState {
    fn default() -> (v: Self)
        ensures
            v == VehicleState::spec_default(),
    {
        VehicleState {
            speed_milli_kmh: 0,
            gear: Gear::Park,
            autopilot_active: false,
            passenger_present: false,
            environment: EnvironmentInfo::default(),
            safety_mode: SafetyMode::Normal,
        }
    }
}

/// Interface for supplying current vehicle state to vehicle guardrails. Actual vehicle
/// middleware can implement this without changing the guardrails evaluation API.
pub trait VehicleStateProvider {
    fn current_state(&self) -> VehicleState;
}

} // verus!
