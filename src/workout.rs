use vstd::prelude::*;

verus! {

/// The intensity below which the day is for strength exercises.
pub const STRENGTH_BELOW: u32 = 25;

/// The random number that makes a day of rest.
pub const REST_NUMBER: u32 = 3;

/// A day's workout.
#[derive(Clone, Copy, Debug, PartialEq, Eq, Structural)]
pub enum Workout {
    /// Pushups, then situps.
    Strength { pushups: u32, situps: u32 },
    /// A rest day.
    Rest,
    /// A run of so many minutes.
    Run { minutes: u32 },
}

/// Whether the workout for `intensity` and `random_number` needs the
/// expensive calculation.
pub open spec fn needs_calculation(intensity: u32, random_number: u32) -> bool {
    intensity < STRENGTH_BELOW || random_number != REST_NUMBER
}

/// The workout for `intensity` and `random_number`, given the result of the
/// expensive calculation on `intensity`.
pub open spec fn workout_spec(intensity: u32, random_number: u32, calculated: u32) -> Workout {
    if intensity < STRENGTH_BELOW {
        Workout::Strength { pushups: calculated, situps: calculated }
    } else if random_number == REST_NUMBER {
        Workout::Rest
    } else {
        Workout::Run { minutes: calculated }
    }
}

/// Whether planning a workout calls for the expensive calculation: every day
/// but a rest day does.
pub fn calculation_needed(intensity: u32, random_number: u32) -> (r: bool)
    ensures
        r == needs_calculation(intensity, random_number),
{
    intensity < STRENGTH_BELOW || random_number != REST_NUMBER
}

/// Plans the workout from the result of the expensive calculation, computed
/// once and used for both exercises of a strength day.
pub fn plan_workout(intensity: u32, random_number: u32, calculated: u32) -> (r: Workout)
    ensures
        r == workout_spec(intensity, random_number, calculated),
        !needs_calculation(intensity, random_number) ==> r == Workout::Rest,
{
    if intensity < STRENGTH_BELOW {
        Workout::Strength { pushups: calculated, situps: calculated }
    } else if random_number == REST_NUMBER {
        Workout::Rest
    } else {
        Workout::Run { minutes: calculated }
    }
}

} // verus!
