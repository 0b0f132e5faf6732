//! The sample grid: how many samples each of the three axes carries.
//!
//! Samples on an axis are evenly spaced between two bounds, both included, so
//! an axis needs at least two of them: the spacing is the distance between
//! the bounds divided by the number of samples less one.

use vstd::prelude::*;

verus! {

/// The fewest samples an axis can carry.
pub const MIN_STEPS: u32 = 2;

/// One of the three axes of the grid. A run cuts the grid along `X` and
/// images the `Y` and `Z` axes of each cut.
#[derive(Clone, Copy, Debug, PartialEq, Eq, Structural)]
pub enum Axis {
    X,
    Y,
    Z,
}

/// An axis was given fewer than two samples.
#[derive(Clone, Copy, Debug, PartialEq, Eq, Structural)]
pub struct ConfigError {
    /// The axis at fault.
    pub axis: Axis,
    /// The step count that was asked for on it.
    pub steps: u32,
}

/// The first axis, in the order X, Y, Z, with fewer than two samples.
pub open spec fn first_short_axis(x_steps: u32, y_steps: u32, z_steps: u32) -> Option<Axis> {
    if x_steps < MIN_STEPS {
        Some(Axis::X)
    } else if y_steps < MIN_STEPS {
        Some(Axis::Y)
    } else if z_steps < MIN_STEPS {
        Some(Axis::Z)
    } else {
        None
    }
}

/// The step count of one axis out of the three.
pub open spec fn steps_on(axis: Axis, x_steps: u32, y_steps: u32, z_steps: u32) -> u32 {
    match axis {
        Axis::X => x_steps,
        Axis::Y => y_steps,
        Axis::Z => z_steps,
    }
}

/// A sample count from which no spacing can be derived: fewer than two
/// samples were asked for.
#[derive(Clone, Copy, Debug, PartialEq, Eq, Structural)]
pub struct InvalidArgument {
    /// The count that was asked for.
    pub count: u32,
}

/// The number of equal intervals that `count` evenly spaced samples divide
/// their range into, where there is one.
pub open spec fn interval_count(count: u32) -> Result<u32, InvalidArgument> {
    if count >= MIN_STEPS {
        Ok((count - 1) as u32)
    } else {
        Err(InvalidArgument { count })
    }
}

/// The divisor of the spacing between `count` evenly spaced samples:
/// `count - 1`, which is at least one. A count below two has no spacing and
/// is refused.
pub fn intervals(count: u32) -> (r: Result<u32, InvalidArgument>)
    ensures
        r == interval_count(count),
        r matches Ok(divisor) ==> divisor >= 1,
{
    if count >= MIN_STEPS {
        Ok(count - 1)
    } else {
        Err(InvalidArgument { count })
    }
}

/// Step counts of the three axes, each at least two.
#[derive(Clone, Copy, Debug, PartialEq, Eq)]
pub struct Grid {
    x_steps: u32,
    y_steps: u32,
    z_steps: u32,
}

impl Grid {
    #[verifier::type_invariant]
    spec fn well_formed(self) -> bool {
        &&& self.x_steps >= MIN_STEPS
        &&& self.y_steps >= MIN_STEPS
        &&& self.z_steps >= MIN_STEPS
    }

    /// Samples on the X axis: the number of slices of a run.
    pub closed spec fn x(self) -> u32 {
        self.x_steps
    }

    /// Samples on the Y axis.
    pub closed spec fn y(self) -> u32 {
        self.y_steps
    }

    /// Samples on the Z axis.
    pub closed spec fn z(self) -> u32 {
        self.z_steps
    }

    /// Checks the three step counts. Fails on the first axis, in the order
    /// X, Y, Z, that has fewer than two samples.
    pub fn new(x_steps: u32, y_steps: u32, z_steps: u32) -> (r: Result<Grid, ConfigError>)
        ensures
            r is Ok <==> first_short_axis(x_steps, y_steps, z_steps) is None,
            r matches Ok(grid) ==> grid.x() == x_steps && grid.y() == y_steps && grid.z()
                == z_steps,
            r matches Err(e) ==> first_short_axis(x_steps, y_steps, z_steps) == Some(e.axis)
                && e.steps == steps_on(e.axis, x_steps, y_steps, z_steps),
    {
        if x_steps < MIN_STEPS {
            Err(ConfigError { axis: Axis::X, steps: x_steps })
        } else if y_steps < MIN_STEPS {
            Err(ConfigError { axis: Axis::Y, steps: y_steps })
        } else if z_steps < MIN_STEPS {
            Err(ConfigError { axis: Axis::Z, steps: z_steps })
        } else {
            Ok(Grid { x_steps, y_steps, z_steps })
        }
    }

    /// Samples on the X axis: the number of slices of a run.
    pub fn x_steps(&self) -> (n: u32)
        ensures
            n == self.x(),
            n >= MIN_STEPS,
    {
        proof {
            use_type_invariant(self);
        }
        self.x_steps
    }

    /// Samples on the Y axis.
    pub fn y_steps(&self) -> (n: u32)
        ensures
            n == self.y(),
            n >= MIN_STEPS,
    {
        proof {
            use_type_invariant(self);
        }
        self.y_steps
    }

    /// Samples on the Z axis.
    pub fn z_steps(&self) -> (n: u32)
        ensures
            n == self.z(),
            n >= MIN_STEPS,
    {
        proof {
            use_type_invariant(self);
        }
        self.z_steps
    }
}

} // verus!
