//! What the user is told of a failure: each diagnostic names the axis or the
//! file at fault.

use crate::grid::{Axis, ConfigError};
use crate::naming::{decimal, path_of_slice, push_decimal, slice_path};
use crate::slice::{Failure, SliceError};
use vstd::prelude::*;
use vstd::string::StringExecFns;

verus! {

/// The name of an axis, as the user reads it.
pub open spec fn axis_name(axis: Axis) -> Seq<char> {
    match axis {
        Axis::X => seq!['x'],
        Axis::Y => seq!['y'],
        Axis::Z => seq!['z'],
    }
}

/// The diagnostic for a step count that is too small: it names the axis and
/// the count.
pub open spec fn config_message(error: ConfigError) -> Seq<char> {
    "step count "@ + decimal(error.steps as nat) + " on the "@ + axis_name(error.axis)
        + " axis is below 2"@
}

/// What a class of failure is called in a diagnostic.
pub open spec fn failure_name(kind: Failure) -> Seq<char> {
    match kind {
        Failure::Io => "cannot write"@,
        Failure::Encoding => "cannot encode"@,
    }
}

/// The diagnostic for a slice that failed: it names the file that the slice
/// was to be written to, the class of the failure and its detail.
pub open spec fn slice_message(error: SliceError) -> Seq<char> {
    path_of_slice(error.index as nat) + ": "@ + failure_name(error.kind) + ": "@ + error.detail@
}

impl ConfigError {
    /// The diagnostic for this error.
    pub fn message(&self) -> (text: String)
        ensures
            text@ == config_message(*self),
    {
        let mut text = String::from_str("step count ");
        push_decimal(&mut text, self.steps as usize);
        text.append(" on the ");
        proof {
            reveal_strlit("x");
            reveal_strlit("y");
            reveal_strlit("z");
        }
        match self.axis {
            Axis::X => text.append("x"),
            Axis::Y => text.append("y"),
            Axis::Z => text.append("z"),
        }
        text.append(" axis is below 2");
        assert(text@ =~= config_message(*self));
        text
    }
}

impl SliceError {
    /// The diagnostic for this error.
    pub fn message(&self) -> (text: String)
        ensures
            text@ == slice_message(*self),
    {
        let mut text = slice_path(self.index);
        text.append(": ");
        match self.kind {
            Failure::Io => text.append("cannot write"),
            Failure::Encoding => text.append("cannot encode"),
        }
        text.append(": ");
        text.append(self.detail.as_str());
        assert(text@ =~= slice_message(*self));
        text
    }
}

} // verus!
