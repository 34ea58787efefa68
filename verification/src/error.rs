//! Validation errors and NaN-closed guards.
use crate::float::{whole, zero, F64};
use crate::text::join;
use vstd::prelude::*;

verus! {

/// Propulsion authoring, compile and runtime errors.
#[derive(Debug, Clone, PartialEq)]
pub enum PropulsionError {
    /// Authoring value outside its physical or engineering domain.
    InvalidSpec(String),
    /// Cycle, material or cooling combination cannot support the design point.
    UnsupportedCombination(String),
    /// Runtime command the engine cannot execute.
    InvalidCommand(String),
}

/// An error with its message as text.
pub enum Fault {
    InvalidSpec(Seq<char>),
    UnsupportedCombination(Seq<char>),
    InvalidCommand(Seq<char>),
}

impl View for PropulsionError {
    type V = Fault;

    open spec fn view(&self) -> Fault {
        match self {
            PropulsionError::InvalidSpec(message) => Fault::InvalidSpec(message@),
            PropulsionError::UnsupportedCombination(message) => Fault::UnsupportedCombination(message@),
            PropulsionError::InvalidCommand(message) => Fault::InvalidCommand(message@),
        }
    }
}

/// A result with its error as a [`Fault`].
pub open spec fn seen<T>(result: Result<T, PropulsionError>) -> Result<T, Fault> {
    match result {
        Ok(value) => Ok(value),
        Err(error) => Err(error@),
    }
}

/// Faults of one variant, whatever their messages.
pub open spec fn same_variant(a: Fault, b: Fault) -> bool {
    &&& (a is InvalidSpec) == (b is InvalidSpec)
    &&& (a is UnsupportedCombination) == (b is UnsupportedCombination)
    &&& (a is InvalidCommand) == (b is InvalidCommand)
}

/// Both succeed, or both fail with faults of one variant.
pub open spec fn alike<T>(a: Result<T, Fault>, b: Result<T, Fault>) -> bool {
    match (a, b) {
        (Ok(_), Ok(_)) => true,
        (Err(a), Err(b)) => same_variant(a, b),
        _ => false,
    }
}

/// The outcome of a check that finds at most this fault.
pub open spec fn outcome(fault: Option<Fault>) -> Result<(), Fault> {
    match fault {
        None => Ok(()),
        Some(fault) => Err(fault),
    }
}

pub open spec fn bad_spec(message: &str) -> Fault {
    Fault::InvalidSpec(message@)
}

pub open spec fn unsupported(message: &str) -> Fault {
    Fault::UnsupportedCombination(message@)
}

pub open spec fn bad_command(message: &str) -> Fault {
    Fault::InvalidCommand(message@)
}

/// Checks made one after the other; the first that fails is the fault.
pub struct Checks {
    pub fault: Option<Fault>,
}

pub open spec fn checks() -> Checks {
    Checks { fault: None }
}

impl Checks {
    /// Fails with `fault` when `refused`.
    pub open spec fn refuse(self, refused: bool, fault: Fault) -> Checks {
        if self.fault is None && refused {
            Checks { fault: Some(fault) }
        } else {
            self
        }
    }

    /// Continues with the checks of a part.
    pub open spec fn part(self, fault: Option<Fault>) -> Checks {
        if self.fault is None {
            Checks { fault }
        } else {
            self
        }
    }

    /// `value` must be above zero; a NaN is not.
    pub open spec fn positive(self, value: F64, name: &str) -> Checks {
        self.refuse(!(value > zero()), Fault::InvalidSpec(name@ + " must be finite and > 0"@))
    }

    /// `value` must be zero or above; a NaN is not.
    pub open spec fn non_negative(self, value: F64, name: &str) -> Checks {
        self.refuse(!(value >= zero()), Fault::InvalidSpec(name@ + " must be finite and >= 0"@))
    }

    /// `value` must be finite in `[0, 1]`.
    pub open spec fn unit_interval(self, value: F64, name: &str) -> Checks {
        self.refuse(!in_unit_interval(value), Fault::InvalidSpec(name@ + " must be finite in [0, 1]"@))
    }
}

pub open spec fn in_unit_interval_spec(value: F64) -> bool {
    value.is_finite() && zero() <= value && value <= whole(1)
}

/// Whether a value is finite in `[0, 1]`.
#[verifier::when_used_as_spec(in_unit_interval_spec)]
pub fn in_unit_interval(value: F64) -> (r: bool)
    ensures
        r == in_unit_interval(value),
{
    value.is_finite() && zero() <= value && value <= whole(1)
}

pub fn invalid_spec(message: &str) -> (r: PropulsionError)
    ensures
        r@ == bad_spec(message),
{
    PropulsionError::InvalidSpec(message.to_owned())
}

pub fn unsupported_combination(message: &str) -> (r: PropulsionError)
    ensures
        r@ == unsupported(message),
{
    PropulsionError::UnsupportedCombination(message.to_owned())
}

pub fn invalid_command(message: &str) -> (r: PropulsionError)
    ensures
        r@ == bad_command(message),
{
    PropulsionError::InvalidCommand(message.to_owned())
}

/// Hands back a value above zero.
pub fn require_positive(value: F64, name: &str) -> (r: Result<F64, PropulsionError>)
    ensures
        r is Ok ==> r->Ok_0 == value,
        seen(r) is Ok ==> checks().positive(value, name).fault is None,
        seen(r) is Err ==> checks().positive(value, name).fault == Some(seen(r)->Err_0),
{
    if !(value > zero()) {
        return Err(PropulsionError::InvalidSpec(join(name, " must be finite and > 0")));
    }
    Ok(value)
}

/// Hands back a value that is zero or above.
pub fn require_non_negative(value: F64, name: &str) -> (r: Result<F64, PropulsionError>)
    ensures
        r is Ok ==> r->Ok_0 == value,
        seen(r) is Ok ==> checks().non_negative(value, name).fault is None,
        seen(r) is Err ==> checks().non_negative(value, name).fault == Some(seen(r)->Err_0),
{
    if !(value >= zero()) {
        return Err(PropulsionError::InvalidSpec(join(name, " must be finite and >= 0")));
    }
    Ok(value)
}

/// Hands back a finite value in `[0, 1]`.
pub fn require_unit_interval(value: F64, name: &str) -> (r: Result<F64, PropulsionError>)
    ensures
        r is Ok ==> r->Ok_0 == value,
        seen(r) is Ok ==> checks().unit_interval(value, name).fault is None,
        seen(r) is Err ==> checks().unit_interval(value, name).fault == Some(seen(r)->Err_0),
{
    if !in_unit_interval(value) {
        return Err(PropulsionError::InvalidSpec(join(name, " must be finite in [0, 1]")));
    }
    Ok(value)
}

impl PropulsionError {
    /// A copy of the error.
    pub fn duplicate(&self) -> (r: PropulsionError)
        ensures
            r@ == self@,
    {
        match self {
            PropulsionError::InvalidSpec(text) => PropulsionError::InvalidSpec(text.clone()),
            PropulsionError::UnsupportedCombination(text) => PropulsionError::UnsupportedCombination(text.clone()),
            PropulsionError::InvalidCommand(text) => PropulsionError::InvalidCommand(text.clone()),
        }
    }

    /// The error as one line of text.
    pub fn message(&self) -> (r: String)
        ensures
            r@ == match *self {
                PropulsionError::InvalidSpec(text) => "invalid engine spec: "@ + text@,
                PropulsionError::UnsupportedCombination(text) => "unsupported engine combination: "@ + text@,
                PropulsionError::InvalidCommand(text) => "invalid engine command: "@ + text@,
            },
    {
        match self {
            PropulsionError::InvalidSpec(text) => join("invalid engine spec: ", text.as_str()),
            PropulsionError::UnsupportedCombination(text) => join("unsupported engine combination: ", text.as_str()),
            PropulsionError::InvalidCommand(text) => join("invalid engine command: ", text.as_str()),
        }
    }
}

} // verus!
