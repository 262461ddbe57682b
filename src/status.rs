use vstd::prelude::*;

verus! {

/// The outcome a command reports.
pub trait CommandStatus {}

/// The command succeeded.
pub struct Passed();

/// The command failed, with a message.
pub struct Failed(pub String);

impl CommandStatus for Passed {}

impl CommandStatus for Failed {}

} // verus!
