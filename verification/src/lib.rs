//! A finite-state machine assembled from composable `Machine -> Machine`
//! transformations.
//!
//! A [`fsm::Machine`] carries a context value, the label of its current
//! state, the registered states (each an enter/exit pair of context
//! functions) and the registered edges, grouped by event label.  It is only
//! ever changed by applying a transformation to it: [`fsm::state`] and
//! [`fsm::transitions`] register, [`fsm::trigger`] fires an event, and
//! [`compose::compose_vec`] chains transformations, the first one first.
//!
//! Function values are described by what Verus knows of them: the inputs a
//! function accepts (`call_requires`) and the outputs it can give
//! (`call_ensures`).  Every contract is stated over those two relations and
//! over the machine's view, [`fsm::MachineView`].
//!
//! * [`context`]: context functions and the enter/exit pair of a state.
//! * [`combinators`]: what is taken from the `curri` crate, on trust.
//! * [`compose`]: composition of unary functions.
//! * [`edges`]: the rule that selects an edge.
//! * [`fsm`]: the machine and its transformations.
//! * [`laws`]: what holds of every machine and every chain.

pub mod combinators;
pub mod compose;
pub mod context;
pub mod edges;
pub mod fsm;
pub mod laws;
