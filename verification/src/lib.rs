use vstd::prelude::*;

/// Whether the engines of a network form one chain.
pub mod consistency;
/// Two devices within reach of each other settle into a chain.
pub mod convergence;
/// The simulated network: its devices, and what a round does to them.
pub mod dummy;
/// What an engine does: taking packets, ticking, sending data.
pub mod engine;
/// The graph of the `petgraph` crate, as far as the diagram needs it.
pub mod graph;
/// The diagram of a network.
pub mod graphing;
/// Packets reach every device that hears them.
pub mod hearing;
/// What holds of every engine that the protocol brings about.
pub mod invariants;
/// Devices out of range learn nothing of each other.
pub mod isolation;
/// The label of an engine in a diagram.
pub mod label;
/// How a node without a position finds one among its neighbors.
pub mod negotiation;
/// The neighbor table: links, next hop, aging.
pub mod neighbors;
/// The positions of a neighbor table in ascending order.
pub mod ordered;
/// The packets that nodes exchange.
pub mod packet;
/// Data reaches the closer device of a settled pair.
pub mod pairing;
/// A network together with the count of its rounds.
pub mod playground;
/// Why an operation is not carried out, and operations that say so.
pub mod refusal;
/// What a round keeps intact.
pub mod rounds;
/// Greedy routing leads to the closest node.
pub mod routing;
/// Running the simulated network.
pub mod simulator;
/// Numbers and addresses as text.
pub mod text;
/// The protocol engine of a node and the steps that it takes.
pub mod vcp;

verus! {

/// Sum of two sizes; the caller guarantees that it fits.
pub fn add(left: usize, right: usize) -> (sum: usize)
    requires
        left + right <= usize::MAX,
    ensures
        sum == left + right,
{
    left + right
}

} // verus!
