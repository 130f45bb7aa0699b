// Shared state of a real-time message relay: the registry of live
// connections, display names, message history, id counters, and the rules
// for routing inbound actions and for joining and leaving.

pub mod events;
pub mod generator;
pub mod history;
pub mod presence;
pub mod registry;
pub mod relay;
