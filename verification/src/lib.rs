//! Verified core of a MeshCore mesh-network simulator: packet header and
//! payload types, simulation time and identifiers, events and the context
//! they are posted through, the decisions of the event loop (in simulated
//! and in real time), LoRa airtime and collision rules, the link model,
//! layered network models, the property registry, the plan of a built
//! simulation, the radio state machine, what the event trace records, metric
//! selection specifications and the grouping, filtering and counting behind
//! the metric exports, the grammar of duration arguments, and the simulation
//! statistics.

pub mod assoc;
pub mod common;
pub mod context;
pub mod duration;
pub mod event_loop;
pub mod firmware;
pub mod glob;
pub mod header;
pub mod links;
pub mod lora;
pub mod metric_spec;
pub mod metrics_export;
pub mod model;
pub mod packet;
pub mod payload;
pub mod plan;
pub mod properties;
pub mod radio;
pub mod setup;
pub mod sim_time;
pub mod stats;
pub mod text;
pub mod trace;
