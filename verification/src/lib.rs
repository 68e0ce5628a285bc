//! Quantum network entanglement distribution: the topology model, the `.qnet`
//! file format and its validation and diffing, route enumeration and selection,
//! the event timeline, and the protocol bookkeeping, with their contracts.

pub mod binary64;
pub mod network;
pub mod request;
pub mod routing;
pub mod json;
pub mod qnet;
pub mod validation;
pub mod diff;
pub mod distributed;
pub mod memory;
pub mod text;
pub mod simulation;
pub mod metrics;
pub mod scheduler;
pub mod topology;
pub mod io;
pub mod protocols;
pub mod snapshot;
pub mod report;

pub use diff::{ConfigDiff, ConstraintsDiff, MetadataDiff, QNetDiff};
pub use distributed::{BasisType, CoordinationTopology};
pub use io::QNetError;
pub use qnet::{
    QNetConfig, QNetConstraints, QNetExtensions, QNetFile, QNetLink, QNetLinkType, QNetMetadata, QNetNode,
    QNetNodeType, QNetVersion,
};
pub use request::{
    EntanglementRequest, LinkDefinition, LinkType, NetworkTopologyPayload, NodeDefinition, SatelliteConditions,
    TopologyConfig, TopologyDiff, TopologyMetadata, TopologySnapshot,
};
pub use routing::StrategyType;
pub use topology::generator::{generate_topology, TopologyType};
pub use validation::{QNetValidator, ValidationError, ValidationErrorKind, ValidationResult};
