//! Resolution of IP addresses to geolocation records: the batch lookup engine,
//! its bounded recency cache and the country reference tables that enrich
//! every record.
//!
//! The engine does not talk to the network itself. A lookup is handed the
//! exchange with the remote service as a function from request to reply, and
//! calls it only for the addresses that the cache does not hold.

pub mod cache;
pub mod config;
pub mod details;
pub mod engine;
pub mod error;
pub mod json;
pub mod laws;
pub mod model;
pub mod reference;
pub mod request;
pub mod results;
pub mod rows;
pub mod wire;

pub use config::IpInfoConfig;
pub use details::{Continent, CountryCurrency, CountryFlag, IpDetails};
pub use engine::{IpInfo, Partition};
pub use error::{IpError, IpErrorKind};
pub use reference::{ReferenceData, ReferenceSources};
pub use request::{BatchRequest, Reply, VERSION};
pub use results::DetailsMap;
