//! Query resolution and geospatial filtering for a store of voting
//! opportunities: mapping persisted rows to domain values, listing upcoming
//! opportunities, filtering them by distance from a point, and fetching,
//! creating or deleting one by identifier.

mod clock;
pub mod laws;
pub mod model;
pub mod resolvers;
pub mod store;
