//! An incremental, on-demand computation engine: memoized queries over
//! externally supplied inputs, with dependency tracking, early cutoff and
//! cycle detection.
//!
//! The engine keeps one cell per query key ([`cell`]), the cells of one query
//! type in one storage ([`storage`]) and all storages in one table
//! ([`table`]). A cell holds a value, the revision ([`revision`]) at which
//! the value was computed or last found valid, and a tree of records
//! ([`dep`]) of what the computation consulted. A cell whose value is being
//! computed shows a latch ([`reservation`]) and the lineage ([`fork`]) that
//! computes it.
//!
//! Running a query, waiting on a latch and taking a lock are left to the
//! caller, who may do them on any executor. The library decides everything
//! in between. A demand goes through the steps of [`runtime`]: it begins, and
//! is told to compute, to wait, to return, or to walk the dependencies of the
//! cached cell; after the walk ([`walk`]) it concludes. The walk is a machine
//! that is stepped until it is done and that asks for the computations it
//! needs; its findings are values of a small lattice ([`invalidation`]).
//! [`laws`] holds what is proved of several steps together.

pub mod cell;
pub mod dep;
pub mod fork;
pub mod invalidation;
pub mod laws;
pub mod query;
pub mod query_ref;
pub mod reservation;
pub mod revision;
pub mod runtime;
pub mod storage;
pub mod table;
pub mod tracker;
pub mod walk;
mod shared;

pub use fork::ForkId;
pub use invalidation::Invalidation;
pub use query::Input;
pub use query_ref::QueryRef;
pub use reservation::Reservation;
pub use reservation::ReservationReader;
pub use revision::Revision;
pub use runtime::Runtime;
pub use tracker::QueryTracker;
