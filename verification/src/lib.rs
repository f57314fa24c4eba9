//! Neighbor enumeration and radial-integral bookkeeping for atomic-environment
//! descriptors, with every decision the library takes stated in a contract and
//! proved.

pub mod error;
pub mod geometry;
pub mod gto;
pub mod logging;
pub mod neighbors;
pub mod radial_basis;
pub mod radial_integral;
pub mod refinement;
pub mod scalar;
pub mod spline;
pub mod system;
pub mod table;
