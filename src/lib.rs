//! Conversion of JUnit XML test reports into Subunit v2 packet streams.
//!
//! The XML tokenizer feeds [`accumulator::Accumulator`] with [`accumulator::ReportEvent`]s;
//! the accumulator decides which start and stop packets describe the run, and
//! [`encode`] turns each packet into its Subunit v2 bytes.
pub mod accumulator;
pub mod encode;
pub mod identity;
pub mod markup;
pub mod packet;
pub mod timeline;
