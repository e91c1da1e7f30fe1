//! The top-level error type, aggregating the modules' errors.

use vstd::prelude::*;

use crate::config::ConfigError;
use crate::detector::DetectorError;
use crate::graph::GraphError;

verus! {

/// Any error of the library, by the module it comes from.
#[derive(Debug)]
pub enum CoreError {
    Graph(GraphError),
    Config(ConfigError),
    Detector(DetectorError),
}

} // verus!
