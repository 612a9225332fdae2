//! The node manifest: which CAN identifiers each named node answers on.
//! Loading it from its YAML file is the program's job; the shapes live
//! here so the engine's callers all speak of the same nodes.

use std::collections::HashMap;
use vstd::prelude::*;

verus! {

/// One node's pair of CAN identifiers: where requests go and where its
/// replies come from.
pub struct Node {
    pub request_id: u32,
    pub response_id: u32,
}

/// The manifest file's shape: a map from node name to its identifiers.
pub struct CfgYaml {
    pub nodes: HashMap<String, Node>,
}

/// The loaded configuration the session constructors read.
pub struct Config {
    pub nodes: HashMap<String, Node>,
}

impl Config {
    /// The configuration holding the given nodes.
    pub fn from_nodes(nodes: HashMap<String, Node>) -> (r: Config)
        ensures
            r.nodes == nodes,
    {
        Config { nodes }
    }
}

} // verus!
