//! Creating topics: which of the topics that were asked for are new.

use crate::text::{among, select};
use vstd::prelude::*;

verus! {

/// The command that creates topics.
#[derive(Debug, Clone, Copy, PartialEq, Eq, Structural)]
pub struct CreateCmd {}

/// What creating the requested topics comes to.
#[derive(Debug, Clone, PartialEq, Eq)]
pub struct CreatePlan {
    /// The requested topics that the cluster does not have, in the order of the request.
    pub to_create: Vec<String>,
    /// The topics of the cluster that were requested, in the order of the cluster.
    pub already_existent: Vec<String>,
}

impl CreateCmd {
    /// Sorts out the requested topics against those that the cluster has.
    pub fn plan(topic_names: &Vec<String>, existent_topic_names: &Vec<String>) -> (plan: CreatePlan)
        ensures
            plan.to_create.deep_view() == topic_names.deep_view().filter(
                among(existent_topic_names.deep_view(), false),
            ),
            plan.already_existent.deep_view() == existent_topic_names.deep_view().filter(
                among(topic_names.deep_view(), true),
            ),
    {
        CreatePlan {
            to_create: select(topic_names, existent_topic_names, false),
            already_existent: select(existent_topic_names, topic_names, true),
        }
    }
}

} // verus!
