//! Deleting topics: which of the topics that were asked for are there, and
//! whether the user has agreed.

use crate::text::{among, is_yes, join, joined, says_yes, select};
use vstd::prelude::*;
use vstd::string::StringExecFns;

verus! {

/// The command that deletes topics.
#[derive(Debug, Clone, Copy, PartialEq, Eq, Structural)]
pub struct DeleteCmd {}

/// What deleting the requested topics comes to.
#[derive(Debug, Clone, PartialEq, Eq)]
pub struct DeletePlan {
    /// The requested topics that the cluster has, in the order of the request.
    pub to_delete: Vec<String>,
    /// The requested topics that the cluster does not have, in the order of the request.
    pub missing: Vec<String>,
}

impl DeleteCmd {
    /// The question that is put to the user before topics are deleted.
    pub fn question(topic_names: &Vec<String>) -> (text: String)
        ensures
            text@ == "Are you sure that you want to delete the "@ + joined(
                topic_names.deep_view(),
                ", "@,
            ) + " topics? [y/N]"@,
    {
        String::from_str("Are you sure that you want to delete the ").concat(
            join(topic_names, ", ").as_str(),
        ).concat(" topics? [y/N]")
    }

    /// Whether the topics are to be deleted: without asking where the user
    /// said so beforehand, and else if the answer says yes.
    pub fn confirmed(auto_yes: bool, answer: &str) -> (go: bool)
        ensures
            go == (auto_yes || says_yes(answer@)),
    {
        auto_yes || is_yes(answer)
    }

    /// Sorts out the requested topics against those that the cluster has.
    pub fn plan(topic_names: &Vec<String>, existent_topic_names: &Vec<String>) -> (plan: DeletePlan)
        ensures
            plan.to_delete.deep_view() == topic_names.deep_view().filter(
                among(existent_topic_names.deep_view(), true),
            ),
            plan.missing.deep_view() == topic_names.deep_view().filter(
                among(existent_topic_names.deep_view(), false),
            ),
    {
        DeletePlan {
            to_delete: select(topic_names, existent_topic_names, true),
            missing: select(topic_names, existent_topic_names, false),
        }
    }
}

} // verus!
