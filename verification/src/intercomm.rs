//! What travels on the queue from the connection handlers to the controller.

use vstd::prelude::*;
use crate::api_types::{ClientUpdate, PlayerId};

verus! {

/// One intent and the player it comes from.
#[derive(Clone, Debug, PartialEq, Eq)]
pub struct ChannelUpdate {
    pub id: PlayerId,
    pub update: ClientUpdate,
}

} // verus!
