//! Errors of the client's connection.

use vstd::prelude::*;

use crate::service::provider::DynError;

verus! {

#[derive(Debug)]
pub enum ConnectError {
    AlreadyConnected,
    Transport(DynError),
}

} // verus!
