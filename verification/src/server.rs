//! The server side: authentication of incoming connections and the
//! answers to refused upgrade requests.

pub mod hyper;
pub mod session;
