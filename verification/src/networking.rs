//! What the balancer says to and about its peers.

pub mod proxy_protocol;
pub mod addr;
pub mod acl;
pub mod proxy;
