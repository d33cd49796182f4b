//! Rate limiting: token buckets and the streams that pay into them.

pub mod bandwidth;
pub mod bucket;
pub mod limiter;
pub mod store;
