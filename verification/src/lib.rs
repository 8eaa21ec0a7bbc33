//! The decision core of an S3 proxy that spreads objects over several object
//! stores.
//!
//! A directory service knows where the copies of an object live; the object
//! stores hold them. This crate performs no I/O: for every S3 operation it says
//! which request to send next, to whom, and what the replies mean. The code
//! around it sends the requests and hands the replies back.

pub mod buckets;
pub mod deletion;
pub mod dto;
pub mod error;
pub mod laws;
pub mod listing;
pub mod models;
pub mod multipart;
pub mod objects;
pub mod parts;
pub mod proxy;
pub mod text;
pub mod timestamp;
