//! The social graph and feed engine of a voice-note network: users follow one
//! another, post and reply with audio clips, and react to posts.

pub mod model;
pub mod store;
pub mod social;
pub mod listing;
pub mod posts;
pub mod feed;
pub mod laws;
