//! Core logic of a community-channel chat bot, verified with Verus.
//!
//! The library covers the message pipeline: trigger evaluation
//! ([`pipeline`]), the per-guild mention cache with longest-match
//! substitution ([`mention`]), the embedded send-directive grammar with its
//! reverse-order execution plan ([`directive`]), context assembly for the
//! completion service ([`context`]), size-bounded reply chunking
//! ([`emitter`]), the policy and conversation stores with default-on-miss
//! reads ([`policy`], [`store`]), the player-lookup short circuit
//! ([`player`]), and the step function of the settings surface
//! ([`settings`]). Identifiers are plain `u64` values and text is modeled
//! as character sequences; everything the platform gateway, the network and
//! the host process do stands outside the library and hands values across
//! this boundary. The only computations taken on trust are base64 coding
//! and the MD5 digest ([`trusted`]).
#![verifier::loop_isolation(false)]

pub mod context;
pub mod directive;
pub mod emitter;
pub mod imagine;
pub mod mention;
pub mod pipeline;
pub mod player;
pub mod policy;
pub mod settings;
pub mod spotify;
pub mod stats;
pub mod store;
pub mod text;
pub mod trusted;
