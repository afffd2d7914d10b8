//! Mirrors the playback state of a local media player into a presence
//! display: per-tick reconciliation of track identity and elapsed-time
//! anchor, a music-worthiness gate, artwork lookup with a process-lifetime
//! cache, and construction of the presence record to publish.

pub mod artwork;
pub mod laws;
pub mod probe;
pub mod reconciler;

pub use artwork::ArtCache;
pub use artwork::art_queries;
pub use artwork::interpret_art_response;
pub use artwork::upgrade_artwork_url;
pub use probe::clean_field;
pub use probe::micros_to_secs;
pub use probe::parse_u64;
pub use reconciler::PresenceRecord;
pub use reconciler::ReconcileOutcome;
pub use reconciler::ReconcilerState;
pub use reconciler::TickInput;
pub use reconciler::TrackIdentity;
pub use reconciler::is_music;
pub use reconciler::publish_record;
pub use reconciler::reconcile;
