pub mod cbor;
pub mod event_queue;
pub mod events;
pub mod regex_key;
pub mod dispatch;
pub mod event_loop;
