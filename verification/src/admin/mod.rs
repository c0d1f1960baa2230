//! Local admin/attach support: a Unix-socket endpoint that streams metrics and
//! events to an attached TUI client, plus the wire protocol shared by both ends.

pub mod client;
pub mod frame;
pub mod ring;
pub mod server;

pub use client::{attach, decode_loop, AttachError, DecodeStep, RemoteState};
pub use frame::{read_frame, write_frame, Frame, FrameError, FrameRead, MAX_FRAME_LEN, PROTO_VERSION};
pub use ring::{EventRing, ADMIN_EVENT_RING_CAPACITY};
