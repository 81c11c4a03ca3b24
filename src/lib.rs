//! Protocol core of a streaming scene renderer: the commands a scene build
//! emits, the frame lifecycle that a renderer enforces while it consumes
//! them, and the ordered, exactly-once delivery of those commands.
pub mod command;
pub mod delivery;
pub mod frame;

pub use command::{Command, FillRule, TargetId};
pub use delivery::{deliver_sequential, CollectorView, CommandLog, DeliveryError, OrderedCollector};
pub use frame::{Frame, FrameView, ProtocolError};
