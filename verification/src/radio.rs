//! The link: its frames, its addresses, its rules, the transport that
//! scheduled code drives, and the mailbox through which tasks share it.
//!
//! The transport keeps one hardware operation in flight at a time. Its owner
//! reports each wake-up and is answered with the commands to carry out next.

pub mod addresses;
pub mod command;
pub mod hardware;
pub mod laws;
pub mod mailbox;
pub mod packet;
pub mod protocol;
pub mod transport;

pub use packet::{FrameDecodeError, Packet, PacketType, PacketView, PayloadTooLong};
pub use packet::{BUFFER_SIZE, FRAME_SIZE, META_SIZE};
pub use addresses::{Addresses, Node, RadioConfig, TimerConfig};
pub use command::{Command, LogInfo, Outcome, RadioEvents, Step};
pub use hardware::RadioHardware;
pub use transport::{InterruptHandler, Phase, Radio, RadioView};
pub use mailbox::{receive_packet, send_packet, Mailbox, MailboxView, QueueFull, Request};
