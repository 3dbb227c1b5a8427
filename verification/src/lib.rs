//! Node-side session layer for a publish/subscribe and request/response
//! protocol carried over CAN-FD frames: reassembly of inbound fragments into
//! complete messages, integrity checking, the rolling transfer identifier and
//! the correlation of a request with its response under a deadline.

pub mod assembler;
pub mod codec;
pub mod correlator;
pub mod frame;
pub mod integrity;
pub mod interface;
pub mod laws;
pub mod session;
pub mod transition;

pub use assembler::{Assembler, IntegrityError, Outcome};
pub use correlator::{PendingRequest, RequestError, RxData, Verdict};
pub use frame::{Frame, FrameRole, Packet, Props, TransferKind, TxPacket};
pub use interface::{CANInterface, Config, LoadError};
pub use session::{EncodeError, Session};
