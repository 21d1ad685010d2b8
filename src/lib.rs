//! Mailbox transport layer between the application core and the wireless
//! coprocessor: shared intrusive queues, doorbell channels, the system
//! channel handler, buffer recycling and the application event ring.

pub mod channels;
pub mod evt;
pub mod info;
pub mod ipcc;
pub mod list;
pub mod mbox;
pub mod mm;
pub mod sys;
