//! IMAP command reception and argument parsing, with JMAP access rights.
pub mod acl;
pub mod addresses;
pub mod bytes;
pub mod command;
pub mod copy_move;
pub mod protocol;
pub mod receiver;
pub mod sequence;
pub mod utf7;
