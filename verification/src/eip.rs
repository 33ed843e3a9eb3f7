//! The EtherNet/IP encapsulation: the header of a frame and the data that each
//! command puts behind it.

pub mod constants;
pub mod description;
pub mod command;
pub mod packet;
pub mod cip_data;
