pub mod packet;
pub mod tcp;
pub mod udp;
