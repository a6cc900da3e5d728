//! Connection profiles, their storage, jump-host session planning, SSH stream
//! buffering and the decision logic of the HTTP and SOCKS5 tunnels.

pub mod profile;
pub mod ssh;
pub mod storage;
pub mod session;
pub mod tunnel;
pub mod manager;
pub mod terminal;
