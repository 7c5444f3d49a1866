pub mod duration;
pub mod errortypes;
pub mod fee;
pub mod nodeid;
pub mod params;
pub mod paymentid;
pub mod paymentresult;
pub mod probability;
pub mod satoshi;
pub mod timestamp;
