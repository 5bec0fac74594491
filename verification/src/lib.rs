//! Small verified pieces of a collection of async and I/O demos: a `Person`
//! record, the bookkeeping of camera tasks that share a counter, licence-plate
//! metadata read from an ONVIF XML document, the recovery of AVI data from
//! `.CHK` fragments, the picture of an image window, the decisions of counting
//! and receiving loops, and the text the demos print.

pub mod avi;
pub mod camera;
pub mod decimal;
pub mod frames;
pub mod logline;
pub mod mac;
pub mod onvif;
pub mod person;
pub mod picture;
pub mod plate;
pub mod receiver;
pub mod tasks;
pub mod viewer;
