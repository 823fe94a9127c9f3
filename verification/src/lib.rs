//! Control logic of the PineNote system service: the display controller's
//! parameters, writing mode, the Bluetooth pen, travel mode and the
//! off-screen image request. The library decides; the program around it
//! performs the file, device and bus I/O.

pub mod decimal;
pub mod ebc_ioctl;
pub mod misc;
pub mod pen;
pub mod sys_handler;
pub mod text;
pub mod writing_mode;
