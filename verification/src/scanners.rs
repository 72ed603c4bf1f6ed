pub mod scanner;
pub mod smartctl_scanner;
pub mod udev_scanner;
