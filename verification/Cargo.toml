[package]
name = "windivvun"
version = "0.1.0"
edition = "2021"
publish = false

[dependencies]
parking_lot = "0.12"
log = "0.4"
lazy_static = "1"
dirs = "5"
com-impl = "0.2"
winapi = { version = "0.3", features = ["winerror", "guiddef", "combaseapi", "objidlbase", "unknwnbase", "winnls", "winbase", "libloaderapi", "minwindef", "ntdef", "winnt", "wtypesbase"] }
log4rs = { version = "1", default-features = false, features = ["file_appender"] }
