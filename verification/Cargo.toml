[package]
name = "fixfifa"
version = "0.1.0"
edition = "2021"
publish = false

[dependencies]
serde = { version = "=1.0.229", features = ["derive"] }
serde_json = "=1.0.154"
rust-ini = "=0.21.3"
pickledb = "=0.5.1"
log = "=0.4.35"
tempfile = "=3.27.0"
winapi = { version = "=0.3.9", features = ["minwindef", "basetsd", "windef", "ntdef", "winnt", "processthreadsapi", "memoryapi", "libloaderapi", "psapi", "handleapi", "synchapi", "winbase", "consoleapi", "wincon", "winuser", "minwinbase", "shellapi"] }
reqwest = { version = "=0.12.28", default-features = false, features = ["blocking", "rustls-tls"] }
tokio = { version = "=1.54.1", features = ["rt", "time"] }
rocket = "=0.5.2"
rocket_dyn_templates = { version = "=0.2.0", features = ["tera"] }
