[package]
name = "time_mocker"
version = "0.1.0"
edition = "2021"
publish = false

[dependencies]
anyhow = "=1.0.104"
chrono = { version = "=0.4.45", default-features = false, features = ["clock", "std"] }
dll-syringe = { version = "=0.15.2", default-features = false, features = ["syringe"] }
eframe = { version = "=0.29.1", default-features = false, features = ["default_fonts", "glow", "persistence"] }
egui = { version = "=0.29.1", default-features = false }
globset = "=0.4.21"
once_cell = "=1.21.4"
regex = "=1.13.1"
retour = { version = "=0.3.1", features = ["static-detour"] }
serde = { version = "=1.0.229", features = ["derive"] }
sysinfo = { version = "=0.32.1", default-features = false, features = ["system"] }
windows-sys = { version = "=0.59.0", features = ["Win32_Foundation", "Win32_Security", "Win32_System_Memory", "Win32_System_Time", "Win32_System_Threading", "Win32_System_LibraryLoader", "Win32_System_SystemServices", "Win32_System_SystemInformation"] }
