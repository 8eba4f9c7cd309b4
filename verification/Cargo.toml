[package]
name = "duja-platform"
version = "0.3.0"
edition = "2021"
publish = false

[dependencies]
core-foundation-sys = "=0.8.7"
crossbeam-channel = "=0.5.17"
directories = "=6.0.0"
libc = "=0.2.191"
objc2 = "=0.6.5"
objc2-app-kit = { version = "=0.3.2", features = ["NSEvent", "NSScreen", "NSWorkspace"] }
objc2-foundation = { version = "=0.3.2", features = ["NSArray", "NSString", "NSURL", "NSUserDefaults", "NSGeometry"] }
rustix = { version = "=1.1.6", features = ["event", "fs", "net", "param", "pipe"] }
thiserror = "=2.0.21"
windows = { version = "=0.61.3", features = ["Win32_Foundation", "Win32_Graphics_Gdi", "Win32_Security", "Win32_Security_Authorization", "Win32_Storage_FileSystem", "Win32_System_IO", "Win32_System_Pipes", "Win32_System_ProcessStatus", "Win32_System_Registry", "Win32_System_RemoteDesktop", "Win32_System_Threading", "Win32_UI_HiDpi", "Win32_UI_Shell", "Win32_UI_WindowsAndMessaging"] }
x11rb = { version = "=0.13.2", features = ["randr", "resource_manager"] }
zbus = "=5.19.0"
