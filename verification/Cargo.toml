[package]
name = "bevy_mod_scripting_lua_rs"
version = "0.1.0"
edition = "2021"
publish = false

[dependencies]
lua-rs-runtime = "=0.0.7"
lua-types = "=0.0.7"
bevy = { version = "=0.18.1", default-features = false, features = ["std", "bevy_asset", "bevy_log", "bevy_window", "bevy_sprite", "bevy_color", "bevy_camera"] }
bevy_app = "=0.18.1"
bevy_ecs = "=0.18.1"
bevy_log = "=0.18.1"
# bms's `make_plugin_config_static!` expands to paths under `bevy_platform`.
bevy_platform = "=0.18.1"
bevy_mod_scripting_core = "=0.19.0"
bevy_mod_scripting_bindings = "=0.19.0"
bevy_mod_scripting_asset = "=0.19.0"
bevy_mod_scripting_script = "=0.19.0"
bevy_mod_scripting_functions = "=0.19.0"
bevy_mod_scripting_rhai = "=0.19.0"
wasm-bindgen = "0.2"
