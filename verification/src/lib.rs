//! comphwde: the window-management core of a Wayland compositor.
//!
//! Two compositors share these modules: the desktop of [`hwde`], whose model is
//! [`desk`], and the session of [`blue`], whose model is [`desktop`]. What either asks
//! of the display server it leaves in a list; nothing here touches a screen, a socket
//! or a file.
pub mod actions;
pub mod assoc;
pub mod blue;
pub mod config;
pub mod desk;
pub mod desk_laws;
pub mod desktop;
pub mod desktop_input;
pub mod desktop_laws;
pub mod dispatch_laws;
pub mod drm;
pub mod events;
pub mod ext_workspace;
pub mod foreign_toplevel;
pub mod geometry;
pub mod gpus;
pub mod grabs;
pub mod hackerland;
pub mod hardware_laws;
pub mod hk;
pub mod hwde;
pub mod input;
pub mod input_laws;
pub mod ipc;
pub mod key_laws;
pub mod keybind;
pub mod layout;
pub mod layout_laws;
pub mod panel_laws;
pub mod paths;
pub mod portal;
pub mod power;
pub mod protocol;
pub mod ratio;
pub mod render_elements;
pub mod resize;
pub mod scan;
pub mod sde;
pub mod session_events;
pub mod session_laws;
pub mod shell_ipc;
pub mod single;
pub mod space;
pub mod startup;
pub mod summaries;
pub mod text;
pub mod tile_laws;
pub mod title_text;
pub mod wallpaper;
pub mod window;
pub mod window_laws;
pub mod x11;
