pub mod config;
pub mod hyprland;
pub mod icons;
pub mod keys;
pub mod overlay;
pub mod text;
pub mod theme;
