//! On-screen OCR, translation and screenshots for Wayland.
pub mod text;
pub mod command;
pub mod paths;
pub mod capture;
pub mod clip;
pub mod json;
pub mod hyprland;
pub mod shot;
pub mod ocr;
pub mod settings;
pub mod translate;
pub mod pipeline;
pub mod cli;
pub mod ipc;
pub mod ui;
pub mod geom;
pub mod image;
pub mod annotate;
pub mod redact;
pub mod overlay;
pub mod canvas;
