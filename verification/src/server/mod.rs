//! The server side: capture pipeline, graphics channel, cursor, start-up.

pub mod compositor_mode;
pub mod cursor_pdu;
pub mod cursor_theme;
pub mod deployment;
pub mod display_handler;
pub mod dmabuf_materialize;
pub mod egfx_sender;
pub mod frame_scaler;
pub mod frame_transform;
pub mod gfx_factory;
pub mod graphics_drain;
pub mod lifecycle;
pub mod pipeline;
pub mod pipeline_decisions;
pub mod pipeline_sections;
pub mod port_check;
pub mod security;
pub mod startup;
