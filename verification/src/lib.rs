//! Synchronisation engine for a scene-based home-automation server.
//!
//! The server models a building as zones that hold groups of devices. It is
//! driven by numbered scene calls and reports changes only through a polled
//! event queue. This library keeps a model of the building, converts
//! between scene numbers and their meaning, and decides which requests have
//! to be sent; it performs no input or output itself.

pub mod action;
pub mod api;
pub mod appartement;
pub mod builder;
pub mod cache;
pub mod calls;
pub mod command;
pub mod decode;
pub mod dispatch;
pub mod error;
pub mod event;
pub mod group;
pub mod json;
pub mod kind;
pub mod lookup;
pub mod model;
pub mod request;
pub mod text;
pub mod value;
pub mod views;
pub mod wire;

pub use action::Action;
pub use api::RawApi;
pub use appartement::{Appartement, Channel};
pub use builder::{Builder, Stage};
pub use dispatch::Resolution;
pub use error::{Error, Fault, Field, Missing};
pub use event::Event;
pub use json::{Json, Member};
pub use kind::{DeviceType, Type};
pub use model::{Circut, Device, Group, SceneMode, Zone};
pub use request::{Param, Reply, Request};
pub use value::Value;
