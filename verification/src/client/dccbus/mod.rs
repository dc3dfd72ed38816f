//! Resilient dcc-bus WebSocket client.
//!
//! Two long-lived sockets are kept (each with its own keep-alive pings):
//!
//! * **programming**: organizer JWT, used for CV / address frames
//!   (`loco.cvRead`, `loco.cvWrite`, `loco.addrGet`, `loco.addrSet`).
//! * **drive**: organizer JWT plus `X-BigFred-Impersonate-As` for the
//!   currently selected participant; used for ops-track pulses (F2).
//!   Replaced when the wizard picks a different user.
//!
//! Both are re-dialled with exponential backoff if they die. This module
//! decides; the host owns the sockets, the clock and the tasks.

pub mod dial;
pub mod session;
pub mod slots;
pub mod station;
