//! WebSocket streams under inspection.

pub mod close_frame;
pub mod h2;

pub use close_frame::{ClientCloseFrame, ServerCloseFrame};
pub use h2::{
    BridgeAction, BridgeEvent, BridgeState, CloseFrames, CloseReason, DetourAction,
    H2WebsocketInterceptObject,
};
