//! Client core for a live-streaming control API: canonical signing of
//! requests, the protocol headers that carry the signature, and the
//! materialisation of a logical request into a transport-ready one.

pub mod client;
pub mod recording;
pub mod request;
pub mod response;
pub mod sign;
pub mod typed;

pub use client::{KvPairs, SeewoClient, SeewoError, SeewoRequest, SeewoResponse, SeewoSignType, SeewoStage};
pub use recording::{
    OtherDeviceV1StreamingStartRequest, OtherDeviceV1StreamingStartResponse, OtherDeviceV1StreamingStopRequest,
    OtherDeviceV1StreamingStopResponse, StreamingVideo, StreamingVideosRequest, StreamingVideosResponse,
};
pub use request::PreparedRequest;
pub use response::decode_response;
pub use reqwest::Method as SeewoHttpMethod;
pub use typed::SeewoTypedResponse;
