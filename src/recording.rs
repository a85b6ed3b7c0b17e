//! Requests and responses of the recording and streaming endpoints.

use vstd::prelude::*;
use crate::client::KvPairs;

verus! {

/// Starts streaming from a device.
#[derive(Debug, Clone)]
pub struct OtherDeviceV1StreamingStartRequest {
    pub device_sn: String,
    pub stream_url: Option<String>,
    pub biz_id: Option<String>,
}

/// The answer to a start request.
#[derive(Debug, Clone)]
pub struct OtherDeviceV1StreamingStartResponse {
    pub code: i64,
    pub message: Option<String>,
}

/// Stops streaming from a device.
#[derive(Debug, Clone)]
pub struct OtherDeviceV1StreamingStopRequest {
    pub device_sn: String,
}

/// The answer to a stop request.
#[derive(Debug, Clone)]
pub struct OtherDeviceV1StreamingStopResponse {
    pub code: i64,
    pub message: Option<String>,
}

/// Lists the videos recorded under a business id.
#[derive(Debug, Clone)]
pub struct StreamingVideosRequest {
    pub biz_id: String,
}

/// The videos recorded under a business id.
#[derive(Debug, Clone)]
pub struct StreamingVideosResponse {
    pub code: i64,
    pub message: Option<String>,
    pub data: Vec<StreamingVideo>,
}

/// One recorded video; `duration` is in whole seconds.
#[derive(Debug, Clone)]
pub struct StreamingVideo {
    pub name: Option<String>,
    pub biz_id: Option<String>,
    pub ftp_path: Option<String>,
    pub url: Option<String>,
    pub index: Option<String>,
    pub duration: u64,
    pub size_in_kb: u64,
    pub video_group_id: Option<String>,
    pub video_group_name: Option<String>,
    pub room_name: Option<String>,
    pub teacher_name: Option<String>,
    pub subject_name: Option<String>,
    pub stage_name: Option<String>,
    pub record_timestamp: u64,
}

impl StreamingVideosRequest {
    /// The query of the request: its business id under `bizId`.
    pub fn queries(&self) -> (r: KvPairs)
        ensures
            r@.len() == 1,
            r@[0].0@ == "bizId"@,
            r@[0].1@ == self.biz_id@,
    {
        let mut q: KvPairs = Vec::new();
        q.push(("bizId".to_owned(), self.biz_id.clone()));
        q
    }
}

} // verus!
