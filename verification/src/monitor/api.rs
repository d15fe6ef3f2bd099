//! The answer envelope and request shapes of the monitoring API.
use vstd::prelude::*;
use crate::text::owned;
use crate::monitor::types::AlertLevel;
use crate::monitor::webhook::WebhookType;

verus! {

/// The envelope of an API answer: the data on success, the error otherwise.
pub struct ApiResponse<T> {
    pub success: bool,
    pub data: Option<T>,
    pub error: Option<String>,
}

impl<T> ApiResponse<T> {
    /// A successful answer carrying `data`.
    pub fn success(data: T) -> (r: Self)
        ensures
            r.success,
            r.data == Some(data),
            r.error is None,
    {
        ApiResponse { success: true, data: Some(data), error: None }
    }

    /// A failed answer carrying the message `msg`.
    pub fn error(msg: &str) -> (r: Self)
        ensures
            !r.success,
            r.data is None,
            r.error matches Some(e) && e@ == msg@,
    {
        ApiResponse { success: false, data: None, error: Some(owned(msg)) }
    }
}

/// Which page of a listing is asked for.
pub struct PaginationParams {
    pub limit: Option<usize>,
    pub offset: Option<usize>,
}

/// How far back a query reaches, in seconds.
pub struct TimeRangeParams {
    pub duration_secs: Option<u64>,
}

/// A request to create a dashboard.
pub struct CreateDashboardRequest {
    pub name: String,
    pub description: String,
}

/// A request to add a webhook.
pub struct CreateWebhookRequest {
    pub name: String,
    pub url: String,
    pub webhook_type: WebhookType,
    pub secret: Option<String>,
}

/// A request to add a silence rule.
pub struct CreateSilenceRequest {
    pub name: String,
    pub description: String,
    pub duration_hours: u32,
    pub alert_levels: Option<Vec<AlertLevel>>,
    pub metric_types: Option<Vec<String>>,
}

} // verus!
