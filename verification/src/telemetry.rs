//! Telemetry information service: a trivial lookup of the cluster's stored
//! tracking identifier.

use vstd::prelude::*;

verus! {

/// Handle to the metadata store, holding what the lookup reads: the cluster
/// identifier persisted at bootstrap, if any.
pub struct MetaStoreRef {
    pub cluster_id: Option<String>,
}

/// Serves the cluster's telemetry tracking identifier.
pub struct TelemetryInfoServiceImpl {
    pub meta_store: MetaStoreRef,
}

/// The reply to a telemetry-information request.
pub struct TelemetryInfoResponse {
    pub tracking_id: Option<String>,
}

impl TelemetryInfoServiceImpl {
    /// A service reading from the given metadata store.
    pub fn new(meta_store: MetaStoreRef) -> (s: Self)
        ensures
            s.meta_store == meta_store,
    {
        TelemetryInfoServiceImpl { meta_store }
    }

    /// The stored cluster identifier, used as the tracking id.
    pub fn get_tracking_id(&self) -> (r: Option<String>)
        ensures
            r == self.meta_store.cluster_id,
    {
        match &self.meta_store.cluster_id {
            Some(id) => Some(id.clone()),
            None => None,
        }
    }

    /// Answer a telemetry-information request: the tracking id when one is
    /// stored, an empty reply otherwise.
    pub fn get_telemetry_info(&self) -> (r: TelemetryInfoResponse)
        ensures
            r.tracking_id == self.meta_store.cluster_id,
    {
        match self.get_tracking_id() {
            Some(tracking_id) => TelemetryInfoResponse { tracking_id: Some(tracking_id) },
            None => TelemetryInfoResponse { tracking_id: None },
        }
    }
}

} // verus!
