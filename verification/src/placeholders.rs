//! Stand-in adapters: a device connector that reports the missing protocol,
//! an inert device client, and an HRMS client that accepts every event.

use vstd::prelude::*;

use crate::config::BridgeDeviceConfig;
use crate::domain::{DeviceUser, FingerTemplate, HrmsEvent, RawAttendance};
use crate::ports::{DeviceClient, DeviceConnector, DeviceError, HrmsClient, HrmsError, WebhookResult};

verus! {

/// Connector that reports the device protocol as not implemented.
#[derive(Debug, Default)]
pub struct PlaceholderDeviceConnector;

impl DeviceConnector for PlaceholderDeviceConnector {
    fn connect(&self, _cfg: &BridgeDeviceConfig) -> (r: Result<Box<dyn DeviceClient>, DeviceError>)
        ensures
            r matches Err(DeviceError::NotImplemented),
    {
        Err(DeviceError::NotImplemented)
    }
}

/// A client on which every device operation is not implemented.
#[derive(Debug, Default)]
pub struct PlaceholderDeviceClient;

impl DeviceClient for PlaceholderDeviceClient {
    fn pull_attendance(&mut self) -> (r: Result<Vec<RawAttendance>, DeviceError>)
        ensures
            r matches Err(DeviceError::NotImplemented),
    {
        Err(DeviceError::NotImplemented)
    }

    fn clear_attendance(&mut self) -> (r: Result<(), DeviceError>)
        ensures
            r matches Err(DeviceError::NotImplemented),
    {
        Err(DeviceError::NotImplemented)
    }

    fn get_templates(&mut self) -> (r: Result<Vec<FingerTemplate>, DeviceError>)
        ensures
            r matches Err(DeviceError::NotImplemented),
    {
        Err(DeviceError::NotImplemented)
    }

    fn push_user_template(&mut self, _user: &DeviceUser, _finger: &FingerTemplate) -> (r: Result<(), DeviceError>)
        ensures
            r matches Err(DeviceError::NotImplemented),
    {
        Err(DeviceError::NotImplemented)
    }

    fn disconnect(&mut self) {
    }
}

/// An HRMS client that reports every event as received.
#[derive(Debug, Default)]
pub struct PlaceholderHrmsClient;

impl HrmsClient for PlaceholderHrmsClient {
    fn forward_events(&self, _webhook_url: &str, _device: &BridgeDeviceConfig, events: &[HrmsEvent]) -> (r: Result<
        WebhookResult,
        HrmsError,
    >)
        ensures
            r == Ok::<WebhookResult, HrmsError>(WebhookResult { received: events@.len() as usize }),
    {
        Ok(WebhookResult { received: events.len() })
    }
}

} // verus!
