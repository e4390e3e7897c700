//! Settings of protocol inspection.

use std::time::Duration;
use vstd::prelude::*;

verus! {

/// The time span of so many whole seconds.
pub uninterp spec fn seconds(secs: u64) -> Duration;

/// Calls `Duration::from_secs`. The contract names the result.
#[verifier::external_body]
fn duration_from_secs(secs: u64) -> (d: Duration)
    ensures
        d == seconds(secs),
{
    Duration::from_secs(secs)
}

/// How many bytes of each protocol's first message are looked at before
/// the protocol is settled.
#[derive(Clone, Copy, Debug, PartialEq, Eq, Structural)]
pub struct ProtocolInspectionSizeLimit {
    pub ftp_server_greeting_msg: usize,
    pub http_client_request_uri: usize,
    pub imap_server_greeting_msg: usize,
    pub nats_server_info_line: usize,
    pub smtp_server_greeting_msg: usize,
}

impl ProtocolInspectionSizeLimit {
    pub open spec fn spec_default() -> ProtocolInspectionSizeLimit {
        ProtocolInspectionSizeLimit {
            ftp_server_greeting_msg: 512,
            http_client_request_uri: 4096,
            imap_server_greeting_msg: 512,
            nats_server_info_line: 1024,
            smtp_server_greeting_msg: 512,
        }
    }

    pub fn set_ftp_server_greeting_msg(&mut self, size: usize)
        ensures
            *final(self) == (ProtocolInspectionSizeLimit {
                ftp_server_greeting_msg: size,
                ..*old(self)
            }),
    {
        self.ftp_server_greeting_msg = size;
    }

    pub fn set_http_client_request_uri(&mut self, size: usize)
        ensures
            *final(self) == (ProtocolInspectionSizeLimit {
                http_client_request_uri: size,
                ..*old(self)
            }),
    {
        self.http_client_request_uri = size;
    }

    pub fn set_imap_server_greeting_msg(&mut self, size: usize)
        ensures
            *final(self) == (ProtocolInspectionSizeLimit {
                imap_server_greeting_msg: size,
                ..*old(self)
            }),
    {
        self.imap_server_greeting_msg = size;
    }

    pub fn set_nats_server_info_line(&mut self, size: usize)
        ensures
            *final(self) == (ProtocolInspectionSizeLimit {
                nats_server_info_line: size,
                ..*old(self)
            }),
    {
        self.nats_server_info_line = size;
    }

    pub fn set_smtp_server_greeting_msg(&mut self, size: usize)
        ensures
            *final(self) == (ProtocolInspectionSizeLimit {
                smtp_server_greeting_msg: size,
                ..*old(self)
            }),
    {
        self.smtp_server_greeting_msg = size;
    }
}

impl Default for ProtocolInspectionSizeLimit {
    fn default() -> (r: ProtocolInspectionSizeLimit)
        ensures
            r == ProtocolInspectionSizeLimit::spec_default(),
    {
        ProtocolInspectionSizeLimit {
            ftp_server_greeting_msg: 512,
            http_client_request_uri: 4096,
            imap_server_greeting_msg: 512,
            nats_server_info_line: 1024,
            smtp_server_greeting_msg: 512,
        }
    }
}

/// How deep, how much and how long the inspector looks.
#[derive(Debug, PartialEq, Eq)]
pub struct ProtocolInspectionConfig {
    inspect_max_depth: usize,
    data0_buffer_size: usize,
    data0_wait_timeout: Duration,
    data0_read_timeout: Duration,
    data0_size_limit: ProtocolInspectionSizeLimit,
}

/// The settings as values.
pub ghost struct ProtocolInspectionConfigView {
    pub max_depth: usize,
    pub data0_buffer_size: usize,
    pub data0_wait_timeout: Duration,
    pub data0_read_timeout: Duration,
    pub size_limit: ProtocolInspectionSizeLimit,
}

impl View for ProtocolInspectionConfig {
    type V = ProtocolInspectionConfigView;

    closed spec fn view(&self) -> ProtocolInspectionConfigView {
        ProtocolInspectionConfigView {
            max_depth: self.inspect_max_depth,
            data0_buffer_size: self.data0_buffer_size,
            data0_wait_timeout: self.data0_wait_timeout,
            data0_read_timeout: self.data0_read_timeout,
            size_limit: self.data0_size_limit,
        }
    }
}

impl Clone for ProtocolInspectionConfig {
    fn clone(&self) -> (r: ProtocolInspectionConfig)
        ensures
            r@ == self@,
    {
        ProtocolInspectionConfig {
            inspect_max_depth: self.inspect_max_depth,
            data0_buffer_size: self.data0_buffer_size,
            data0_wait_timeout: self.data0_wait_timeout,
            data0_read_timeout: self.data0_read_timeout,
            data0_size_limit: self.data0_size_limit,
        }
    }
}

impl Default for ProtocolInspectionConfig {
    /// Four levels of nesting, 4096 bytes of buffer, 60 seconds to wait for
    /// the first bytes and 4 seconds between them.
    fn default() -> (r: ProtocolInspectionConfig)
        ensures
            r@ == (ProtocolInspectionConfigView {
                max_depth: 4,
                data0_buffer_size: 4096,
                data0_wait_timeout: seconds(60),
                data0_read_timeout: seconds(4),
                size_limit: ProtocolInspectionSizeLimit::spec_default(),
            }),
    {
        ProtocolInspectionConfig {
            inspect_max_depth: 4,
            data0_buffer_size: 4096,
            data0_wait_timeout: duration_from_secs(60),
            data0_read_timeout: duration_from_secs(4),
            data0_size_limit: ProtocolInspectionSizeLimit::default(),
        }
    }
}

impl ProtocolInspectionConfig {
    pub fn set_max_depth(&mut self, depth: usize)
        ensures
            final(self)@ == (ProtocolInspectionConfigView { max_depth: depth, ..old(self)@ }),
    {
        self.inspect_max_depth = depth;
    }

    pub fn max_depth(&self) -> (r: usize)
        ensures
            r == self@.max_depth,
    {
        self.inspect_max_depth
    }

    pub fn set_data0_buffer_size(&mut self, size: usize)
        ensures
            final(self)@ == (ProtocolInspectionConfigView { data0_buffer_size: size, ..old(self)@ }),
    {
        self.data0_buffer_size = size;
    }

    pub fn data0_buffer_size(&self) -> (r: usize)
        ensures
            r == self@.data0_buffer_size,
    {
        self.data0_buffer_size
    }

    pub fn set_data0_wait_timeout(&mut self, value: Duration)
        ensures
            final(self)@ == (ProtocolInspectionConfigView {
                data0_wait_timeout: value,
                ..old(self)@
            }),
    {
        self.data0_wait_timeout = value;
    }

    pub fn data0_wait_timeout(&self) -> (r: Duration)
        ensures
            r == self@.data0_wait_timeout,
    {
        self.data0_wait_timeout
    }

    pub fn set_data0_read_timeout(&mut self, value: Duration)
        ensures
            final(self)@ == (ProtocolInspectionConfigView {
                data0_read_timeout: value,
                ..old(self)@
            }),
    {
        self.data0_read_timeout = value;
    }

    pub fn data0_read_timeout(&self) -> (r: Duration)
        ensures
            r == self@.data0_read_timeout,
    {
        self.data0_read_timeout
    }

    pub fn size_limit(&self) -> (r: &ProtocolInspectionSizeLimit)
        ensures
            *r == self@.size_limit,
    {
        &self.data0_size_limit
    }

    /// The size limits, to change them in place.
    pub fn size_limit_mut(&mut self) -> (r: &mut ProtocolInspectionSizeLimit)
        ensures
            *r == old(self)@.size_limit,
            final(self)@ == (ProtocolInspectionConfigView { size_limit: *final(r), ..old(self)@ }),
    {
        &mut self.data0_size_limit
    }
}

/// Tells whether another level of inspection may be opened at `depth`
/// levels of nesting.
pub fn depth_allows(config: &ProtocolInspectionConfig, depth: usize) -> (r: bool)
    ensures
        r == (depth < config@.max_depth),
{
    depth < config.max_depth()
}

} // verus!
