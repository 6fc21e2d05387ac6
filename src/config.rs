//! Session configuration.
use vstd::prelude::*;
use crate::decoder::FrameDecoder;
use crate::framing::{copy_range, encode, encode_frame};

verus! {

/// Per-attempt reconnect budget, in seconds, when none is configured.
pub const DEFAULT_RECONNECT_TIMEOUT_SECS: u64 = 30;

/// Whether the stream is plain TCP or upgraded to TLS.
#[derive(Clone, Copy, Debug, PartialEq, Eq, Structural)]
pub enum Mode {
    Plain,
    Tls,
}

/// Why a configuration was refused.
#[derive(Clone, Copy, Debug, PartialEq, Eq, Structural)]
pub enum ConfigError {
    /// The frame delimiter must hold at least one byte.
    EmptySuffix,
}

/// Configuration of a socket session; fixed once the session starts.
#[derive(Debug)]
pub struct SocketConfig {
    /// The `host:port` to connect to.
    pub url: String,
    /// Plain or TLS.
    pub mode: Mode,
    /// The bytes that end every frame, in both directions.
    pub suffix: Vec<u8>,
    /// The optional heartbeat: its period in seconds and its payload.
    pub heartbeat: Option<(u64, Vec<u8>)>,
    /// The per-attempt reconnect budget in seconds.
    pub reconnect_timeout_secs: Option<u64>,
    /// The failed reconnect attempts in a row after which the client closes.
    pub max_reconnection_tries: Option<u64>,
}

impl SocketConfig {
    /// A configuration that a session can run on.
    pub open spec fn wf(&self) -> bool {
        self.suffix@.len() > 0
    }

    /// The reconnect budget in effect.
    pub open spec fn spec_reconnect_timeout(&self) -> u64 {
        match self.reconnect_timeout_secs {
            Some(t) => t,
            None => DEFAULT_RECONNECT_TIMEOUT_SECS,
        }
    }

    /// A configuration, refused when the suffix is empty.
    pub fn new(
        url: String,
        mode: Mode,
        suffix: Vec<u8>,
        heartbeat: Option<(u64, Vec<u8>)>,
        reconnect_timeout_secs: Option<u64>,
        max_reconnection_tries: Option<u64>,
    ) -> (r: Result<Self, ConfigError>)
        ensures
            suffix@.len() == 0 <==> r is Err,
            r is Err ==> r == Err::<Self, ConfigError>(ConfigError::EmptySuffix),
            r matches Ok(c) ==> c.wf() && c.url@ == url@ && c.mode == mode && c.suffix@ == suffix@
                && c.heartbeat == heartbeat && c.reconnect_timeout_secs == reconnect_timeout_secs
                && c.max_reconnection_tries == max_reconnection_tries,
    {
        if suffix.len() == 0 {
            return Err(ConfigError::EmptySuffix);
        }
        Ok(SocketConfig { url, mode, suffix, heartbeat, reconnect_timeout_secs, max_reconnection_tries })
    }

    /// Checks a configuration built field by field.
    pub fn validate(&self) -> (r: Result<(), ConfigError>)
        ensures
            r is Ok <==> self.wf(),
            r is Err ==> r == Err::<(), ConfigError>(ConfigError::EmptySuffix),
    {
        if self.suffix.len() == 0 {
            Err(ConfigError::EmptySuffix)
        } else {
            Ok(())
        }
    }

    /// The per-attempt reconnect budget in seconds: the configured one, else the default.
    pub fn reconnect_timeout(&self) -> (r: u64)
        ensures
            r == self.spec_reconnect_timeout(),
    {
        match self.reconnect_timeout_secs {
            Some(t) => t,
            None => DEFAULT_RECONNECT_TIMEOUT_SECS,
        }
    }

    /// The heartbeat period and the bytes written at each beat: payload, then suffix.
    pub fn heartbeat_message(&self) -> (r: Option<(u64, Vec<u8>)>)
        ensures
            self.heartbeat is None <==> r is None,
            self.heartbeat matches Some(h) ==> r matches Some(m) && m.0 == h.0 && m.1@ == encode(
                h.1@,
                self.suffix@,
            ),
    {
        match &self.heartbeat {
            Some(h) => Some((h.0, encode_frame(h.1.as_slice(), self.suffix.as_slice()))),
            None => None,
        }
    }

    /// The bytes written on the wire for `payload`.
    pub fn frame(&self, payload: &[u8]) -> (r: Vec<u8>)
        ensures
            r@ == encode(payload@, self.suffix@),
    {
        encode_frame(payload, self.suffix.as_slice())
    }

    /// A decoder for frames received on this session.
    pub fn decoder(&self) -> (r: FrameDecoder)
        requires
            self.wf(),
        ensures
            r.wf(),
            r.suffix() == self.suffix@,
            r.buffered() == Seq::<u8>::empty(),
    {
        let n: usize = self.suffix.len();
        FrameDecoder::new(copy_range(self.suffix.as_slice(), 0, n))
    }
}

} // verus!
