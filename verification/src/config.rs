//! The service configuration: read once at startup, never changed after.

use vstd::prelude::*;
use crate::sniff::Category;

verus! {

/// How many units of a configured maximum size make one byte: maximum
/// sizes are configured in units of 1/1024 byte.
pub const SIZE_UNIT: usize = 1024;

/// The configuration of one running service.
#[derive(Debug)]
pub struct Config {
    /// Address to listen on.
    pub ip: String,
    /// Scheme used in links handed out, such as `https`.
    pub protocol: String,
    /// Public host name of the service, used in links and to recognise
    /// requests to proxy the service itself.
    pub domain: String,
    /// Port to listen on.
    pub port: u16,
    /// Configured maximum size of an image, uploaded or proxied, in units
    /// of 1/1024 byte.
    pub max_image_size: usize,
    /// Configured maximum size of an audio upload, in units of 1/1024 byte.
    pub max_audio_size: usize,
}

impl Clone for Config {
    fn clone(&self) -> (copy: Config)
        ensures
            copy.ip@ == self.ip@,
            copy.protocol@ == self.protocol@,
            copy.domain@ == self.domain@,
            copy.port == self.port,
            copy.max_image_size == self.max_image_size,
            copy.max_audio_size == self.max_audio_size,
    {
        Config {
            ip: self.ip.clone(),
            protocol: self.protocol.clone(),
            domain: self.domain.clone(),
            port: self.port,
            max_image_size: self.max_image_size,
            max_audio_size: self.max_audio_size,
        }
    }
}

/// The limit, in bytes, that a configured maximum stands for.
pub open spec fn limit_of(max_size: nat) -> nat {
    max_size / (SIZE_UNIT as nat)
}

impl Config {
    /// A configuration from its six settings.
    pub fn new(
        ip: &str,
        protocol: &str,
        domain: &str,
        port: u16,
        max_image_size: usize,
        max_audio_size: usize,
    ) -> (config: Config)
        ensures
            config.ip@ == ip@,
            config.protocol@ == protocol@,
            config.domain@ == domain@,
            config.port == port,
            config.max_image_size == max_image_size,
            config.max_audio_size == max_audio_size,
    {
        Config {
            ip: String::from_str(ip),
            protocol: String::from_str(protocol),
            domain: String::from_str(domain),
            port,
            max_image_size,
            max_audio_size,
        }
    }

    /// The configured maximum size for uploads of `category`.
    pub open spec fn max_size(&self, category: Category) -> nat {
        match category {
            Category::Image => self.max_image_size as nat,
            Category::Audio => self.max_audio_size as nat,
        }
    }

    /// The limit, in bytes, on a payload of `category`, whether it arrives
    /// as a request body or as the body of a proxied response.
    pub fn body_limit(&self, category: Category) -> (limit: usize)
        ensures
            limit == limit_of(self.max_size(category)),
    {
        match category {
            Category::Image => self.max_image_size / SIZE_UNIT,
            Category::Audio => self.max_audio_size / SIZE_UNIT,
        }
    }
}

} // verus!
