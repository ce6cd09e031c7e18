//! Warehouse connection settings.

use vstd::prelude::*;
use crate::error::TitanError;
use crate::text::to_owned_string;

verus! {

pub struct WarehouseConfig {
    pub connection_url: String,
    pub pool_size: u32,
    pub timeout_seconds: u32,
}

/// Collects warehouse settings; the URL is required, the pool holds 10
/// connections and requests time out after 30 seconds unless set.
pub struct WarehouseConfigBuilder {
    url: Option<String>,
    pool_size: Option<u32>,
    timeout: Option<u32>,
}

impl WarehouseConfig {
    pub fn builder() -> (b: WarehouseConfigBuilder)
        ensures
            b.url_setting() is None,
            b.pool_size_setting() is None,
            b.timeout_setting() is None,
    {
        WarehouseConfigBuilder::default()
    }
}

impl Default for WarehouseConfigBuilder {
    fn default() -> (b: Self)
        ensures
            b.url_setting() is None,
            b.pool_size_setting() is None,
            b.timeout_setting() is None,
    {
        WarehouseConfigBuilder { url: None, pool_size: None, timeout: None }
    }
}

impl WarehouseConfigBuilder {
    pub closed spec fn url_setting(&self) -> Option<Seq<char>> {
        match self.url {
            Some(u) => Some(u@),
            None => None,
        }
    }

    pub closed spec fn pool_size_setting(&self) -> Option<u32> {
        self.pool_size
    }

    pub closed spec fn timeout_setting(&self) -> Option<u32> {
        self.timeout
    }

    pub fn url(self, url: &str) -> (b: Self)
        ensures
            b.url_setting() == Some(url@),
            b.pool_size_setting() == self.pool_size_setting(),
            b.timeout_setting() == self.timeout_setting(),
    {
        WarehouseConfigBuilder { url: Some(to_owned_string(url)), pool_size: self.pool_size, timeout: self.timeout }
    }

    pub fn pool_size(self, size: u32) -> (b: Self)
        ensures
            b.url_setting() == self.url_setting(),
            b.pool_size_setting() == Some(size),
            b.timeout_setting() == self.timeout_setting(),
    {
        WarehouseConfigBuilder { url: self.url, pool_size: Some(size), timeout: self.timeout }
    }

    /// The settings, with the defaults filled in; fails without a URL.
    pub fn build(self) -> (r: Result<WarehouseConfig, TitanError>)
        ensures
            match self.url_setting() {
                Some(u) => (r matches Ok(c) && c.connection_url@ == u
                    && c.pool_size == (match self.pool_size_setting() { Some(p) => p, None => 10 })
                    && c.timeout_seconds == (match self.timeout_setting() { Some(t) => t, None => 30 })),
                None => (r matches Err(TitanError::ValidationError(m)) && m@ == "URL required"@),
            },
    {
        match self.url {
            Some(u) => Ok(WarehouseConfig {
                connection_url: u,
                pool_size: match self.pool_size { Some(p) => p, None => 10 },
                timeout_seconds: match self.timeout { Some(t) => t, None => 30 },
            }),
            None => Err(TitanError::ValidationError(to_owned_string("URL required"))),
        }
    }
}

} // verus!
