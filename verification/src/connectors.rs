//! # Data Connectors
//!
//! Routing of external data sources to the connector that registers them:
//! object stores (S3, GCS, Azure, local files) and ADBC databases, and the
//! configuration each requires.

use vstd::prelude::*;
use crate::error::TitanError;
use crate::project::SourceConfig;
use crate::text::{str_eq, to_owned_string};

verus! {

/// Registers object-store sources.
pub struct ObjectStoreConnector;

/// Registers ADBC database sources.
pub struct AdbcConnector;

/// Orchestrates the registration of the source types.
pub struct ConnectorRegistry {
    pub object_store: ObjectStoreConnector,
    pub adbc: AdbcConnector,
}

/// The connector that handles a source.
#[derive(Debug, Clone, Copy, PartialEq, Eq, Structural)]
pub enum SourceRoute {
    ObjectStore,
    Adbc,
}

/// The object store a source is registered with, and its settings.
#[derive(Debug)]
pub enum ObjectStorePlan {
    S3 { bucket: String, region: Option<String>, endpoint: Option<String> },
    Gcs { bucket: String },
    Azure { container: String },
    Local,
}

pub open spec fn is_object_store_type(t: Seq<char>) -> bool {
    t == "s3"@ || t == "gcs"@ || t == "azure"@ || t == "local"@
}

pub open spec fn is_adbc_type(t: Seq<char>) -> bool {
    t == "adbc"@ || t == "postgres"@ || t == "snowflake"@ || t == "bigquery"@
}

/// `Err(ValidationError(msg))`.
pub open spec fn is_validation_error<T>(r: Result<T, TitanError>, msg: Seq<char>) -> bool {
    r matches Err(TitanError::ValidationError(m)) && m@ == msg
}

fn validation_error(prefix: &str, detail: &str) -> (e: TitanError)
    ensures
        e matches TitanError::ValidationError(m) && m@ == prefix@ + detail@,
{
    let mut m = to_owned_string(prefix);
    m.append(detail);
    TitanError::ValidationError(m)
}

impl ObjectStoreConnector {
    pub fn new() -> Self {
        ObjectStoreConnector
    }

    /// The store for a source: S3 and GCS need a bucket, Azure a
    /// container (held in the bucket setting); local files need nothing.
    pub fn plan_store(&self, config: &SourceConfig) -> (r: Result<ObjectStorePlan, TitanError>)
        ensures
            config.source_type@ == "s3"@ ==> match config.bucket {
                Some(b) => (r matches Ok(ObjectStorePlan::S3 { bucket, region, endpoint })
                    && bucket@ == b@ && region == config.region && endpoint == config.endpoint),
                None => is_validation_error(r, "Bucket required for S3"@),
            },
            config.source_type@ == "gcs"@ ==> match config.bucket {
                Some(b) => (r matches Ok(ObjectStorePlan::Gcs { bucket }) && bucket@ == b@),
                None => is_validation_error(r, "Bucket required for GCS"@),
            },
            config.source_type@ == "azure"@ ==> match config.bucket {
                Some(b) => (r matches Ok(ObjectStorePlan::Azure { container }) && container@ == b@),
                None => is_validation_error(r, "Container required for Azure"@),
            },
            config.source_type@ == "local"@ ==> r matches Ok(ObjectStorePlan::Local),
            !is_object_store_type(config.source_type@) ==>
                is_validation_error(r, "Unsupported object store type: "@ + config.source_type@),
    {
        proof {
            reveal_strlit("s3");
            reveal_strlit("gcs");
            reveal_strlit("azure");
            reveal_strlit("local");
            assert("s3"@.len() != "gcs"@.len() && "s3"@.len() != "azure"@.len() && "s3"@.len() != "local"@.len());
            assert("gcs"@.len() != "azure"@.len() && "gcs"@.len() != "local"@.len());
            assert("azure"@[0] != "local"@[0]);
        }
        let t = config.source_type.as_str();
        if str_eq(t, "s3") {
            match &config.bucket {
                Some(b) => Ok(ObjectStorePlan::S3 {
                    bucket: b.clone(),
                    region: config.region.clone(),
                    endpoint: config.endpoint.clone(),
                }),
                None => Err(TitanError::ValidationError(to_owned_string("Bucket required for S3"))),
            }
        } else if str_eq(t, "gcs") {
            match &config.bucket {
                Some(b) => Ok(ObjectStorePlan::Gcs { bucket: b.clone() }),
                None => Err(TitanError::ValidationError(to_owned_string("Bucket required for GCS"))),
            }
        } else if str_eq(t, "azure") {
            match &config.bucket {
                Some(b) => Ok(ObjectStorePlan::Azure { container: b.clone() }),
                None => Err(TitanError::ValidationError(to_owned_string("Container required for Azure"))),
            }
        } else if str_eq(t, "local") {
            Ok(ObjectStorePlan::Local)
        } else {
            Err(validation_error("Unsupported object store type: ", t))
        }
    }
}

impl AdbcConnector {
    pub fn new() -> Self {
        AdbcConnector
    }

    /// An ADBC source needs a driver and a connection string; the driver is
    /// checked first.
    pub fn check_config(&self, config: &SourceConfig) -> (r: Result<(), TitanError>)
        ensures
            config.driver is None ==> is_validation_error(r, "ADBC driver path required"@),
            config.driver is Some && config.connection_string is None ==>
                is_validation_error(r, "Connection string required"@),
            config.driver is Some && config.connection_string is Some ==> r is Ok,
    {
        if config.driver.is_none() {
            return Err(TitanError::ValidationError(to_owned_string("ADBC driver path required")));
        }
        if config.connection_string.is_none() {
            return Err(TitanError::ValidationError(to_owned_string("Connection string required")));
        }
        Ok(())
    }
}

impl ConnectorRegistry {
    pub fn new() -> Self {
        ConnectorRegistry { object_store: ObjectStoreConnector::new(), adbc: AdbcConnector::new() }
    }

    /// The connector for a source type: object stores for s3, gcs, azure
    /// and local; ADBC for adbc, postgres, snowflake and bigquery.
    pub fn route(&self, source_type: &str) -> (r: Result<SourceRoute, TitanError>)
        ensures
            is_object_store_type(source_type@) ==> r == Ok::<SourceRoute, TitanError>(SourceRoute::ObjectStore),
            is_adbc_type(source_type@) ==> r == Ok::<SourceRoute, TitanError>(SourceRoute::Adbc),
            !is_object_store_type(source_type@) && !is_adbc_type(source_type@) ==>
                is_validation_error(r, "Unsupported source type: "@ + source_type@),
    {
        proof {
            reveal_strlit("s3");
            reveal_strlit("gcs");
            reveal_strlit("azure");
            reveal_strlit("local");
            reveal_strlit("adbc");
            reveal_strlit("postgres");
            reveal_strlit("snowflake");
            reveal_strlit("bigquery");
            assert("s3"@.len() == 2 && "gcs"@.len() == 3 && "azure"@.len() == 5 && "local"@.len() == 5);
            assert("adbc"@.len() == 4 && "postgres"@.len() == 8 && "snowflake"@.len() == 9 && "bigquery"@.len() == 8);
            assert("azure"@[0] != "local"@[0]);
            assert("postgres"@[0] != "bigquery"@[0]);
        }
        if str_eq(source_type, "s3") || str_eq(source_type, "gcs") || str_eq(source_type, "azure")
            || str_eq(source_type, "local") {
            Ok(SourceRoute::ObjectStore)
        } else if str_eq(source_type, "adbc") || str_eq(source_type, "postgres")
            || str_eq(source_type, "snowflake") || str_eq(source_type, "bigquery") {
            Ok(SourceRoute::Adbc)
        } else {
            Err(validation_error("Unsupported source type: ", source_type))
        }
    }
}

/// The ADBC driver library a driver name stands for, looked up in the
/// project's driver directory; other names are not supported.
pub fn driver_library(driver: &str) -> (r: Option<&'static str>)
    ensures
        driver@ == "postgres"@ ==> (r matches Some(f) && f@ == "libadbc_driver_postgres.so"@),
        driver@ == "snowflake"@ ==> (r matches Some(f) && f@ == "libadbc_driver_snowflake.so"@),
        driver@ != "postgres"@ && driver@ != "snowflake"@ ==> r is None,
{
    proof {
        reveal_strlit("postgres");
        reveal_strlit("snowflake");
        assert("postgres"@.len() != "snowflake"@.len());
    }
    if str_eq(driver, "postgres") {
        Some("libadbc_driver_postgres.so")
    } else if str_eq(driver, "snowflake") {
        Some("libadbc_driver_snowflake.so")
    } else {
        None
    }
}

} // verus!
