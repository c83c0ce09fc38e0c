//! The closed error taxonomy of the hub and its transport status mapping.

use vstd::prelude::*;

use crate::text::to_owned_string;

verus! {

/// Every failure a hub operation can surface.
#[derive(Debug, Clone)]
pub enum HubError {
    NotFound { entity_type: String, id: String },
    AlreadyExists { entity_type: String, id: String },
    InvalidSignature { entity_type: String },
    InvalidContentHash,
    InvalidPublicKey(String),
    CryptoError(String),
    DatabaseError(String),
    SerializationError(String),
    ConfigError(String),
    NetworkError(String),
    TrustPathNotFound { from: String, to: String },
    FederationError(String),
    RateLimitExceeded,
    Unauthorized(String),
    ValidationError(String),
    Internal(String),
    ResourceLimitExceeded(String),
}

impl HubError {
    /// A missing entity of the given kind.
    pub fn not_found(entity_type: &str, id: &str) -> (r: HubError)
        ensures
            r matches HubError::NotFound { entity_type: t, id: i } && t@ == entity_type@ && i@
                == id@,
    {
        HubError::NotFound { entity_type: to_owned_string(entity_type), id: to_owned_string(id) }
    }

    /// A uniqueness violation for the given kind.
    pub fn already_exists(entity_type: &str, id: &str) -> (r: HubError)
        ensures
            r matches HubError::AlreadyExists { entity_type: t, id: i } && t@ == entity_type@ && i@
                == id@,
    {
        HubError::AlreadyExists {
            entity_type: to_owned_string(entity_type),
            id: to_owned_string(id),
        }
    }

    /// A signature that does not verify for the given kind.
    pub fn invalid_signature(entity_type: &str) -> (r: HubError)
        ensures
            r matches HubError::InvalidSignature { entity_type: t } && t@ == entity_type@,
    {
        HubError::InvalidSignature { entity_type: to_owned_string(entity_type) }
    }

    /// The one HTTP status each error kind maps to.
    pub open spec fn spec_http_status(&self) -> u16 {
        match self {
            HubError::NotFound { .. } => 404,
            HubError::AlreadyExists { .. } => 409,
            HubError::InvalidSignature { .. } => 401,
            HubError::InvalidContentHash => 400,
            HubError::InvalidPublicKey(_) => 400,
            HubError::CryptoError(_) => 500,
            HubError::DatabaseError(_) => 500,
            HubError::SerializationError(_) => 400,
            HubError::ConfigError(_) => 500,
            HubError::NetworkError(_) => 502,
            HubError::TrustPathNotFound { .. } => 404,
            HubError::FederationError(_) => 502,
            HubError::RateLimitExceeded => 429,
            HubError::Unauthorized(_) => 401,
            HubError::ValidationError(_) => 400,
            HubError::Internal(_) => 500,
            HubError::ResourceLimitExceeded(_) => 503,
        }
    }

    /// The HTTP status code for this error.
    pub fn http_status(&self) -> (r: u16)
        ensures
            r == self.spec_http_status(),
    {
        match self {
            HubError::NotFound { .. } => 404,
            HubError::AlreadyExists { .. } => 409,
            HubError::InvalidSignature { .. } => 401,
            HubError::InvalidContentHash => 400,
            HubError::InvalidPublicKey(_) => 400,
            HubError::CryptoError(_) => 500,
            HubError::DatabaseError(_) => 500,
            HubError::SerializationError(_) => 400,
            HubError::ConfigError(_) => 500,
            HubError::NetworkError(_) => 502,
            HubError::TrustPathNotFound { .. } => 404,
            HubError::FederationError(_) => 502,
            HubError::RateLimitExceeded => 429,
            HubError::Unauthorized(_) => 401,
            HubError::ValidationError(_) => 400,
            HubError::Internal(_) => 500,
            HubError::ResourceLimitExceeded(_) => 503,
        }
    }

    /// The exact description text of each error kind.
    pub open spec fn spec_message(&self) -> Seq<char> {
        match self {
            HubError::NotFound { entity_type, id } => "Entity not found: "@ + entity_type@
                + " with id "@ + id@,
            HubError::AlreadyExists { entity_type, id } => "Entity already exists: "@
                + entity_type@ + " with id "@ + id@,
            HubError::InvalidSignature { entity_type } => "Invalid signature for entity: "@
                + entity_type@,
            HubError::InvalidContentHash => "Invalid content hash"@,
            HubError::InvalidPublicKey(d) => "Invalid public key: "@ + d@,
            HubError::CryptoError(d) => "Crypto error: "@ + d@,
            HubError::DatabaseError(d) => "Database error: "@ + d@,
            HubError::SerializationError(d) => "Serialization error: "@ + d@,
            HubError::ConfigError(d) => "Configuration error: "@ + d@,
            HubError::NetworkError(d) => "Network error: "@ + d@,
            HubError::TrustPathNotFound { from, to } => "Trust path not found from "@ + from@
                + " to "@ + to@,
            HubError::FederationError(d) => "Federation error: "@ + d@,
            HubError::RateLimitExceeded => "Rate limit exceeded"@,
            HubError::Unauthorized(d) => "Unauthorized: "@ + d@,
            HubError::ValidationError(d) => "Validation error: "@ + d@,
            HubError::Internal(d) => "Internal error: "@ + d@,
            HubError::ResourceLimitExceeded(d) => "Resource limit exceeded: "@ + d@,
        }
    }

    /// A short human-readable description of the error.
    pub fn message(&self) -> (r: String)
        ensures
            r@ == self.spec_message(),
    {
        match self {
            HubError::NotFound { entity_type, id } => {
                let mut m = to_owned_string("Entity not found: ");
                m.append(entity_type.as_str());
                m.append(" with id ");
                m.append(id.as_str());
                m
            },
            HubError::AlreadyExists { entity_type, id } => {
                let mut m = to_owned_string("Entity already exists: ");
                m.append(entity_type.as_str());
                m.append(" with id ");
                m.append(id.as_str());
                m
            },
            HubError::InvalidSignature { entity_type } => {
                let mut m = to_owned_string("Invalid signature for entity: ");
                m.append(entity_type.as_str());
                m
            },
            HubError::InvalidContentHash => to_owned_string("Invalid content hash"),
            HubError::InvalidPublicKey(d) => {
                let mut m = to_owned_string("Invalid public key: ");
                m.append(d.as_str());
                m
            },
            HubError::CryptoError(d) => {
                let mut m = to_owned_string("Crypto error: ");
                m.append(d.as_str());
                m
            },
            HubError::DatabaseError(d) => {
                let mut m = to_owned_string("Database error: ");
                m.append(d.as_str());
                m
            },
            HubError::SerializationError(d) => {
                let mut m = to_owned_string("Serialization error: ");
                m.append(d.as_str());
                m
            },
            HubError::ConfigError(d) => {
                let mut m = to_owned_string("Configuration error: ");
                m.append(d.as_str());
                m
            },
            HubError::NetworkError(d) => {
                let mut m = to_owned_string("Network error: ");
                m.append(d.as_str());
                m
            },
            HubError::TrustPathNotFound { from, to } => {
                let mut m = to_owned_string("Trust path not found from ");
                m.append(from.as_str());
                m.append(" to ");
                m.append(to.as_str());
                m
            },
            HubError::FederationError(d) => {
                let mut m = to_owned_string("Federation error: ");
                m.append(d.as_str());
                m
            },
            HubError::RateLimitExceeded => to_owned_string("Rate limit exceeded"),
            HubError::Unauthorized(d) => {
                let mut m = to_owned_string("Unauthorized: ");
                m.append(d.as_str());
                m
            },
            HubError::ValidationError(d) => {
                let mut m = to_owned_string("Validation error: ");
                m.append(d.as_str());
                m
            },
            HubError::Internal(d) => {
                let mut m = to_owned_string("Internal error: ");
                m.append(d.as_str());
                m
            },
            HubError::ResourceLimitExceeded(d) => {
                let mut m = to_owned_string("Resource limit exceeded: ");
                m.append(d.as_str());
                m
            },
        }
    }
}

/// Result type for hub operations.
pub type HubResult<T> = Result<T, HubError>;

} // verus!
