[package]
name = "usage_billing"
version = "0.1.0"
edition = "2021"
publish = false

[dependencies]
futures = "*"
lenso = ">=0.5.0, <0.5.3"
lenso-auth-sdk = "=0.2.1"
lenso-capability-access-control = "0.1"
lenso-capability-agent-tool-provider = "=0.2.2"
lenso-capability-organization-membership = "0.1"
lenso-capability-secrets = "=0.1.3"
lenso-capability-usage-meter = "*"
lenso-kernel = "=0.2.3"
lenso-postgres-kit = "*"
num-bigint = "0.4"
serde = { version = "1", features = ["derive"] }
serde_json = "1"
sha2 = "0.10"
sqlx = { version = "=0.9.0", default-features = false, features = ["postgres", "runtime-tokio", "time", "json"] }
thiserror = "*"
time = { version = "0.3", features = ["parsing", "formatting"] }
zeroize = "1"
