use teralib::tfstate::{S3BackendConfig, TerraformState};

fn s3(region: &str, bucket: &str, key: &str) -> S3BackendConfig {
    S3BackendConfig { bucket: bucket.to_string(), region: region.to_string(), key: key.to_string() }
}

#[test]
fn test_remote_terraform_state() {
    let descriptor = r#"{
        "version": 3,
        "backend": {
            "type": "s3",
            "config": {
                "bucket": "terraform.elka.ai",
                "region": "us-east-1",
                "key": "terraform.tfstate",
                "encrypt": true
            }
        }
    }"#;
    let state = TerraformState::parse_remote(descriptor).expect("Unable to find terraform state");
    assert!(matches!(state, TerraformState::Remote(_)));
    assert_eq!(
        state.identity_string(),
        "s3:us-east-1/terraform.elka.ai/terraform.tfstate"
    );
}

#[test]
fn test_local_terraform_state() {
    let state = TerraformState::from_root(
        "../test_infrastructure/child",
        None,
        Some("/Users/grayson/code/tf-graph/test_infrastructure/child".to_string()),
    )
    .expect("Unable to read terraform state");
    assert!(matches!(state, TerraformState::Local(_)));
    assert_eq!(
        state.identity_string(),
        "local:/Users/grayson/code/tf-graph/test_infrastructure/child"
    );
}

#[test]
fn test_remote_descriptor_takes_priority() {
    let descriptor = r#"{"version":3,"backend":{"type":"s3","config":{"bucket":"b","region":"r","key":"k"}}}"#;
    let state = TerraformState::from_root("root", Some(descriptor), Some("/dir".to_string()))
        .expect("remote descriptor should win");
    assert_eq!(state.identity_string(), "s3:r/b/k");
}

#[test]
fn test_no_state_file() {
    let err = TerraformState::from_root("some/root", None, None).unwrap_err();
    assert!(matches!(err, teralib::GraphError::NoStateFile(p) if p == "some/root"));
}

#[test]
fn test_unknown_backend_kind_fails_closed() {
    let descriptor = r#"{"version":3,"backend":{"type":"gcs","config":{"bucket":"b","region":"r","key":"k"}}}"#;
    let err = TerraformState::parse_remote(descriptor).unwrap_err();
    assert!(matches!(err, teralib::GraphError::UnableToParse));
}

#[test]
fn test_missing_version_fails() {
    let descriptor = r#"{"backend":{"type":"s3","config":{"bucket":"b","region":"r","key":"k"}}}"#;
    assert!(TerraformState::parse_remote(descriptor).is_err());
}

#[test]
fn test_malformed_descriptor_fails() {
    assert!(TerraformState::parse_remote("not json at all {").is_err());
}

#[test]
fn test_local_identity_agrees_for_equal_directories() {
    let a = TerraformState::Local("/srv/infra/app".to_string());
    let b = TerraformState::Local("/srv/infra/app".to_string());
    assert_eq!(a.identity_string(), b.identity_string());
}

#[test]
fn test_remote_identity_round_trip_distinct() {
    let ids = [
        s3("us-east-1", "bucket", "key").identity_string(),
        s3("us-east-2", "bucket", "key").identity_string(),
        s3("us-east-1", "bucket2", "key").identity_string(),
        s3("us-east-1", "bucket", "key2").identity_string(),
        s3("us-east-1", "bucket", "nested/key").identity_string(),
    ];
    for i in 0..ids.len() {
        for j in 0..ids.len() {
            if i != j {
                assert_ne!(ids[i], ids[j]);
            }
        }
    }
}

#[test]
fn test_error_messages() {
    assert_eq!(
        teralib::GraphError::NoStateFile("a/b".to_string()).message(),
        "Unable to find a terraform state file for a/b"
    );
    assert_eq!(
        teralib::GraphError::UnableToParse.message(),
        "Unable to parse the terraform json"
    );
    assert_eq!(
        teralib::GraphError::UnresolvedReference("s3:r/b/k".to_string()).message(),
        "Unable to resolve the referenced backend s3:r/b/k"
    );
    assert_eq!(
        teralib::GraphError::DuplicateIdentity("local:/d".to_string()).message(),
        "Two roots share the backend identity local:/d"
    );
}

#[test]
fn test_remote_and_local_identities_never_collide() {
    let remote = s3("r", "b", "k").identity_string();
    let local = TerraformState::Local("r/b/k".to_string()).identity_string();
    assert_ne!(remote, local);
    assert_eq!(remote, "s3:r/b/k");
    assert_eq!(local, "local:r/b/k");
}
