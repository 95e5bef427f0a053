use teralib::show_output::{show_dependencies, TerraformShowBackend};
use teralib::GraphError;

const SHOW: &str = r#"{
    "format_version": "1.0",
    "values": {
        "root_module": {
            "resources": [
                {
                    "address": "aws_instance.web",
                    "mode": "managed",
                    "type": "aws_instance",
                    "name": "web",
                    "values": {"backend": "s3", "config": {"bucket": "x", "region": "y", "key": "z"}}
                },
                {
                    "mode": "data",
                    "type": "terraform_remote_state",
                    "name": "network",
                    "values": {
                        "backend": "s3",
                        "config": {"bucket": "terraform.elka.ai", "region": "us-east-1", "key": "network.tfstate"}
                    }
                },
                {
                    "mode": "data",
                    "type": "terraform_remote_state",
                    "name": "parent",
                    "values": {
                        "backend": "local",
                        "config": {"path": "../parent/terraform.tfstate"}
                    }
                },
                {
                    "mode": "data",
                    "type": "aws_ami",
                    "name": "ubuntu",
                    "values": {}
                }
            ]
        }
    }
}"#;

#[test]
fn test_show_dependencies_filters_remote_state() {
    let deps = show_dependencies(SHOW).expect("Unable to deserialize show");
    assert_eq!(deps.len(), 2);
    match &deps[0] {
        TerraformShowBackend::S3(config) => {
            assert_eq!(config.region, "us-east-1");
            assert_eq!(config.bucket, "terraform.elka.ai");
            assert_eq!(config.key, "network.tfstate");
        }
        other => panic!("expected an s3 reference, got {:?}", other),
    }
    match &deps[1] {
        TerraformShowBackend::Local(config) => {
            assert_eq!(config.path, "../parent/terraform.tfstate");
        }
        other => panic!("expected a local reference, got {:?}", other),
    }
}

#[test]
fn test_empty_resources_is_not_an_error() {
    let deps = show_dependencies(
        r#"{"format_version":"1.0","values":{"root_module":{"resources":[]}}}"#,
    )
    .expect("empty resource list should parse");
    assert!(deps.is_empty());
}

#[test]
fn test_absent_resources_is_not_an_error() {
    let deps = show_dependencies(r#"{"format_version":"1.0","values":{"root_module":{}}}"#)
        .expect("absent resource list should parse");
    assert!(deps.is_empty());

    let deps = show_dependencies(
        r#"{"format_version":"1.0","values":{"root_module":{"resources":null}}}"#,
    )
    .expect("null resource list should parse");
    assert!(deps.is_empty());
}

#[test]
fn test_malformed_snapshot_fails() {
    assert!(matches!(
        show_dependencies("{"),
        Err(GraphError::UnableToParse)
    ));
    assert!(matches!(
        show_dependencies(r#"{"values":{"root_module":{}}}"#),
        Err(GraphError::UnableToParse)
    ));
    assert!(matches!(
        show_dependencies(r#"{"format_version":"1.0"}"#),
        Err(GraphError::UnableToParse)
    ));
}

#[test]
fn test_resource_missing_fields_fails() {
    let text = r#"{"format_version":"1.0","values":{"root_module":{"resources":[
        {"type":"aws_instance","name":"web","values":{}}
    ]}}}"#;
    assert!(matches!(
        show_dependencies(text),
        Err(GraphError::UnableToParse)
    ));
}

#[test]
fn test_remote_state_with_unknown_backend_fails() {
    let text = r#"{"format_version":"1.0","values":{"root_module":{"resources":[
        {"mode":"data","type":"terraform_remote_state","name":"x",
         "values":{"backend":"gcs","config":{"bucket":"b"}}}
    ]}}}"#;
    assert!(matches!(
        show_dependencies(text),
        Err(GraphError::UnableToParse)
    ));
}

#[test]
fn test_managed_resources_never_contribute_edges() {
    let text = r#"{"format_version":"1.0","values":{"root_module":{"resources":[
        {"mode":"managed","type":"terraform_remote_state","name":"imposter",
         "values":{"backend":"s3","config":{"bucket":"b","region":"r","key":"k"}}},
        {"mode":"data","type":"aws_caller_identity","name":"me","values":{}}
    ]}}}"#;
    let deps = show_dependencies(text).expect("snapshot should parse");
    assert!(deps.is_empty());
}
