use delila_rs::common::PipelineError;

#[test]
fn test_config_error() {
    let err = PipelineError::config("missing required field");
    assert!(err.to_string().contains("Configuration error"));
    assert!(err.to_string().contains("missing required field"));
}

#[test]
fn test_invalid_state_error() {
    let err = PipelineError::invalid_state("Running", "Idle");
    let msg = err.to_string();
    assert!(msg.contains("Running"));
    assert!(msg.contains("Idle"));
}

#[test]
fn test_timeout_error() {
    let err = PipelineError::timeout("waiting for response");
    assert!(err.to_string().contains("timed out"));
}

#[test]
fn test_channel_send_error() {
    let err = PipelineError::ChannelSend;
    assert!(err.to_string().contains("Channel send failed"));
}

#[test]
fn test_other_error() {
    let err = PipelineError::other("something went wrong");
    assert!(err.to_string().contains("something went wrong"));
}

#[test]
fn pipeline_error_messages_are_exact() {
    assert_eq!(
        PipelineError::invalid_state("Running", "Idle").to_string(),
        "Invalid state: expected Running, got Idle"
    );
    assert_eq!(PipelineError::Io("file not found".to_string()).to_string(), "I/O error: file not found");
    assert_eq!(PipelineError::ChannelRecv.to_string(), "Channel receive failed: sender dropped");
    assert_eq!(PipelineError::other("plain").to_string(), "plain");
    assert_eq!(PipelineError::config("x").to_string(), "Configuration error: x");
    assert_eq!(PipelineError::timeout("t").to_string(), "Operation timed out: t");
}
