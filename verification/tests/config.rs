use playout::config::{
    env_or, release, sends_to_sentry, ConfigError, Environment, OutputPlan, Settings,
};

fn unset() -> Environment {
    Environment {
        video_dir: None,
        output: None,
        rtsp_url: None,
        encoder: None,
        env: None,
        stream_platform: None,
        nats_url: None,
        deployment_environment: None,
    }
}

fn with_output(output: &str, encoder: &str) -> Settings {
    let mut environment = unset();
    environment.output = Some(output.to_string());
    environment.encoder = Some(encoder.to_string());
    environment.settings()
}

#[test]
fn only_prod_reports_to_sentry() {
    assert!(sends_to_sentry("prod-1"));
    assert!(!sends_to_sentry("stage-1"));
    assert!(!sends_to_sentry("development"));
    // The control plane's environment is not a deployment environment: if the
    // tag ever regresses to it, this one must not start sending.
    assert!(!sends_to_sentry("production"));
}

#[test]
fn settings_have_defaults() {
    let settings = unset().settings();
    assert_eq!(settings.video_dir, "/opt/data/Dashcam/_all");
    assert_eq!(settings.output, "rtsp");
    assert_eq!(settings.rtsp_url, "rtsp://localhost:8554/dashcam");
    assert_eq!(settings.encoder, "x264enc");
    assert_eq!(settings.nats_env, "development");
    assert_eq!(settings.platform, "youtube");
    assert_eq!(settings.nats_url, "nats://localhost:4222");
    assert_eq!(settings.deployment_env, "development");
    assert_eq!(env_or(&Some("set".to_string()), "default"), "set");
    assert_eq!(env_or(&Some(String::new()), "default"), "");
    assert_eq!(release("0.19.0"), "playout@0.19.0");
}

#[test]
fn the_deployment_environment_falls_back_to_env() {
    let mut environment = unset();
    environment.env = Some("production".to_string());
    assert_eq!(environment.deployment_env(), "production");
    environment.deployment_environment = Some("prod-1".to_string());
    assert_eq!(environment.deployment_env(), "prod-1");
    assert_eq!(environment.settings().nats_env, "production");
}

#[test]
fn outputs_are_planned() {
    let plan = |output: &str, encoder: &str| with_output(output, encoder).output_plan().ok();
    assert_eq!(
        plan("rtsp", "passthrough"),
        Some(OutputPlan { passthrough: true, publish: true, window: false })
    );
    assert_eq!(
        plan("both", "x264enc"),
        Some(OutputPlan { passthrough: false, publish: true, window: true })
    );
    assert_eq!(
        plan("window", "vah264enc"),
        Some(OutputPlan { passthrough: false, publish: false, window: true })
    );
}

#[test]
fn bad_outputs_are_refused() {
    let err = with_output("window", "passthrough").output_plan().err().unwrap();
    assert!(matches!(&err, ConfigError::NeedsDecodedVideo { output } if output == "window"));
    assert_eq!(
        err.message(),
        "OUTPUT=window needs decoded video; ENCODER=passthrough supports only rtsp"
    );
    let err = with_output("hdmi", "x264enc").output_plan().err().unwrap();
    assert!(matches!(&err, ConfigError::UnknownOutput { output } if output == "hdmi"));
    assert_eq!(err.message(), "OUTPUT must be rtsp, window, or both (got hdmi)");
    // Passthrough is looked at first.
    let err = with_output("hdmi", "passthrough").output_plan().err().unwrap();
    assert!(matches!(err, ConfigError::NeedsDecodedVideo { .. }));
}
