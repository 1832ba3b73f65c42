//! What the environment configures, and the rules it has to keep.

use crate::text;
use vstd::prelude::*;

verus! {

/// The environment variables that are read, each as it is set.
pub struct Environment {
    pub video_dir: Option<String>,
    pub output: Option<String>,
    pub rtsp_url: Option<String>,
    pub encoder: Option<String>,
    pub env: Option<String>,
    pub stream_platform: Option<String>,
    pub nats_url: Option<String>,
    pub deployment_environment: Option<String>,
}

/// The settings that they come to.
pub struct Settings {
    /// Directory that holds the corpus.
    pub video_dir: String,
    /// `rtsp`, `window` or `both`.
    pub output: String,
    pub rtsp_url: String,
    /// Name of the encoder element; `passthrough` for none.
    pub encoder: String,
    /// The environment token of the control plane's subjects.
    pub nats_env: String,
    pub platform: String,
    pub nats_url: String,
    /// The environment that telemetry is partitioned by.
    pub deployment_env: String,
}

/// Where the video goes.
#[derive(Clone, Copy, Debug, PartialEq, Eq, Structural)]
pub struct OutputPlan {
    /// Splice compressed video, without decoding.
    pub passthrough: bool,
    /// Publish to the relay.
    pub publish: bool,
    /// Show in a desktop window.
    pub window: bool,
}

/// Why an output setting is refused.
pub enum ConfigError {
    /// It needs decoded video, and passthrough has none.
    NeedsDecodedVideo { output: String },
    /// It is none of the outputs there are.
    UnknownOutput { output: String },
}

/// The value set, else the default.
pub open spec fn or_default(value: Option<String>, default: Seq<char>) -> Seq<char> {
    match value {
        Some(v) => v@,
        None => default,
    }
}

/// The value set, else the default.
pub fn env_or(value: &Option<String>, default: &str) -> (setting: String)
    ensures
        setting@ == or_default(*value, default@),
{
    match value {
        Some(v) => v.clone(),
        None => default.to_string(),
    }
}

impl Environment {
    /// The environment telemetry is partitioned by: the deployment
    /// environment, and failing that the control plane's.
    pub open spec fn deployment(&self) -> Seq<char> {
        or_default(self.deployment_environment, or_default(self.env, "development"@))
    }

    /// The environment telemetry is partitioned by. It is distinct from the
    /// control plane's, which only stands in for it on local runs.
    pub fn deployment_env(&self) -> (setting: String)
        ensures
            setting@ == self.deployment(),
    {
        env_or(&self.deployment_environment, env_or(&self.env, "development").as_str())
    }

    /// The settings.
    pub fn settings(&self) -> (settings: Settings)
        ensures
            settings.video_dir@ == or_default(self.video_dir, "/opt/data/Dashcam/_all"@),
            settings.output@ == or_default(self.output, "rtsp"@),
            settings.rtsp_url@ == or_default(self.rtsp_url, "rtsp://localhost:8554/dashcam"@),
            settings.encoder@ == or_default(self.encoder, "x264enc"@),
            settings.nats_env@ == or_default(self.env, "development"@),
            settings.platform@ == or_default(self.stream_platform, "youtube"@),
            settings.nats_url@ == or_default(self.nats_url, "nats://localhost:4222"@),
            settings.deployment_env@ == self.deployment(),
    {
        Settings {
            video_dir: env_or(&self.video_dir, "/opt/data/Dashcam/_all"),
            output: env_or(&self.output, "rtsp"),
            rtsp_url: env_or(&self.rtsp_url, "rtsp://localhost:8554/dashcam"),
            encoder: env_or(&self.encoder, "x264enc"),
            nats_env: env_or(&self.env, "development"),
            platform: env_or(&self.stream_platform, "youtube"),
            nats_url: env_or(&self.nats_url, "nats://localhost:4222"),
            deployment_env: self.deployment_env(),
        }
    }
}

/// Whether a deployment environment reports to Sentry. Only production does:
/// the errors of the others describe the environment and not a defect.
pub fn sends_to_sentry(deploy_env: &str) -> (yes: bool)
    ensures
        yes == (deploy_env@ == "prod-1"@),
{
    text::same(deploy_env, "prod-1")
}

/// The release that errors are reported under.
pub fn release(version: &str) -> (release: String)
    ensures
        release@ == "playout@"@ + version@,
{
    "playout@".to_string().concat(version)
}

impl ConfigError {
    /// What is wrong.
    pub open spec fn text(&self) -> Seq<char> {
        match self {
            ConfigError::NeedsDecodedVideo { output } => "OUTPUT="@ + output@
                + " needs decoded video; ENCODER=passthrough supports only rtsp"@,
            ConfigError::UnknownOutput { output } => "OUTPUT must be rtsp, window, or both (got "@
                + output@ + ")"@,
        }
    }

    /// What is wrong.
    pub fn message(&self) -> (message: String)
        ensures
            message@ == self.text(),
    {
        match self {
            ConfigError::NeedsDecodedVideo { output } => "OUTPUT=".to_string().concat(
                output.as_str(),
            ).concat(" needs decoded video; ENCODER=passthrough supports only rtsp"),
            ConfigError::UnknownOutput { output } => "OUTPUT must be rtsp, window, or both (got ".to_string().concat(
                output.as_str(),
            ).concat(")"),
        }
    }
}

impl Settings {
    /// The outputs there are.
    pub open spec fn known_output(&self) -> bool {
        self.output@ == "rtsp"@ || self.output@ == "window"@ || self.output@ == "both"@
    }

    /// The encoder set is none at all.
    pub open spec fn is_passthrough(&self) -> bool {
        self.encoder@ == "passthrough"@
    }

    /// Where the video goes. Passthrough has no decoded video, so it can only
    /// publish.
    pub fn output_plan(&self) -> (plan: Result<OutputPlan, ConfigError>)
        ensures
            match plan {
                Ok(p) => {
                    &&& self.known_output()
                    &&& self.is_passthrough() ==> self.output@ == "rtsp"@
                    &&& p.passthrough == self.is_passthrough()
                    &&& p.publish == (self.output@ == "rtsp"@ || self.output@ == "both"@)
                    &&& p.window == (self.output@ == "window"@ || self.output@ == "both"@)
                },
                Err(ConfigError::NeedsDecodedVideo { output }) => {
                    &&& self.is_passthrough()
                    &&& self.output@ != "rtsp"@
                    &&& output@ == self.output@
                },
                Err(ConfigError::UnknownOutput { output }) => {
                    &&& !self.is_passthrough()
                    &&& !self.known_output()
                    &&& output@ == self.output@
                },
            },
    {
        let output: &str = self.output.as_str();
        let passthrough: bool = text::same(self.encoder.as_str(), "passthrough");
        let rtsp: bool = text::same(output, "rtsp");
        if passthrough && !rtsp {
            return Err(ConfigError::NeedsDecodedVideo { output: self.output.clone() });
        }
        let both: bool = text::same(output, "both");
        let window: bool = text::same(output, "window") || both;
        let publish: bool = rtsp || both;
        if !publish && !window {
            return Err(ConfigError::UnknownOutput { output: self.output.clone() });
        }
        Ok(OutputPlan { passthrough, publish, window })
    }
}

/// A value that is set stands, whatever it is, and the default stands for one
/// that is not.
pub proof fn law_what_is_set_stands(value: Option<String>, default: Seq<char>)
    ensures
        value is Some ==> or_default(value, default) == value->0@,
        value is None ==> or_default(value, default) == default,
{
}

/// Telemetry is partitioned by the deployment environment, by the control
/// plane's when that is not set, and by `development` when neither is.
pub proof fn law_the_deployment_environment_comes_first(environment: Environment)
    ensures
        environment.deployment_environment is Some ==> environment.deployment()
            == environment.deployment_environment->0@,
        environment.deployment_environment is None && environment.env is Some
            ==> environment.deployment() == environment.env->0@,
        environment.deployment_environment is None && environment.env is None
            ==> environment.deployment() == "development"@,
{
}

/// There are three outputs, and one encoder that is none.
pub proof fn law_there_are_three_outputs(settings: Settings)
    ensures
        settings.known_output() <==> {
            ||| settings.output@ == "rtsp"@
            ||| settings.output@ == "window"@
            ||| settings.output@ == "both"@
        },
        settings.is_passthrough() <==> settings.encoder@ == "passthrough"@,
{
}

/// An error names the output that was set.
pub proof fn law_an_error_names_the_output(error: ConfigError)
    ensures
        error matches ConfigError::NeedsDecodedVideo { output } ==> error.text() == "OUTPUT="@
            + output@ + " needs decoded video; ENCODER=passthrough supports only rtsp"@,
        error matches ConfigError::UnknownOutput { output } ==> error.text()
            == "OUTPUT must be rtsp, window, or both (got "@ + output@ + ")"@,
{
}

} // verus!
