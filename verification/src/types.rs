//! Shared enumerations of the decision data model.

use vstd::prelude::*;

verus! {

/// The kind of answer a question expects.
#[derive(Clone, Copy, Debug, PartialEq, Eq, Structural)]
pub enum QuestionType {
    /// Discrete choice from a fixed option set.
    Choice,
    /// Binary presence / absence (no-or-unlikely = 0 .. certain = 1).
    Noul,
    /// Continuous regression score (domain defined per question).
    Score,
}

/// Source of an ML model artefact.
#[derive(Clone, Copy, Debug, PartialEq, Eq, Structural)]
pub enum ModelSource {
    /// Downloaded from Hugging Face Hub.
    HuggingFace,
    /// Hosted by the Jev API.
    JevHosted,
    /// Manually placed by the user.
    Local,
    /// Provided through a plugin.
    Plugin,
}

/// Runtime format of the model weight file.
#[derive(Clone, Copy, Debug, PartialEq, Eq, Structural)]
pub enum ModelFormat {
    Gguf,
    Onnx,
    SafeTensors,
    TorchScript,
    Other,
}

/// Calibration method applied to raw confidence scores.
#[derive(Clone, Copy, Debug, PartialEq, Eq, Structural)]
pub enum CalibrationMethod {
    TemperatureScaling,
    PlattScaling,
    IsotonicRegression,
    /// No calibration (serialized as `none`).
    Uncalibrated,
}

/// Status of a background model download.
#[derive(Clone, Copy, Debug, PartialEq, Eq, Structural)]
pub enum DownloadStatus {
    Pending,
    Downloading,
    Paused,
    Completed,
    Failed,
    Cancelled,
}

/// Severity of a drift alert.
#[derive(Clone, Copy, Debug, PartialEq, Eq, Structural)]
pub enum AlertSeverity {
    Info,
    Warning,
    Critical,
}

/// Node type inside a pipeline.
#[derive(Clone, Copy, Debug, PartialEq, Eq, Structural)]
pub enum NodeKind {
    Decision,
    Branch,
    ParallelFanout,
    FanIn,
    Loop,
    Ensemble,
    HumanEscalation,
    ModelEscalation,
    Shadow,
    Cache,
    Output,
}

/// Escalation channel.
#[derive(Clone, Copy, Debug, PartialEq, Eq, Structural)]
pub enum EscalationChannel {
    Email,
    Slack,
    Webhook,
    InApp,
    Sms,
}

/// Grant status for a plugin capability.
#[derive(Clone, Copy, Debug, PartialEq, Eq, Structural)]
pub enum GrantStatus {
    Pending,
    Approved,
    Denied,
    Revoked,
}

/// How an eval item was created.
#[derive(Clone, Copy, Debug, PartialEq, Eq, Structural)]
pub enum EvalItemSource {
    ManualLabel,
    FlyWheelCorrection,
    Synthetic,
}

/// A capability that a plugin may request.
#[derive(Clone, Debug)]
pub enum PluginCapability {
    NetworkAccess,
    FileSystemRead,
    FileSystemWrite,
    DatabaseRead,
    DatabaseWrite,
    SpawnProcess,
    GpuAccess,
    Custom(String),
}

/// Discriminant for the source of an MCP export.
#[derive(Clone, Copy, Debug, PartialEq, Eq, Structural)]
pub enum McpSourceKind {
    Template,
    Pipeline,
}

} // verus!
