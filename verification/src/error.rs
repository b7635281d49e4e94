use vstd::prelude::*;

verus! {

/// How serious a processing error is, from least to most serious.
#[derive(Debug, Clone, Copy, PartialEq, Eq, PartialOrd, Ord)]
pub enum ErrorSeverity {
    Low,
    Medium,
    High,
    Critical,
}

impl ErrorSeverity {
    /// Numeric level of the severity: 1 for `Low` up to 4 for `Critical`.
    pub open spec fn level_spec(self) -> u8 {
        match self {
            ErrorSeverity::Low => 1,
            ErrorSeverity::Medium => 2,
            ErrorSeverity::High => 3,
            ErrorSeverity::Critical => 4,
        }
    }

    pub fn as_level(&self) -> (r: u8)
        ensures
            r == self.level_spec(),
    {
        match self {
            ErrorSeverity::Low => 1,
            ErrorSeverity::Medium => 2,
            ErrorSeverity::High => 3,
            ErrorSeverity::Critical => 4,
        }
    }

    pub fn as_str(&self) -> (r: &'static str)
        ensures
            r@ == match self {
                ErrorSeverity::Low => "LOW"@,
                ErrorSeverity::Medium => "MEDIUM"@,
                ErrorSeverity::High => "HIGH"@,
                ErrorSeverity::Critical => "CRITICAL"@,
            },
    {
        match self {
            ErrorSeverity::Low => "LOW",
            ErrorSeverity::Medium => "MEDIUM",
            ErrorSeverity::High => "HIGH",
            ErrorSeverity::Critical => "CRITICAL",
        }
    }
}

/// What was being done when an error occurred, with an optional resource and
/// an optional suggestion for the user.
#[derive(Debug, Clone)]
pub struct ErrorContext {
    /// The operation that was running.
    pub operation: String,
    /// The resource concerned, such as a file path.
    pub resource: Option<String>,
    /// A hint for resolving the error.
    pub suggestion: Option<String>,
}

impl ErrorContext {
    /// A context for `operation`, with no resource and no suggestion.
    pub fn new(operation: &str) -> (r: Self)
        ensures
            r.operation@ == operation@,
            r.resource is None,
            r.suggestion is None,
    {
        ErrorContext { operation: String::from_str(operation), resource: None, suggestion: None }
    }

    /// The same context with `resource` as its resource.
    pub fn with_resource(self, resource: &str) -> (r: Self)
        ensures
            r.operation@ == self.operation@,
            r.resource is Some && r.resource->Some_0@ == resource@,
            r.suggestion == self.suggestion,
    {
        let mut ctx = self;
        ctx.resource = Some(String::from_str(resource));
        ctx
    }

    /// The same context with `suggestion` as its suggestion.
    pub fn with_suggestion(self, suggestion: &str) -> (r: Self)
        ensures
            r.operation@ == self.operation@,
            r.resource == self.resource,
            r.suggestion is Some && r.suggestion->Some_0@ == suggestion@,
    {
        let mut ctx = self;
        ctx.suggestion = Some(String::from_str(suggestion));
        ctx
    }
}

/// A value that failed validation, with the reason.
#[derive(Debug, Clone)]
pub struct ValidationError {
    pub field: String,
    pub reason: String,
}

impl ValidationError {
    pub fn new(field: &str, reason: &str) -> (r: Self)
        ensures
            r.field@ == field@,
            r.reason@ == reason@,
    {
        ValidationError { field: String::from_str(field), reason: String::from_str(reason) }
    }

    /// The error as text: `バリデーションエラー: {field} - {reason}`.
    pub fn message(&self) -> (r: String)
        ensures
            r@ == "バリデーションエラー: "@ + self.field@ + " - "@ + self.reason@,
    {
        String::from_str("バリデーションエラー: ").concat(self.field.as_str()).concat(" - ").concat(
            self.reason.as_str(),
        )
    }
}

/// Errors of the parallel processing engine. Underlying causes are kept as
/// their messages.
#[derive(Debug, Clone)]
pub enum ProcessingError {
    FileDiscoveryError { path: String, source: String },
    ParallelExecutionError { message: String },
    PersistenceError { source: String },
    ConfigurationError { message: String },
    ChannelError { message: String },
    TaskError { source: String },
    ImageProcessingError { file_path: String, source: String },
    DependencyInjectionError { message: String },
    TypeSafetyError { message: String, component: String },
    ValidationError { field: String, reason: String },
    ResourceExhaustionError { resource_type: String, details: String },
    InternalError { source: String },
}

impl ProcessingError {
    pub fn file_discovery(path: &str, source: &str) -> (r: Self)
        ensures
            r matches ProcessingError::FileDiscoveryError { path: p, source: s } && p@ == path@
                && s@ == source@,
    {
        ProcessingError::FileDiscoveryError {
            path: String::from_str(path),
            source: String::from_str(source),
        }
    }

    pub fn parallel_execution(message: &str) -> (r: Self)
        ensures
            r matches ProcessingError::ParallelExecutionError { message: m } && m@ == message@,
    {
        ProcessingError::ParallelExecutionError { message: String::from_str(message) }
    }

    pub fn persistence(source: &str) -> (r: Self)
        ensures
            r matches ProcessingError::PersistenceError { source: s } && s@ == source@,
    {
        ProcessingError::PersistenceError { source: String::from_str(source) }
    }

    pub fn configuration(message: &str) -> (r: Self)
        ensures
            r matches ProcessingError::ConfigurationError { message: m } && m@ == message@,
    {
        ProcessingError::ConfigurationError { message: String::from_str(message) }
    }

    pub fn channel(message: &str) -> (r: Self)
        ensures
            r matches ProcessingError::ChannelError { message: m } && m@ == message@,
    {
        ProcessingError::ChannelError { message: String::from_str(message) }
    }

    pub fn task(source: &str) -> (r: Self)
        ensures
            r matches ProcessingError::TaskError { source: s } && s@ == source@,
    {
        ProcessingError::TaskError { source: String::from_str(source) }
    }

    pub fn image_processing(file_path: &str, source: &str) -> (r: Self)
        ensures
            r matches ProcessingError::ImageProcessingError { file_path: p, source: s } && p@
                == file_path@ && s@ == source@,
    {
        ProcessingError::ImageProcessingError {
            file_path: String::from_str(file_path),
            source: String::from_str(source),
        }
    }

    pub fn dependency_injection(message: &str) -> (r: Self)
        ensures
            r matches ProcessingError::DependencyInjectionError { message: m } && m@ == message@,
    {
        ProcessingError::DependencyInjectionError { message: String::from_str(message) }
    }

    pub fn internal(source: &str) -> (r: Self)
        ensures
            r matches ProcessingError::InternalError { source: s } && s@ == source@,
    {
        ProcessingError::InternalError { source: String::from_str(source) }
    }

    pub fn type_safety(message: &str, component: &str) -> (r: Self)
        ensures
            r matches ProcessingError::TypeSafetyError { message: m, component: c } && m@
                == message@ && c@ == component@,
    {
        ProcessingError::TypeSafetyError {
            message: String::from_str(message),
            component: String::from_str(component),
        }
    }

    pub fn validation(field: &str, reason: &str) -> (r: Self)
        ensures
            r matches ProcessingError::ValidationError { field: f, reason: e } && f@ == field@
                && e@ == reason@,
    {
        ProcessingError::ValidationError {
            field: String::from_str(field),
            reason: String::from_str(reason),
        }
    }

    pub fn resource_exhaustion(resource_type: &str, details: &str) -> (r: Self)
        ensures
            r matches ProcessingError::ResourceExhaustionError { resource_type: t, details: d }
                && t@ == resource_type@ && d@ == details@,
    {
        ProcessingError::ResourceExhaustionError {
            resource_type: String::from_str(resource_type),
            details: String::from_str(details),
        }
    }

    /// How serious each kind of error is.
    pub open spec fn severity_spec(&self) -> ErrorSeverity {
        match self {
            ProcessingError::TypeSafetyError { .. } => ErrorSeverity::Critical,
            ProcessingError::ValidationError { .. } => ErrorSeverity::Critical,
            ProcessingError::DependencyInjectionError { .. } => ErrorSeverity::High,
            ProcessingError::ConfigurationError { .. } => ErrorSeverity::High,
            ProcessingError::FileDiscoveryError { .. } => ErrorSeverity::Medium,
            ProcessingError::ImageProcessingError { .. } => ErrorSeverity::Medium,
            ProcessingError::ParallelExecutionError { .. } => ErrorSeverity::High,
            ProcessingError::PersistenceError { .. } => ErrorSeverity::High,
            ProcessingError::ChannelError { .. } => ErrorSeverity::Medium,
            ProcessingError::TaskError { .. } => ErrorSeverity::Medium,
            ProcessingError::ResourceExhaustionError { .. } => ErrorSeverity::High,
            ProcessingError::InternalError { .. } => ErrorSeverity::Critical,
        }
    }

    /// Whether processing can go on after an error of this kind: not after
    /// type safety, validation, dependency injection, configuration and
    /// internal errors.
    pub open spec fn recoverable_spec(&self) -> bool {
        match self {
            ProcessingError::TypeSafetyError { .. } => false,
            ProcessingError::ValidationError { .. } => false,
            ProcessingError::DependencyInjectionError { .. } => false,
            ProcessingError::ConfigurationError { .. } => false,
            ProcessingError::InternalError { .. } => false,
            _ => true,
        }
    }

    /// The error as text.
    pub open spec fn message_spec(&self) -> Seq<char> {
        match self {
            ProcessingError::FileDiscoveryError { path, source } => "ファイル発見エラー: "@ + path@
                + " - "@ + source@,
            ProcessingError::ParallelExecutionError { message } => "並列処理エラー: "@ + message@,
            ProcessingError::PersistenceError { source } => "永続化エラー: "@ + source@,
            ProcessingError::ConfigurationError { message } => "設定エラー: "@ + message@,
            ProcessingError::ChannelError { message } => "チャンネルエラー: "@ + message@,
            ProcessingError::TaskError { source } => "タスクエラー: "@ + source@,
            ProcessingError::ImageProcessingError { file_path, source } => "画像処理エラー: "@
                + file_path@ + " - "@ + source@,
            ProcessingError::DependencyInjectionError { message } => "依存関係注入エラー: "@
                + message@,
            ProcessingError::TypeSafetyError { message, component } => "型安全性エラー: "@
                + message@ + " (コンポーネント: "@ + component@ + ")"@,
            ProcessingError::ValidationError { field, reason } => "バリデーションエラー: "@ + field@
                + " - "@ + reason@,
            ProcessingError::ResourceExhaustionError { resource_type, details } =>
                "リソース不足エラー: "@ + resource_type@ + " - "@ + details@,
            ProcessingError::InternalError { source } => "内部エラー: "@ + source@,
        }
    }

    pub fn severity(&self) -> (r: ErrorSeverity)
        ensures
            r == self.severity_spec(),
    {
        match self {
            ProcessingError::TypeSafetyError { .. } => ErrorSeverity::Critical,
            ProcessingError::ValidationError { .. } => ErrorSeverity::Critical,
            ProcessingError::DependencyInjectionError { .. } => ErrorSeverity::High,
            ProcessingError::ConfigurationError { .. } => ErrorSeverity::High,
            ProcessingError::FileDiscoveryError { .. } => ErrorSeverity::Medium,
            ProcessingError::ImageProcessingError { .. } => ErrorSeverity::Medium,
            ProcessingError::ParallelExecutionError { .. } => ErrorSeverity::High,
            ProcessingError::PersistenceError { .. } => ErrorSeverity::High,
            ProcessingError::ChannelError { .. } => ErrorSeverity::Medium,
            ProcessingError::TaskError { .. } => ErrorSeverity::Medium,
            ProcessingError::ResourceExhaustionError { .. } => ErrorSeverity::High,
            ProcessingError::InternalError { .. } => ErrorSeverity::Critical,
        }
    }

    pub fn is_recoverable(&self) -> (r: bool)
        ensures
            r == self.recoverable_spec(),
    {
        match self {
            ProcessingError::TypeSafetyError { .. } => false,
            ProcessingError::ValidationError { .. } => false,
            ProcessingError::DependencyInjectionError { .. } => false,
            ProcessingError::ConfigurationError { .. } => false,
            ProcessingError::FileDiscoveryError { .. } => true,
            ProcessingError::ImageProcessingError { .. } => true,
            ProcessingError::ParallelExecutionError { .. } => true,
            ProcessingError::PersistenceError { .. } => true,
            ProcessingError::ChannelError { .. } => true,
            ProcessingError::TaskError { .. } => true,
            ProcessingError::ResourceExhaustionError { .. } => true,
            ProcessingError::InternalError { .. } => false,
        }
    }

    /// The error as text, as the original error type displays it.
    pub fn message(&self) -> (r: String)
        ensures
            r@ == self.message_spec(),
    {
        match self {
            ProcessingError::FileDiscoveryError { path, source } => String::from_str(
                "ファイル発見エラー: ",
            ).concat(path.as_str()).concat(" - ").concat(source.as_str()),
            ProcessingError::ParallelExecutionError { message } => String::from_str(
                "並列処理エラー: ",
            ).concat(message.as_str()),
            ProcessingError::PersistenceError { source } => String::from_str(
                "永続化エラー: ",
            ).concat(source.as_str()),
            ProcessingError::ConfigurationError { message } => String::from_str(
                "設定エラー: ",
            ).concat(message.as_str()),
            ProcessingError::ChannelError { message } => String::from_str(
                "チャンネルエラー: ",
            ).concat(message.as_str()),
            ProcessingError::TaskError { source } => String::from_str("タスクエラー: ").concat(
                source.as_str(),
            ),
            ProcessingError::ImageProcessingError { file_path, source } => String::from_str(
                "画像処理エラー: ",
            ).concat(file_path.as_str()).concat(" - ").concat(source.as_str()),
            ProcessingError::DependencyInjectionError { message } => String::from_str(
                "依存関係注入エラー: ",
            ).concat(message.as_str()),
            ProcessingError::TypeSafetyError { message, component } => String::from_str(
                "型安全性エラー: ",
            ).concat(message.as_str()).concat(" (コンポーネント: ").concat(component.as_str()).concat(
                ")",
            ),
            ProcessingError::ValidationError { field, reason } => String::from_str(
                "バリデーションエラー: ",
            ).concat(field.as_str()).concat(" - ").concat(reason.as_str()),
            ProcessingError::ResourceExhaustionError { resource_type, details } => String::from_str(
                "リソース不足エラー: ",
            ).concat(resource_type.as_str()).concat(" - ").concat(details.as_str()),
            ProcessingError::InternalError { source } => String::from_str("内部エラー: ").concat(
                source.as_str(),
            ),
        }
    }

    /// Context of the error: operation, resource and suggestion for file
    /// discovery, image processing, configuration and type safety errors; an
    /// `unknown` operation with neither for the others.
    pub fn context(&self) -> (r: ErrorContext)
        ensures
            match self {
                ProcessingError::FileDiscoveryError { path, .. } => r.operation@
                    == "file_discovery"@ && r.resource is Some && r.resource->Some_0@ == path@
                    && r.suggestion is Some && r.suggestion->Some_0@
                    == "ファイルパスとアクセス権限を確認してください"@,
                ProcessingError::ImageProcessingError { file_path, .. } => r.operation@
                    == "image_processing"@ && r.resource is Some && r.resource->Some_0@
                    == file_path@ && r.suggestion is Some && r.suggestion->Some_0@
                    == "画像ファイルの形式と整合性を確認してください"@,
                ProcessingError::ConfigurationError { message } => r.operation@
                    == "configuration"@ && r.resource is None && r.suggestion is Some
                    && r.suggestion->Some_0@ == "設定を確認してください: "@ + message@,
                ProcessingError::TypeSafetyError { component, .. } => r.operation@
                    == "type_safety_check"@ && r.resource is Some && r.resource->Some_0@
                    == component@ && r.suggestion is Some && r.suggestion->Some_0@
                    == "型制約を確認し、適切な実装を使用してください"@,
                _ => r.operation@ == "unknown"@ && r.resource is None && r.suggestion is None,
            },
    {
        match self {
            ProcessingError::FileDiscoveryError { path, .. } => ErrorContext::new(
                "file_discovery",
            ).with_resource(path.as_str()).with_suggestion(
                "ファイルパスとアクセス権限を確認してください",
            ),
            ProcessingError::ImageProcessingError { file_path, .. } => ErrorContext::new(
                "image_processing",
            ).with_resource(file_path.as_str()).with_suggestion(
                "画像ファイルの形式と整合性を確認してください",
            ),
            ProcessingError::ConfigurationError { message } => {
                let hint = String::from_str("設定を確認してください: ").concat(message.as_str());
                ErrorContext::new("configuration").with_suggestion(hint.as_str())
            },
            ProcessingError::TypeSafetyError { component, .. } => ErrorContext::new(
                "type_safety_check",
            ).with_resource(component.as_str()).with_suggestion(
                "型制約を確認し、適切な実装を使用してください",
            ),
            _ => ErrorContext::new("unknown"),
        }
    }
}

} // verus!
