//! The closed set of failures and the process exit code of each.
use vstd::prelude::*;
use crate::text::{decimal, push_decimal};

verus! {

/// Exit code of a successful run.
pub const SUCCESS: i32 = 0;

/// Exit code of a configuration failure.
pub const CONFIG_ERROR: i32 = 1;

/// Exit code of a missing or unreadable file.
pub const FILE_ERROR: i32 = 2;

/// Exit code of unusable input.
pub const INPUT_ERROR: i32 = 3;

/// Exit code of failed self-tests.
pub const TEST_FAILED: i32 = 4;

/// A failure of the tool. Each variant carries the text shown to the user.
#[derive(Debug)]
pub enum AppError {
    /// The configuration could not be assembled.
    ConfigError(String),
    /// Reading a file failed; the underlying error's message.
    IoError(String),
    /// The named file does not exist.
    FileNotFound(String),
    /// The input or a setting is unusable.
    InvalidInput(String),
    /// Self-tests failed: a message and how many failed.
    TestFailed(String, u32),
}

/// A result whose failure is an `AppError`.
pub type AppResult<T> = Result<T, AppError>;

impl AppError {
    /// The exit code of each kind of failure.
    pub open spec fn spec_exit_code(&self) -> i32 {
        match self {
            AppError::ConfigError(_) => CONFIG_ERROR,
            AppError::IoError(_) | AppError::FileNotFound(_) => FILE_ERROR,
            AppError::InvalidInput(_) => INPUT_ERROR,
            AppError::TestFailed(_, _) => TEST_FAILED,
        }
    }

    /// The exit code under which the process ends on this failure.
    pub fn exit_code(&self) -> (r: i32)
        ensures
            r == self.spec_exit_code(),
    {
        match self {
            AppError::ConfigError(_) => CONFIG_ERROR,
            AppError::IoError(_) | AppError::FileNotFound(_) => FILE_ERROR,
            AppError::InvalidInput(_) => INPUT_ERROR,
            AppError::TestFailed(_, _) => TEST_FAILED,
        }
    }

    /// The text shown to the user for this failure.
    pub open spec fn spec_message(&self) -> Seq<char> {
        match self {
            AppError::ConfigError(m) => "配置错误: "@ + m@,
            AppError::IoError(m) => "IO错误: "@ + m@,
            AppError::FileNotFound(p) => "文件不存在: "@ + p@,
            AppError::InvalidInput(m) => "无效输入: "@ + m@,
            AppError::TestFailed(m, n) => "测试失败: "@ + m@ + " (失败数量: "@ + decimal(*n as nat)
                + ")"@,
        }
    }

    /// The text shown to the user for this failure.
    pub fn message(&self) -> (r: String)
        ensures
            r@ == self.spec_message(),
    {
        match self {
            AppError::ConfigError(m) => {
                let mut r = String::from_str("配置错误: ");
                r.append(m.as_str());
                r
            },
            AppError::IoError(m) => {
                let mut r = String::from_str("IO错误: ");
                r.append(m.as_str());
                r
            },
            AppError::FileNotFound(p) => {
                let mut r = String::from_str("文件不存在: ");
                r.append(p.as_str());
                r
            },
            AppError::InvalidInput(m) => {
                let mut r = String::from_str("无效输入: ");
                r.append(m.as_str());
                r
            },
            AppError::TestFailed(m, n) => {
                let mut r = String::from_str("测试失败: ");
                r.append(m.as_str());
                r.append(" (失败数量: ");
                push_decimal(&mut r, *n as u64);
                r.append(")");
                r
            },
        }
    }
}

/// The exit code of a run that ended with `outcome`.
pub fn exit_status<T>(outcome: &AppResult<T>) -> (r: i32)
    ensures
        match outcome {
            Ok(_) => r == SUCCESS,
            Err(e) => r == e.spec_exit_code(),
        },
{
    match outcome {
        Ok(_) => SUCCESS,
        Err(e) => e.exit_code(),
    }
}

} // verus!
