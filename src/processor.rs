//! The input file check, the content transforms chosen by mode, and the
//! placeholder self-test run.
use vstd::prelude::*;
use crate::error::{AppError, AppResult};
use vstd::string::StringSliceAdditionalSpecFns;
use crate::text::{is_ws, lemma_trim_empty_iff_all_ws, same_text, to_upper, trim_spec, trim_ws, upper_of};

verus! {

/// The first line of the output in happy mode.
pub open spec fn happy_banner() -> Seq<char> {
    "Happy Mode 处理结果:\n"@
}

/// The first line of the output in production mode.
pub open spec fn production_banner() -> Seq<char> {
    "Production Mode 处理结果:\n"@
}

/// The message of the failure for a mode that is not known.
pub open spec fn unknown_mode_message(mode: Seq<char>) -> Seq<char> {
    "未知的处理模式: "@ + mode
}

/// The message of the failure for an input file with nothing but whitespace.
pub open spec fn empty_input_message() -> Seq<char> {
    "文件内容为空"@
}

/// Every character of `s` is whitespace (so also when `s` is empty).
pub open spec fn all_ws(s: Seq<char>) -> bool {
    forall|k: int| 0 <= k < s.len() ==> is_ws(#[trigger] s[k])
}

/// The number of newline bytes in `b`.
pub open spec fn newline_count(b: Seq<u8>) -> nat
    decreases b.len(),
{
    if b.len() == 0 {
        0
    } else {
        newline_count(b.drop_last()) + if b.last() == 10u8 {
            1nat
        } else {
            0nat
        }
    }
}

proof fn lemma_newline_count_bound(b: Seq<u8>)
    ensures
        newline_count(b) <= b.len(),
    decreases b.len(),
{
    if b.len() > 0 {
        lemma_newline_count_bound(b.drop_last());
    }
}

/// The number of lines of a text given as bytes: one per newline, and one
/// more for a last line that does not end in a newline.
pub open spec fn line_count_of(b: Seq<u8>) -> nat {
    newline_count(b) + if b.len() > 0 && b.last() != 10u8 {
        1nat
    } else {
        0nat
    }
}

/// What the file system reported about an input path.
pub enum InputProbe {
    /// Nothing exists at the path; no read was attempted.
    Missing,
    /// The path exists but reading it failed, with the error's message.
    Unreadable(String),
    /// The whole content of the file.
    Read(String),
}

/// Reads input files and transforms their content.
pub struct FileProcessor;

impl FileProcessor {
    /// Completes the reading of the input file at `path` from what the file
    /// system reported: a missing file or a failed read is an error, and so
    /// is content made of whitespace alone; otherwise the content is handed
    /// back unchanged.
    pub fn read_input(path: &str, probe: InputProbe) -> (r: AppResult<String>)
        ensures
            match probe {
                InputProbe::Missing => r matches Err(AppError::FileNotFound(p)) && p@ == path@,
                InputProbe::Unreadable(m) => r matches Err(AppError::IoError(e)) && e@ == m@,
                InputProbe::Read(c) => if all_ws(c@) {
                    r matches Err(AppError::InvalidInput(e)) && e@ == empty_input_message()
                } else {
                    r matches Ok(s) && s@ == c@
                },
            },
    {
        match probe {
            InputProbe::Missing => Err(AppError::FileNotFound(String::from_str(path))),
            InputProbe::Unreadable(m) => Err(AppError::IoError(m)),
            InputProbe::Read(c) => {
                proof {
                    lemma_trim_empty_iff_all_ws(c@);
                }
                let t = trim_ws(c.as_str());
                if t.as_str().is_empty() {
                    Err(AppError::InvalidInput(String::from_str("文件内容为空")))
                } else {
                    Ok(c)
                }
            },
        }
    }

    /// The number of lines of `content`, counted as `str::lines` yields them.
    pub fn line_count(content: &str) -> (r: usize)
        ensures
            r == line_count_of(content.spec_bytes()),
    {
        let b = content.as_bytes();
        let n = b.len();
        let mut count: usize = 0;
        let mut i: usize = 0;
        while i < n
            invariant
                n == b@.len(),
                b@ == content.spec_bytes(),
                i <= n,
                count == newline_count(b@.subrange(0, i as int)),
                count <= i,
            decreases n - i,
        {
            proof {
                assert(b@.subrange(0, i + 1).drop_last() =~= b@.subrange(0, i as int));
            }
            if b[i] == 10u8 {
                count = count + 1;
            }
            i = i + 1;
        }
        assert(b@.subrange(0, n as int) =~= b@);
        if n > 0 && b[n - 1] != 10u8 {
            proof {
                lemma_newline_count_bound(b@.drop_last());
            }
            count = count + 1;
        }
        count
    }

    /// Transforms `content` as `mode` says: `happy mode` upper-cases it,
    /// `production` trims the whitespace at both ends; each result starts
    /// with that mode's banner line. Any other mode is refused.
    pub fn process_content(content: &str, mode: &str) -> (r: AppResult<String>)
        ensures
            mode@ == "happy mode"@ ==> (r matches Ok(s) && s@ == happy_banner() + upper_of(
                content@,
            )),
            mode@ == "production"@ ==> (r matches Ok(s) && s@ == production_banner() + trim_spec(
                content@,
            )),
            mode@ != "happy mode"@ && mode@ != "production"@ ==> (r matches Err(
                AppError::InvalidInput(m),
            ) && m@ == unknown_mode_message(mode@)),
    {
        proof {
            reveal_strlit("happy mode");
            reveal_strlit("production");
            assert("happy mode"@[0] != "production"@[0]);
        }
        if same_text(mode, "happy mode") {
            Ok(Self::process_happy(content))
        } else if same_text(mode, "production") {
            Ok(Self::process_production(content))
        } else {
            let mut m = String::from_str("未知的处理模式: ");
            m.append(mode);
            Err(AppError::InvalidInput(m))
        }
    }

    fn process_happy(content: &str) -> (r: String)
        ensures
            r@ == happy_banner() + upper_of(content@),
    {
        let mut r = String::from_str("Happy Mode 处理结果:\n");
        let up = to_upper(content);
        r.append(up.as_str());
        r
    }

    fn process_production(content: &str) -> (r: String)
        ensures
            r@ == production_banner() + trim_spec(content@),
    {
        let mut r = String::from_str("Production Mode 处理结果:\n");
        let t = trim_ws(content);
        r.append(t.as_str());
        r
    }
}

/// What a self-test run reports: diagnostic lines for the error stream, and
/// the closing line for standard output.
pub struct TestReport {
    pub diagnostics: Vec<String>,
    pub summary: String,
}

/// The closing line of a run in which no check failed.
pub open spec fn all_passed_line() -> Seq<char> {
    "所有测试通过!"@
}

/// The message of a run in which some check failed.
pub open spec fn some_failed_message() -> Seq<char> {
    "部分测试失败"@
}

/// The diagnostic lines of a run with debugging on.
pub open spec fn debug_lines() -> Seq<Seq<char>> {
    seq!["[DEBUG] 开始运行测试..."@, "[TEST] 运行测试 1: 配置验证"@, "[TEST] 运行测试 2: 文件系统检查"@]
}

/// The placeholder self-test harness.
pub struct TestRunner;

impl TestRunner {
    /// The outcome of a run in which `failed_count` checks failed.
    pub fn verdict(failed_count: u32) -> (r: AppResult<()>)
        ensures
            failed_count == 0 ==> r is Ok,
            failed_count > 0 ==> (r matches Err(AppError::TestFailed(m, n)) && m@
                == some_failed_message() && n == failed_count),
    {
        if failed_count > 0 {
            Err(AppError::TestFailed(String::from_str("部分测试失败"), failed_count))
        } else {
            Ok(())
        }
    }

    /// Runs the self-tests. The two checks are placeholders that execute
    /// nothing, so no check fails and the run always succeeds; with `debug`
    /// it reports a start line and the name of each check.
    pub fn run_tests(debug: bool) -> (r: AppResult<TestReport>)
        ensures
            r matches Ok(rep) && rep.summary@ == all_passed_line() && (if debug {
                rep.diagnostics@.map_values(|s: String| s@) == debug_lines()
            } else {
                rep.diagnostics@.len() == 0
            }),
    {
        let mut diagnostics: Vec<String> = Vec::new();
        if debug {
            diagnostics.push(String::from_str("[DEBUG] 开始运行测试..."));
        }
        let failed_count: u32 = 0;
        if debug {
            diagnostics.push(String::from_str("[TEST] 运行测试 1: 配置验证"));
        }
        if debug {
            diagnostics.push(String::from_str("[TEST] 运行测试 2: 文件系统检查"));
        }
        match Self::verdict(failed_count) {
            Err(e) => Err(e),
            Ok(()) => {
                proof {
                    if debug {
                        assert(diagnostics@.map_values(|s: String| s@) =~= debug_lines());
                    }
                }
                Ok(TestReport { diagnostics, summary: String::from_str("所有测试通过!") })
            },
        }
    }
}

} // verus!
