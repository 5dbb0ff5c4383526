use meow::error::{exit_status, AppError, FILE_ERROR, INPUT_ERROR, SUCCESS, TEST_FAILED};
use meow::processor::{FileProcessor, InputProbe, TestRunner};

const HAPPY: &str = "Happy Mode 处理结果:\n";
const PRODUCTION: &str = "Production Mode 处理结果:\n";

#[test]
fn happy_mode_uppercases_after_banner() {
    let r = FileProcessor::process_content("abc", "happy mode").unwrap();
    assert_eq!(r, format!("{}ABC", HAPPY));
}

#[test]
fn happy_mode_uppercase_is_idempotent() {
    for content in ["abc", "Hello, World!", "straße", "ǆ mixed Ǳ", ""] {
        let once = FileProcessor::process_content(content, "happy mode").unwrap();
        let upper = content.to_uppercase();
        let twice = FileProcessor::process_content(&upper, "happy mode").unwrap();
        assert_eq!(once, twice);
        assert!(once.starts_with(HAPPY));
    }
}

#[test]
fn production_mode_trims_both_ends() {
    let r = FileProcessor::process_content("  hello world  \n", "production").unwrap();
    assert_eq!(r, format!("{}hello world", PRODUCTION));
}

#[test]
fn production_mode_keeps_interior_whitespace() {
    let r = FileProcessor::process_content("\t a \t\n  b  \r\n", "production").unwrap();
    assert_eq!(r, format!("{}a \t\n  b", PRODUCTION));
}

#[test]
fn production_mode_trims_unicode_whitespace() {
    let r = FileProcessor::process_content("\u{3000}\u{a0}x y\u{2029}", "production").unwrap();
    assert_eq!(r, format!("{}x y", PRODUCTION));
}

#[test]
fn production_mode_of_blank_content_is_banner_only() {
    let r = FileProcessor::process_content(" \n ", "production").unwrap();
    assert_eq!(r, PRODUCTION);
}

#[test]
fn unknown_mode_is_invalid_input() {
    let e = FileProcessor::process_content("abc", "debug").unwrap_err();
    assert!(matches!(&e, AppError::InvalidInput(m) if m == "未知的处理模式: debug"));
    assert_eq!(e.exit_code(), INPUT_ERROR);
    assert_eq!(e.message(), "无效输入: 未知的处理模式: debug");
}

#[test]
fn mode_names_are_case_sensitive() {
    let e = FileProcessor::process_content("abc", "Happy Mode").unwrap_err();
    assert!(matches!(&e, AppError::InvalidInput(m) if m == "未知的处理模式: Happy Mode"));
    let e = FileProcessor::process_content("abc", "").unwrap_err();
    assert!(matches!(&e, AppError::InvalidInput(m) if m == "未知的处理模式: "));
}

#[test]
fn missing_input_is_file_not_found() {
    let e = FileProcessor::read_input("no/such/file.txt", InputProbe::Missing).unwrap_err();
    assert!(matches!(&e, AppError::FileNotFound(p) if p == "no/such/file.txt"));
    assert_eq!(e.exit_code(), FILE_ERROR);
    assert_eq!(e.message(), "文件不存在: no/such/file.txt");
}

#[test]
fn unreadable_input_is_io_error() {
    let e = FileProcessor::read_input("a.txt", InputProbe::Unreadable("denied".to_string()))
        .unwrap_err();
    assert!(matches!(&e, AppError::IoError(m) if m == "denied"));
    assert_eq!(e.exit_code(), FILE_ERROR);
    assert_eq!(e.message(), "IO错误: denied");
}

#[test]
fn blank_input_is_invalid() {
    for content in ["", " ", "\n\n", " \t\r\n ", "\u{3000}\u{85}"] {
        let e = FileProcessor::read_input("a.txt", InputProbe::Read(content.to_string()))
            .unwrap_err();
        assert!(matches!(&e, AppError::InvalidInput(m) if m == "文件内容为空"));
        assert_eq!(e.exit_code(), INPUT_ERROR);
    }
}

#[test]
fn input_with_text_is_returned_unchanged() {
    let r = FileProcessor::read_input("a.txt", InputProbe::Read("  hello world  \n".to_string()))
        .unwrap();
    assert_eq!(r, "  hello world  \n");
}

#[test]
fn read_then_production_end_to_end() {
    let content =
        FileProcessor::read_input("in.txt", InputProbe::Read("  hello world  \n".to_string()))
            .unwrap();
    let r = FileProcessor::process_content(&content, "production").unwrap();
    assert_eq!(r, format!("{}hello world", PRODUCTION));
    assert_eq!(SUCCESS, 0);
}

#[test]
fn read_then_happy_end_to_end() {
    let content = FileProcessor::read_input("in.txt", InputProbe::Read("abc".to_string())).unwrap();
    let r = FileProcessor::process_content(&content, "happy mode").unwrap();
    assert_eq!(r, format!("{}ABC", HAPPY));
}

#[test]
fn run_tests_always_passes() {
    for debug in [false, true] {
        let rep = TestRunner::run_tests(debug).unwrap();
        assert_eq!(rep.summary, "所有测试通过!");
        assert_eq!(rep.diagnostics.len(), if debug { 3 } else { 0 });
    }
}

#[test]
fn run_tests_debug_names_each_check() {
    let rep = TestRunner::run_tests(true).unwrap();
    assert_eq!(
        rep.diagnostics,
        vec![
            "[DEBUG] 开始运行测试...".to_string(),
            "[TEST] 运行测试 1: 配置验证".to_string(),
            "[TEST] 运行测试 2: 文件系统检查".to_string(),
        ]
    );
}

#[test]
fn verdict_reports_failures() {
    assert!(TestRunner::verdict(0).is_ok());
    let e = TestRunner::verdict(12).unwrap_err();
    assert!(matches!(&e, AppError::TestFailed(m, 12) if m == "部分测试失败"));
    assert_eq!(e.exit_code(), TEST_FAILED);
    assert_eq!(e.message(), "测试失败: 部分测试失败 (失败数量: 12)");
}

#[test]
fn line_count_follows_str_lines() {
    for content in ["", "a", "a\n", "a\nb", "a\r\nb\r\n", "\n\n", "é\nü", "  hello world  \n"] {
        assert_eq!(FileProcessor::line_count(content), content.lines().count());
    }
    assert_eq!(FileProcessor::line_count("x\ny\nz"), 3);
}

#[test]
fn missing_input_exits_with_file_error() {
    let outcome = FileProcessor::read_input("missing.txt", InputProbe::Missing);
    assert_eq!(exit_status(&outcome), 2);
}

#[test]
fn test_subcommand_exits_successfully() {
    for debug in [false, true] {
        let outcome = TestRunner::run_tests(debug);
        assert_eq!(exit_status(&outcome), 0);
    }
}

#[test]
fn processed_content_exits_successfully() {
    let outcome = FileProcessor::process_content("abc", "happy mode");
    assert_eq!(exit_status(&outcome), SUCCESS);
    let outcome = FileProcessor::process_content("abc", "other");
    assert_eq!(exit_status(&outcome), 3);
}
