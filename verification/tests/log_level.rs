use sysz::io::log::{context_line, headline, LogColor, LogLevel};

#[test]
fn log_level_style_of_every_level() {
    assert_eq!(LogLevel::Info.style(), LogColor::Blue);
    assert_eq!(LogLevel::Success.style(), LogColor::Green);
    assert_eq!(LogLevel::Warning.style(), LogColor::Yellow);
    assert_eq!(LogLevel::Error.style(), LogColor::Red);
    assert_eq!(LogLevel::Bug.style(), LogColor::BrightRed);
    assert_eq!(LogLevel::Fatal.style(), LogColor::BrightRed);
    assert_eq!(LogLevel::Debug.style(), LogColor::Magenta);
    assert_eq!(LogLevel::Trace.style(), LogColor::Cyan);
}

#[test]
fn log_level_label_is_the_name_in_capitals() {
    for level in [
        LogLevel::Info,
        LogLevel::Success,
        LogLevel::Warning,
        LogLevel::Error,
        LogLevel::Bug,
        LogLevel::Fatal,
        LogLevel::Debug,
        LogLevel::Trace,
    ] {
        assert_eq!(level.label(), format!("{:?}", level).to_uppercase());
    }
}

#[test]
fn log_headline_puts_the_label_in_brackets() {
    assert_eq!(headline(LogLevel::Info, "started"), "[INFO] started");
    assert_eq!(headline(LogLevel::Fatal, ""), "[FATAL] ");
    assert_eq!(headline(LogLevel::Warning, "é [x]"), "[WARNING] é [x]");
}

#[test]
fn log_context_line_is_indented_under_an_arrow() {
    assert_eq!(context_line("while reading"), "\n  ↳ while reading");
    assert_eq!(context_line(""), "\n  ↳ ");
}
