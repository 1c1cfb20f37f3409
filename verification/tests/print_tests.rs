use wrun::print::{
    ansi_bg_code, ansi_color, ansi_fg_code, badge, bg_code, fg_code, find_custom_level,
    format_kv, format_kv_plain, format_pair, get_log_file_path, level_name, level_name_to_num,
    pad5, resolve_level, set_script_dir, set_script_name, should_log_file, should_log_terminal,
    LogConfig, LogInternal, PrintInternal,
};

#[test]
fn color_codes_by_name() {
    assert_eq!(ansi_fg_code("red"), 31);
    assert_eq!(ansi_fg_code("BRIGHT_CYAN"), 96);
    assert_eq!(ansi_fg_code("grey"), 90);
    assert_eq!(ansi_fg_code("nonsense"), 37);
    assert_eq!(ansi_bg_code("red"), 41);
    assert_eq!(ansi_bg_code("gray"), 100);
    assert_eq!(ansi_bg_code("nonsense"), 47);
    assert_eq!(ansi_color("green"), "\x1b[32m");
    assert_eq!(ansi_color("Magenta"), "\x1b[35m");
}

#[test]
fn level_codes_and_names() {
    assert_eq!(level_name_to_num("trace"), 0);
    assert_eq!(level_name_to_num("WARNING"), 3);
    assert_eq!(level_name_to_num("custom-ish"), 5);
    assert_eq!(level_name(2), "INFO ");
    assert_eq!(level_name(4), "ERROR");
    assert_eq!(level_name(9), "CUSTOM");
    assert_eq!(fg_code(1, None), 34);
    assert_eq!(fg_code(1, Some("red")), 31);
    assert_eq!(bg_code(3, None), 103);
    assert_eq!(bg_code(3, Some("blue")), 44);
}

#[test]
fn badge_is_exact() {
    assert_eq!(badge(2, "INFO ", None), "\x1b[0;30;42;1m INFO  \x1b[0;32;49m▐\x1b[0;39m ");
    assert_eq!(badge(0, "TRACE", None), "\x1b[0;30;100;1m TRACE \x1b[0;90;49m▐\x1b[0;39m ");
}

#[test]
fn kv_rendering() {
    assert_eq!(format_kv("", 32), "");
    assert_eq!(format_kv("\0\0", 32), "");
    assert_eq!(
        format_kv("k=v\0plain", 32),
        " \x1b[0;39;2mk=\x1b[0;32mv\x1b[0m \x1b[0;39;2mplain\x1b[0m"
    );
    assert_eq!(format_pair("a=b", 31), "\x1b[0;39;2ma=\x1b[0;31mb\x1b[0m");
    assert_eq!(format_pair("raw", 31), "\x1b[0;39;2mraw\x1b[0m");
    assert_eq!(format_kv_plain("k=v\0x\0"), " k=v x");
    assert_eq!(format_kv_plain(""), "");
}

#[test]
fn log_file_path_resolution() {
    let mut cfg = LogConfig::default();
    assert_eq!(get_log_file_path(&cfg), None);
    set_script_dir(&mut cfg, "/tmp/scripts".to_string());
    assert_eq!(get_log_file_path(&cfg), Some("/tmp/scripts/wrun_script.log".to_string()));
    set_script_name(&mut cfg, "build".to_string());
    assert_eq!(get_log_file_path(&cfg), Some("/tmp/scripts/wrun_build.log".to_string()));
    cfg.file_path = Some("/var/log/x.log".to_string());
    assert_eq!(get_log_file_path(&cfg), Some("/var/log/x.log".to_string()));
}

#[test]
fn custom_levels_register_and_resolve() {
    let mut log = LogInternal::new();
    log.addLevel("note".to_string(), "cyan".to_string(), "info");
    let found = find_custom_level(&log.config, "NOTE").expect("registered");
    assert_eq!(found.name, "note");
    assert_eq!(found.color_name, "cyan");
    assert_eq!(found.priority, 2);
    let (level, name, color) = resolve_level(&log.config, "note");
    assert_eq!(level, 2);
    assert_eq!(name, "NOTE ");
    assert_eq!(color, Some("cyan".to_string()));
    // replacing keeps one entry under the name
    log.addLevel("NOTE".to_string(), "red".to_string(), "");
    let found = find_custom_level(&log.config, "note").expect("still registered");
    assert_eq!(found.color_name, "red");
    assert_eq!(found.priority, 5);
    let (level, name, color) = resolve_level(&log.config, "unseen");
    assert_eq!(level, 5);
    assert_eq!(name, "UNSEEN");
    assert_eq!(color, None);
}

#[test]
fn resolve_builtin_levels() {
    let cfg = LogConfig::default();
    assert_eq!(resolve_level(&cfg, "TRACE").0, 0);
    assert_eq!(resolve_level(&cfg, "warning").0, 3);
    assert_eq!(resolve_level(&cfg, "error").1, "ERROR");
    assert_eq!(pad5("AB"), "AB   ");
    assert_eq!(pad5("ABCDEF"), "ABCDEF");
}

#[test]
fn log_output_respects_levels_and_paths() {
    let mut log = LogInternal::new();
    // no file configured, trace below terminal level
    let out = log.trace("quiet");
    assert!(out.terminal.is_none());
    assert!(out.file.is_none());
    // info reaches the terminal
    let out = log.info("hello");
    let line = out.terminal.expect("info prints");
    assert!(line.starts_with("\x1b[0;30;42;1m INFO  \x1b[0;32;49m▐\x1b[0;39m "));
    assert!(line.contains("hello"));
    assert!(line.ends_with("\x1b[0m"));
    assert!(out.file.is_none());
    // with a file, debug reaches the file but not the terminal
    log.setFile("/tmp/w.log".to_string());
    let out = log.debugKv("building", "step=3");
    assert!(out.terminal.is_none());
    let (path, fline) = out.file.expect("file line");
    assert_eq!(path, "/tmp/w.log");
    assert!(fline.ends_with("DEBUG building step=3\n"));
    // raising the file level silences it
    log.setFileLevel("error");
    let out = log.debug("gone");
    assert!(out.file.is_none());
    // lowering the terminal level shows trace
    log.setTerminalLevel("trace");
    let out = log.trace("loud");
    assert!(out.terminal.is_some());
    assert!(should_log_terminal(&log.config, 0));
    assert!(!should_log_file(&log.config, 3));
}

#[test]
fn live_line_lifecycle() {
    let mut p = PrintInternal::new();
    assert_eq!(p.liveDone(), None);
    let shown = p.live("working");
    assert_eq!(shown, "\r\x1b[2Kworking");
    let done = p.liveDone().expect("live line was active");
    assert_eq!(done, "\r\x1b[2K\n");
    assert_eq!(p.liveDone(), None);
    let colored = p.liveColor("busy", "yellow");
    assert_eq!(colored, "\r\x1b[2K\x1b[33mbusy\x1b[0m");
    // a normal print wipes the live line first
    let out = p.cprint("done");
    assert_eq!(out, "\r\x1b[2K\x1b[32mdone\x1b[0m\n");
    let out = p.cprintColor("note", "cyan");
    assert_eq!(out, "\x1b[36mnote\x1b[0m\n");
}

#[test]
fn eprint_wipes_live_line() {
    let mut p = PrintInternal::new();
    p.live("x");
    let w = p.eprint("oops");
    assert_eq!(w.out, Some("\r\x1b[2K".to_string()));
    assert_eq!(w.err, Some("oops\n".to_string()));
    let w = p.eprint("again");
    assert_eq!(w.out, None);
    assert_eq!(w.err, Some("again\n".to_string()));
}

#[test]
fn live_log_lines() {
    let mut log = LogInternal::new();
    let line = log.live("info", "running").expect("info shows");
    assert!(line.starts_with("\x1b[0;30;42;1m INFO  \x1b[0;32;49m▐\x1b[0;39m "));
    assert!(line.contains("running"));
    assert_eq!(log.live("trace", "hidden"), None);
    let line = log.liveKv("warn", "hot", "t=90").expect("warn shows");
    assert!(line.contains("hot"));
    assert!(line.contains("t=\x1b[0;93m90"));
}
