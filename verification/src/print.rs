//! Terminal printing and logging: ANSI badge and color tables, key-value
//! rendering, log-level resolution, and the composition of every line the
//! host writes to the terminal or appends to a log file.
//!
//! Nothing here touches an output stream: each operation answers the exact
//! text to write (and where), and the caller performs the write.

use vstd::prelude::*;
use crate::text::{
    ascii_lower, ascii_upper, chars_vec, eq_ignore_ascii_case, find_char, nonempty_from,
    repeat_char, spec_ascii_lower, spec_ascii_upper, spec_char_at, spec_dec, spec_join,
    spec_nonempty_parts, spec_repeat_char, spec_split_char, split_char_str, join_with,
    u64_dec_string,
};

verus! {

/// A host-defined log level: its name, the color its badge uses, and its
/// numeric priority.
pub struct CustomLevel {
    pub name: String,
    pub color_name: String,
    pub priority: u8,
}

/// Logging configuration, owned by the host and passed where it is needed.
pub struct LogConfig {
    pub script_dir: Option<String>,
    pub script_name: Option<String>,
    pub file_path: Option<String>,
    pub terminal_level: u8,
    pub file_level: u8,
    pub custom_levels: Vec<CustomLevel>,
}

impl Default for LogConfig {
    /// The starting configuration: terminal at level 2, file at level 1, no
    /// paths and no custom levels.
    fn default() -> (c: LogConfig)
        ensures
            c.script_dir is None,
            c.script_name is None,
            c.file_path is None,
            c.terminal_level == 2,
            c.file_level == 1,
            c.custom_levels@ == Seq::<CustomLevel>::empty(),
    {
        LogConfig {
            script_dir: None,
            script_name: None,
            file_path: None,
            terminal_level: 2,
            file_level: 1,
            custom_levels: Vec::new(),
        }
    }
}

/// Records where the running script lives, for the default log-file path.
pub fn set_script_dir(config: &mut LogConfig, dir: String)
    ensures
        final(config).script_dir == Some(dir),
        final(config).script_name == old(config).script_name,
        final(config).file_path == old(config).file_path,
        final(config).terminal_level == old(config).terminal_level,
        final(config).file_level == old(config).file_level,
        final(config).custom_levels@ == old(config).custom_levels@,
{
    config.script_dir = Some(dir);
}

/// Records the running script's name, for the default log-file path.
pub fn set_script_name(config: &mut LogConfig, name: String)
    ensures
        final(config).script_name == Some(name),
        final(config).script_dir == old(config).script_dir,
        final(config).file_path == old(config).file_path,
        final(config).terminal_level == old(config).terminal_level,
        final(config).file_level == old(config).file_level,
        final(config).custom_levels@ == old(config).custom_levels@,
{
    config.script_name = Some(name);
}

/// The view of an optional borrowed string.
pub open spec fn opt_view(o: Option<&str>) -> Option<Seq<char>> {
    match o {
        Some(s) => Some(s@),
        None => None,
    }
}

/// The view of an optional owned string.
pub open spec fn opt_string_view(o: Option<String>) -> Option<Seq<char>> {
    match o {
        Some(s) => Some(s@),
        None => None,
    }
}

/// The foreground color code a name designates, white when unknown.
pub open spec fn spec_ansi_fg_code(name: Seq<char>) -> u8 {
    let low = spec_ascii_lower(name);
    if low == "black"@ {
        30
    } else if low == "red"@ {
        31
    } else if low == "green"@ {
        32
    } else if low == "yellow"@ {
        33
    } else if low == "blue"@ {
        34
    } else if low == "magenta"@ {
        35
    } else if low == "cyan"@ {
        36
    } else if low == "white"@ {
        37
    } else if low == "gray"@ || low == "grey"@ || low == "bright_black"@ {
        90
    } else if low == "bright_red"@ {
        91
    } else if low == "bright_green"@ {
        92
    } else if low == "bright_yellow"@ {
        93
    } else if low == "bright_blue"@ {
        94
    } else if low == "bright_magenta"@ {
        95
    } else if low == "bright_cyan"@ {
        96
    } else if low == "bright_white"@ {
        97
    } else {
        37
    }
}

/// Foreground color code by name, ASCII case-insensitive.
pub fn ansi_fg_code(name: &str) -> (r: u8)
    ensures
        r == spec_ansi_fg_code(name@),
{
    let low = ascii_lower(name);
    if low == String::from_str("black") {
        30
    } else if low == String::from_str("red") {
        31
    } else if low == String::from_str("green") {
        32
    } else if low == String::from_str("yellow") {
        33
    } else if low == String::from_str("blue") {
        34
    } else if low == String::from_str("magenta") {
        35
    } else if low == String::from_str("cyan") {
        36
    } else if low == String::from_str("white") {
        37
    } else if low == String::from_str("gray") || low == String::from_str("grey") || low
        == String::from_str("bright_black") {
        90
    } else if low == String::from_str("bright_red") {
        91
    } else if low == String::from_str("bright_green") {
        92
    } else if low == String::from_str("bright_yellow") {
        93
    } else if low == String::from_str("bright_blue") {
        94
    } else if low == String::from_str("bright_magenta") {
        95
    } else if low == String::from_str("bright_cyan") {
        96
    } else if low == String::from_str("bright_white") {
        97
    } else {
        37
    }
}

/// The background color code a name designates, white when unknown.
pub open spec fn spec_ansi_bg_code(name: Seq<char>) -> u8 {
    let low = spec_ascii_lower(name);
    if low == "black"@ {
        40
    } else if low == "red"@ {
        41
    } else if low == "green"@ {
        42
    } else if low == "yellow"@ {
        43
    } else if low == "blue"@ {
        44
    } else if low == "magenta"@ {
        45
    } else if low == "cyan"@ {
        46
    } else if low == "white"@ {
        47
    } else if low == "gray"@ || low == "grey"@ || low == "bright_black"@ {
        100
    } else if low == "bright_red"@ {
        101
    } else if low == "bright_green"@ {
        102
    } else if low == "bright_yellow"@ {
        103
    } else if low == "bright_blue"@ {
        104
    } else if low == "bright_magenta"@ {
        105
    } else if low == "bright_cyan"@ {
        106
    } else if low == "bright_white"@ {
        107
    } else {
        47
    }
}

/// Background color code by name, ASCII case-insensitive.
pub fn ansi_bg_code(name: &str) -> (r: u8)
    ensures
        r == spec_ansi_bg_code(name@),
{
    let low = ascii_lower(name);
    if low == String::from_str("black") {
        40
    } else if low == String::from_str("red") {
        41
    } else if low == String::from_str("green") {
        42
    } else if low == String::from_str("yellow") {
        43
    } else if low == String::from_str("blue") {
        44
    } else if low == String::from_str("magenta") {
        45
    } else if low == String::from_str("cyan") {
        46
    } else if low == String::from_str("white") {
        47
    } else if low == String::from_str("gray") || low == String::from_str("grey") || low
        == String::from_str("bright_black") {
        100
    } else if low == String::from_str("bright_red") {
        101
    } else if low == String::from_str("bright_green") {
        102
    } else if low == String::from_str("bright_yellow") {
        103
    } else if low == String::from_str("bright_blue") {
        104
    } else if low == String::from_str("bright_magenta") {
        105
    } else if low == String::from_str("bright_cyan") {
        106
    } else if low == String::from_str("bright_white") {
        107
    } else {
        47
    }
}

/// The full ANSI escape a color name designates, white when unknown.
pub open spec fn spec_ansi_color(name: Seq<char>) -> Seq<char> {
    "\x1b["@ + spec_dec(spec_ansi_fg_code(name) as nat) + "m"@
}

/// The ANSI foreground escape sequence for a color name.
pub fn ansi_color(name: &str) -> (r: String)
    ensures
        r@ == spec_ansi_color(name@),
{
    let code = ansi_fg_code(name);
    let mut r = String::from_str("\x1b[");
    let digits = u64_dec_string(code as u64);
    r.append(digits.as_str());
    r.append("m");
    proof {
        assert(r@ =~= spec_ansi_color(name@));
    }
    r
}

/// The badge foreground code of a level, or of its custom color.
pub open spec fn spec_fg_code(level: u8, custom: Option<Seq<char>>) -> u8 {
    match custom {
        Some(name) => spec_ansi_fg_code(name),
        None => if level == 0 {
            90
        } else if level == 1 {
            34
        } else if level == 2 {
            32
        } else if level == 3 {
            93
        } else if level == 4 {
            91
        } else {
            32
        },
    }
}

/// Badge foreground code by level or custom color.
pub fn fg_code(level: u8, custom_color: Option<&str>) -> (r: u8)
    ensures
        r == spec_fg_code(level, opt_view(custom_color)),
{
    match custom_color {
        Some(name) => ansi_fg_code(name),
        None => match level {
            0 => 90,
            1 => 34,
            2 => 32,
            3 => 93,
            4 => 91,
            _ => 32,
        },
    }
}

/// The badge background code of a level, or of its custom color.
pub open spec fn spec_bg_code(level: u8, custom: Option<Seq<char>>) -> u8 {
    match custom {
        Some(name) => spec_ansi_bg_code(name),
        None => if level == 0 {
            100
        } else if level == 1 {
            44
        } else if level == 2 {
            42
        } else if level == 3 {
            103
        } else if level == 4 {
            101
        } else {
            42
        },
    }
}

/// Badge background code by level or custom color.
pub fn bg_code(level: u8, custom_color: Option<&str>) -> (r: u8)
    ensures
        r == spec_bg_code(level, opt_view(custom_color)),
{
    match custom_color {
        Some(name) => ansi_bg_code(name),
        None => match level {
            0 => 100,
            1 => 44,
            2 => 42,
            3 => 103,
            4 => 101,
            _ => 42,
        },
    }
}

/// The level badge: the name on its background color, then a half-block in
/// the badge color against the terminal's own background.
pub open spec fn spec_badge(level: u8, level_name: Seq<char>, custom: Option<Seq<char>>) -> Seq<
    char,
> {
    "\x1b[0;30;"@ + spec_dec(spec_bg_code(level, custom) as nat) + ";1m "@ + level_name
        + " \x1b[0;"@ + spec_dec(spec_fg_code(level, custom) as nat) + ";49m▐\x1b[0;39m "@
}

/// Renders the badge of a level.
pub fn badge(level: u8, level_name: &str, custom_color: Option<&str>) -> (r: String)
    ensures
        r@ == spec_badge(level, level_name@, opt_view(custom_color)),
{
    let bg = bg_code(level, custom_color);
    let fg = fg_code(level, custom_color);
    let mut r = String::from_str("\x1b[0;30;");
    let bg_digits = u64_dec_string(bg as u64);
    r.append(bg_digits.as_str());
    r.append(";1m ");
    r.append(level_name);
    r.append(" \x1b[0;");
    let fg_digits = u64_dec_string(fg as u64);
    r.append(fg_digits.as_str());
    r.append(";49m▐\x1b[0;39m ");
    proof {
        assert(r@ =~= spec_badge(level, level_name@, opt_view(custom_color)));
    }
    r
}

/// The display name of a numeric level, padded to the badge width.
pub open spec fn spec_level_name(level: u8) -> Seq<char> {
    if level == 0 {
        "TRACE"@
    } else if level == 1 {
        "DEBUG"@
    } else if level == 2 {
        "INFO "@
    } else if level == 3 {
        "WARN "@
    } else if level == 4 {
        "ERROR"@
    } else {
        "CUSTOM"@
    }
}

/// Display name of a numeric level.
pub fn level_name(level: u8) -> (r: &'static str)
    ensures
        r@ == spec_level_name(level),
{
    match level {
        0 => "TRACE",
        1 => "DEBUG",
        2 => "INFO ",
        3 => "WARN ",
        4 => "ERROR",
        _ => "CUSTOM",
    }
}

/// The numeric level a name designates; unknown names sit above `ERROR`.
pub open spec fn spec_level_name_to_num(name: Seq<char>) -> u8 {
    let low = spec_ascii_lower(name);
    if low == "trace"@ {
        0
    } else if low == "debug"@ {
        1
    } else if low == "info"@ {
        2
    } else if low == "warn"@ || low == "warning"@ {
        3
    } else if low == "error"@ {
        4
    } else {
        5
    }
}

/// Numeric level by name, ASCII case-insensitive.
pub fn level_name_to_num(name: &str) -> (r: u8)
    ensures
        r == spec_level_name_to_num(name@),
{
    let low = ascii_lower(name);
    if low == String::from_str("trace") {
        0
    } else if low == String::from_str("debug") {
        1
    } else if low == String::from_str("info") {
        2
    } else if low == String::from_str("warn") || low == String::from_str("warning") {
        3
    } else if low == String::from_str("error") {
        4
    } else {
        5
    }
}

/// Whether a level reaches the terminal.
pub fn should_log_terminal(config: &LogConfig, level: u8) -> (r: bool)
    ensures
        r == (level >= config.terminal_level),
{
    level >= config.terminal_level
}

/// Whether a level reaches the log file.
pub fn should_log_file(config: &LogConfig, level: u8) -> (r: bool)
    ensures
        r == (level >= config.file_level),
{
    level >= config.file_level
}

/// The log file: the explicitly set path, or `wrun_<name>.log` beside the
/// script, or nothing when neither is configured.
pub open spec fn spec_log_file_path(config: LogConfig) -> Option<Seq<char>> {
    match config.file_path {
        Some(p) => Some(p@),
        None => match config.script_dir {
            Some(d) => Some(
                d@ + "/wrun_"@ + (match config.script_name {
                    Some(n) => n@,
                    None => "script"@,
                }) + ".log"@,
            ),
            None => None,
        },
    }
}

/// Where log lines are appended, if anywhere.
pub fn get_log_file_path(config: &LogConfig) -> (r: Option<String>)
    ensures
        opt_string_view(r) == spec_log_file_path(*config),
{
    match &config.file_path {
        Some(p) => Some(p.clone()),
        None => match &config.script_dir {
            Some(d) => {
                let mut r = d.clone();
                r.append("/wrun_");
                match &config.script_name {
                    Some(n) => r.append(n.as_str()),
                    None => r.append("script"),
                };
                r.append(".log");
                proof {
                    assert(r@ =~= match spec_log_file_path(*config) {
                        Some(s) => s,
                        None => Seq::<char>::empty(),
                    });
                }
                Some(r)
            },
            None => None,
        },
    }
}


/// One key-value pair, colored: the key and `=` are dimmed, the value takes
/// the accent color; a pair without `=` is dimmed whole.
pub open spec fn spec_format_pair(p: Seq<char>, fg: u8) -> Seq<char> {
    let i = spec_char_at(p, '=');
    if i < p.len() {
        "\x1b[0;39;2m"@ + p.take(i as int) + "=\x1b[0;"@ + spec_dec(fg as nat) + "m"@ + p.skip(
            i as int + 1,
        ) + "\x1b[0m"@
    } else {
        "\x1b[0;39;2m"@ + p + "\x1b[0m"@
    }
}

/// Renders one key-value pair with the accent color `fg`.
pub fn format_pair(p: &str, fg: u8) -> (r: String)
    ensures
        r@ == spec_format_pair(p@, fg),
{
    let v = chars_vec(p);
    let n = v.len();
    match find_char(&v, '=') {
        Some(i) => {
            let mut r = String::from_str("\x1b[0;39;2m");
            r.append(p.substring_char(0, i));
            r.append("=\x1b[0;");
            let digits = u64_dec_string(fg as u64);
            r.append(digits.as_str());
            r.append("m");
            r.append(p.substring_char(i + 1, n));
            r.append("\x1b[0m");
            proof {
                assert(p@.subrange(0, i as int) =~= p@.take(i as int));
                assert(p@.subrange(i + 1, n as int) =~= p@.skip(i as int + 1));
                assert(r@ =~= spec_format_pair(p@, fg));
            }
            r
        },
        None => {
            let mut r = String::from_str("\x1b[0;39;2m");
            r.append(p);
            r.append("\x1b[0m");
            proof {
                assert(r@ =~= spec_format_pair(p@, fg));
            }
            r
        },
    }
}

/// Non-empty pieces of a NUL-separated key-value string.
pub open spec fn spec_kv_parts(kv: Seq<char>) -> Seq<Seq<char>> {
    spec_nonempty_parts(spec_split_char(kv, '\0'))
}

/// The colored key-value suffix of a log line: empty for no pairs, otherwise
/// a leading space and the rendered pairs joined by spaces.
pub open spec fn spec_format_kv(kv: Seq<char>, fg: u8) -> Seq<char> {
    if kv.len() == 0 {
        Seq::<char>::empty()
    } else {
        let parts = spec_kv_parts(kv);
        if parts.len() == 0 {
            Seq::<char>::empty()
        } else {
            seq![' '] + spec_join(parts.map_values(|p: Seq<char>| spec_format_pair(p, fg)), " "@)
        }
    }
}

/// The plain key-value suffix of a file log line.
pub open spec fn spec_format_kv_plain(kv: Seq<char>) -> Seq<char> {
    if kv.len() == 0 {
        Seq::<char>::empty()
    } else {
        let parts = spec_kv_parts(kv);
        if parts.len() == 0 {
            Seq::<char>::empty()
        } else {
            seq![' '] + spec_join(parts, " "@)
        }
    }
}

/// The non-empty pieces of the NUL-separated pair string, as owned strings.
fn kv_parts(kv: &str) -> (r: Vec<String>)
    ensures
        r.deep_view() == spec_kv_parts(kv@),
{
    let pieces = split_char_str(kv, '\0');
    let r = nonempty_from(&pieces, 0);
    proof {
        assert(pieces.deep_view().skip(0) =~= pieces.deep_view());
    }
    r
}

/// Renders the colored key-value suffix.
pub fn format_kv(kv: &str, fg: u8) -> (r: String)
    ensures
        r@ == spec_format_kv(kv@, fg),
{
    if kv.is_empty() {
        return String::new();
    }
    let parts = kv_parts(kv);
    if parts.len() == 0 {
        return String::new();
    }
    let mut rendered: Vec<String> = Vec::new();
    let mut i: usize = 0;
    while i < parts.len()
        invariant
            i <= parts@.len(),
            rendered@.len() == i,
            forall|j: int| 0 <= j < i ==> #[trigger] rendered@[j]@ == spec_format_pair(
                parts.deep_view()[j],
                fg,
            ),
        decreases parts@.len() - i,
    {
        rendered.push(format_pair(parts[i].as_str(), fg));
        i = i + 1;
    }
    let mut r = String::from_str(" ");
    let joined = join_with(&rendered, " ");
    r.append(joined.as_str());
    proof {
        reveal_strlit(" ");
        assert(" "@ =~= seq![' ']);
        assert(rendered.deep_view() =~= spec_kv_parts(kv@).map_values(
            |p: Seq<char>| spec_format_pair(p, fg),
        ));
        assert(r@ =~= spec_format_kv(kv@, fg));
    }
    r
}

/// Renders the plain key-value suffix.
pub fn format_kv_plain(kv: &str) -> (r: String)
    ensures
        r@ == spec_format_kv_plain(kv@),
{
    if kv.is_empty() {
        return String::new();
    }
    let parts = kv_parts(kv);
    if parts.len() == 0 {
        return String::new();
    }
    let mut r = String::from_str(" ");
    let joined = join_with(&parts, " ");
    r.append(joined.as_str());
    proof {
        reveal_strlit(" ");
        assert(" "@ =~= seq![' ']);
        assert(r@ =~= spec_format_kv_plain(kv@));
    }
    r
}

/// The first custom level whose name matches, ASCII case-insensitively.
pub open spec fn spec_find_custom(levels: Seq<CustomLevel>, name: Seq<char>) -> Option<CustomLevel>
    decreases levels.len(),
{
    if levels.len() == 0 {
        None
    } else if spec_ascii_lower(levels[0].name@) == spec_ascii_lower(name) {
        Some(levels[0])
    } else {
        spec_find_custom(levels.drop_first(), name)
    }
}

fn find_custom_from(config: &LogConfig, name: &str, i: usize) -> (r: Option<CustomLevel>)
    requires
        i <= config.custom_levels@.len(),
    ensures
        r == spec_find_custom(config.custom_levels@.skip(i as int), name@),
    decreases config.custom_levels@.len() - i,
{
    if i == config.custom_levels.len() {
        proof {
            assert(config.custom_levels@.skip(i as int) =~= Seq::<CustomLevel>::empty());
        }
        None
    } else {
        proof {
            assert(config.custom_levels@.skip(i as int)[0] == config.custom_levels@[i as int]);
            assert(config.custom_levels@.skip(i as int).drop_first() =~= config.custom_levels@.skip(
                i as int + 1,
            ));
        }
        let c = &config.custom_levels[i];
        if eq_ignore_ascii_case(c.name.as_str(), name) {
            Some(
                CustomLevel {
                    name: c.name.clone(),
                    color_name: c.color_name.clone(),
                    priority: c.priority,
                },
            )
        } else {
            find_custom_from(config, name, i + 1)
        }
    }
}

/// The first custom level whose name matches `name`, ignoring ASCII case.
pub fn find_custom_level(config: &LogConfig, name: &str) -> (r: Option<CustomLevel>)
    ensures
        r == spec_find_custom(config.custom_levels@, name@),
{
    let r = find_custom_from(config, name, 0);
    proof {
        assert(config.custom_levels@.skip(0) =~= config.custom_levels@);
    }
    r
}

/// A level name padded to the badge width with trailing spaces.
pub open spec fn spec_pad5(s: Seq<char>) -> Seq<char> {
    s + spec_repeat_char(' ', 5 - s.len())
}

/// Pads a name to the badge width.
pub fn pad5(s: &str) -> (r: String)
    ensures
        r@ == spec_pad5(s@),
{
    let n = s.unicode_len();
    let mut r = String::from_str(s);
    if n < 5 {
        let pad = repeat_char(' ', 5 - n);
        r.append(pad.as_str());
    }
    proof {
        assert(r@ =~= spec_pad5(s@));
    }
    r
}

/// What a level name resolves to: the priority, the padded display name, and
/// the custom color if one is registered.
pub open spec fn spec_resolve(config: LogConfig, name: Seq<char>) -> (u8, Seq<char>, Option<
    Seq<char>,
>) {
    let low = spec_ascii_lower(name);
    if low == "trace"@ {
        (0u8, spec_level_name(0), None)
    } else if low == "debug"@ {
        (1u8, spec_level_name(1), None)
    } else if low == "info"@ {
        (2u8, spec_level_name(2), None)
    } else if low == "warn"@ || low == "warning"@ {
        (3u8, spec_level_name(3), None)
    } else if low == "error"@ {
        (4u8, spec_level_name(4), None)
    } else {
        match spec_find_custom(config.custom_levels@, name) {
            Some(c) => (c.priority, spec_pad5(spec_ascii_upper(c.name@)), Some(c.color_name@)),
            None => (5u8, spec_pad5(spec_ascii_upper(name)), None),
        }
    }
}

/// Resolves a level name to its priority, padded display name, and custom
/// color.
pub fn resolve_level(config: &LogConfig, name: &str) -> (r: (u8, String, Option<String>))
    ensures
        r.0 == spec_resolve(*config, name@).0,
        r.1@ == spec_resolve(*config, name@).1,
        opt_string_view(r.2) == spec_resolve(*config, name@).2,
{
    let low = ascii_lower(name);
    if low == String::from_str("trace") {
        (0, String::from_str("TRACE"), None)
    } else if low == String::from_str("debug") {
        (1, String::from_str("DEBUG"), None)
    } else if low == String::from_str("info") {
        (2, String::from_str("INFO "), None)
    } else if low == String::from_str("warn") || low == String::from_str("warning") {
        (3, String::from_str("WARN "), None)
    } else if low == String::from_str("error") {
        (4, String::from_str("ERROR"), None)
    } else {
        match find_custom_level(config, name) {
            Some(c) => {
                let upper = ascii_upper(c.name.as_str());
                (c.priority, pad5(upper.as_str()), Some(c.color_name))
            },
            None => {
                let upper = ascii_upper(name);
                (5, pad5(upper.as_str()), None)
            },
        }
    }
}

/// Registers (or replaces) a custom level: any same-named level goes away,
/// and the new one is appended.  An empty base level sits above `ERROR`.
pub fn add_level(config: &mut LogConfig, name: String, color: String, base_level: &str)
    ensures
        final(config).script_dir == old(config).script_dir,
        final(config).script_name == old(config).script_name,
        final(config).file_path == old(config).file_path,
        final(config).terminal_level == old(config).terminal_level,
        final(config).file_level == old(config).file_level,
        final(config).custom_levels@ == spec_remove_level(
            old(config).custom_levels@,
            name@,
        ).push(
            CustomLevel {
                name: name,
                color_name: color,
                priority: if base_level@.len() == 0 {
                    5u8
                } else {
                    spec_level_name_to_num(base_level@)
                },
            },
        ),
{
    let priority: u8 = if base_level.is_empty() {
        5
    } else {
        level_name_to_num(base_level)
    };
    let mut kept = remove_level_from(&config.custom_levels, name.as_str(), 0);
    proof {
        assert(config.custom_levels@.skip(0) =~= config.custom_levels@);
    }
    kept.push(CustomLevel { name, color_name: color, priority });
    config.custom_levels = kept;
}

/// The levels of `levels` whose names differ from `name`, ASCII
/// case-insensitively, in order.
pub open spec fn spec_remove_level(levels: Seq<CustomLevel>, name: Seq<char>) -> Seq<CustomLevel>
    decreases levels.len(),
{
    if levels.len() == 0 {
        Seq::<CustomLevel>::empty()
    } else if spec_ascii_lower(levels[0].name@) != spec_ascii_lower(name) {
        seq![levels[0]] + spec_remove_level(levels.drop_first(), name)
    } else {
        spec_remove_level(levels.drop_first(), name)
    }
}

fn remove_level_from(levels: &Vec<CustomLevel>, name: &str, i: usize) -> (r: Vec<CustomLevel>)
    requires
        i <= levels@.len(),
    ensures
        r@ == spec_remove_level(levels@.skip(i as int), name@),
    decreases levels@.len() - i,
{
    if i == levels.len() {
        proof {
            assert(levels@.skip(i as int) =~= Seq::<CustomLevel>::empty());
        }
        Vec::new()
    } else {
        proof {
            assert(levels@.skip(i as int)[0] == levels@[i as int]);
            assert(levels@.skip(i as int).drop_first() =~= levels@.skip(i as int + 1));
        }
        let mut rest = remove_level_from(levels, name, i + 1);
        let c = &levels[i];
        if !eq_ignore_ascii_case(c.name.as_str(), name) {
            let mut r: Vec<CustomLevel> = Vec::new();
            r.push(
                CustomLevel {
                    name: c.name.clone(),
                    color_name: c.color_name.clone(),
                    priority: c.priority,
                },
            );
            r.append(&mut rest);
            proof {
                assert(r@ =~= spec_remove_level(levels@.skip(i as int), name@));
            }
            r
        } else {
            rest
        }
    }
}


/// Relies on chrono's `Local::now` and `format("%H:%M")`: the wall clock as
/// five characters, hours and minutes.
#[verifier::external_body]
fn now_clock_short() -> (r: String)
    ensures
        r@.len() == 5,
{
    chrono::Local::now().format("%H:%M").to_string()
}

/// Relies on chrono's `Local::now` and `format("%H:%M %d-%m-%y")`: the wall
/// clock and date as fourteen characters.
#[verifier::external_body]
fn now_clock_stamp() -> (r: String)
    ensures
        r@.len() == 14,
{
    chrono::Local::now().format("%H:%M %d-%m-%y").to_string()
}

/// One terminal log line (without its trailing newline): badge, dimmed
/// clock, message, colored key-value pairs, final reset.
pub open spec fn spec_terminal_line(
    level: u8,
    level_str: Seq<char>,
    msg: Seq<char>,
    kv: Seq<char>,
    custom: Option<Seq<char>>,
    t: Seq<char>,
) -> Seq<char> {
    spec_badge(level, level_str, custom) + "\x1b[0;39;2m"@ + t + "\x1b[0;39m  "@ + msg
        + spec_format_kv(kv, spec_fg_code(level, custom)) + "\x1b[0m"@
}

/// One file log line: timestamp, level, message, plain key-value pairs, and
/// the newline.
pub open spec fn spec_file_line(
    level_str: Seq<char>,
    msg: Seq<char>,
    kv: Seq<char>,
    t: Seq<char>,
) -> Seq<char> {
    t + " "@ + level_str + " "@ + msg + spec_format_kv_plain(kv) + "\n"@
}

/// Renders one terminal log line for clock reading `t`.
fn terminal_line(
    level: u8,
    level_str: &str,
    msg: &str,
    kv: &str,
    custom: Option<&str>,
    t: &str,
) -> (r: String)
    ensures
        r@ == spec_terminal_line(level, level_str@, msg@, kv@, opt_view(custom), t@),
{
    let mut r = badge(level, level_str, custom);
    r.append("\x1b[0;39;2m");
    r.append(t);
    r.append("\x1b[0;39m  ");
    r.append(msg);
    let fg = fg_code(level, custom);
    let kv_rendered = format_kv(kv, fg);
    r.append(kv_rendered.as_str());
    r.append("\x1b[0m");
    proof {
        assert(r@ =~= spec_terminal_line(level, level_str@, msg@, kv@, opt_view(custom), t@));
    }
    r
}

/// Renders one file log line for clock reading `t`.
fn file_line(level_str: &str, msg: &str, kv: &str, t: &str) -> (r: String)
    ensures
        r@ == spec_file_line(level_str@, msg@, kv@, t@),
{
    let mut r = String::from_str(t);
    r.append(" ");
    r.append(level_str);
    r.append(" ");
    r.append(msg);
    let kv_rendered = format_kv_plain(kv);
    r.append(kv_rendered.as_str());
    r.append("\n");
    proof {
        assert(r@ =~= spec_file_line(level_str@, msg@, kv@, t@));
    }
    r
}

/// What one log call asks the host to write: a terminal line (when the level
/// reaches the terminal) and a file line with the path to append it to (when
/// the level reaches the file and a path is configured).
pub struct LogOutput {
    pub terminal: Option<String>,
    pub file: Option<(String, String)>,
}

/// The exact relation of one log call, for clock readings `tt` and `tf`.
pub open spec fn log_line_post(
    cfg: LogConfig,
    level: u8,
    level_str: Seq<char>,
    msg: Seq<char>,
    kv: Seq<char>,
    custom: Option<Seq<char>>,
    tt: Seq<char>,
    tf: Seq<char>,
    out: LogOutput,
) -> bool {
    &&& tt.len() == 5
    &&& tf.len() == 14
    &&& match out.terminal {
        Some(t) => level >= cfg.terminal_level && t@ == spec_terminal_line(
            level,
            level_str,
            msg,
            kv,
            custom,
            tt,
        ),
        None => level < cfg.terminal_level,
    }
    &&& match out.file {
        Some((p, l)) => level >= cfg.file_level && Some(p@) == spec_log_file_path(cfg) && l@
            == spec_file_line(level_str, msg, kv, tf),
        None => level < cfg.file_level || spec_log_file_path(cfg) is None,
    }
}

/// The logging front end: it owns the configuration and composes, for every
/// log call, exactly what the host must write and where.
pub struct LogInternal {
    pub config: LogConfig,
}

impl LogInternal {
    /// `out` is what this logger writes for the given call, at some clock
    /// reading.
    pub open spec fn logged(
        self,
        level: u8,
        level_str: Seq<char>,
        msg: Seq<char>,
        kv: Seq<char>,
        custom: Option<Seq<char>>,
        out: LogOutput,
    ) -> bool {
        exists|tt: Seq<char>, tf: Seq<char>|
            #![auto]
            log_line_post(self.config, level, level_str, msg, kv, custom, tt, tf, out)
    }

    pub fn new() -> (l: LogInternal)
        ensures
            l.config.script_dir is None,
            l.config.script_name is None,
            l.config.file_path is None,
            l.config.terminal_level == 2,
            l.config.file_level == 1,
            l.config.custom_levels@ == Seq::<CustomLevel>::empty(),
    {
        LogInternal { config: LogConfig::default() }
    }

    fn log(&self, level: u8, level_str: &str, msg: &str, kv: &str, custom: Option<&str>) -> (out:
        LogOutput)
        ensures
            self.logged(level, level_str@, msg@, kv@, opt_view(custom), out),
    {
        let tt = now_clock_short();
        let tf = now_clock_stamp();
        let terminal = if should_log_terminal(&self.config, level) {
            Some(terminal_line(level, level_str, msg, kv, custom, tt.as_str()))
        } else {
            None
        };
        let file = if should_log_file(&self.config, level) {
            match get_log_file_path(&self.config) {
                Some(p) => Some((p, file_line(level_str, msg, kv, tf.as_str()))),
                None => None,
            }
        } else {
            None
        };
        let out = LogOutput { terminal, file };
        proof {
            assert(log_line_post(
                self.config,
                level,
                level_str@,
                msg@,
                kv@,
                opt_view(custom),
                tt@,
                tf@,
                out,
            ));
        }
        out
    }

    pub fn trace(&self, msg: &str) -> (out: LogOutput)
        ensures
            self.logged(0, spec_level_name(0), msg@, ""@, None, out),
    {
        self.log(0, level_name(0), msg, "", None)
    }

    #[allow(non_snake_case)]
    pub fn traceKv(&self, msg: &str, kv: &str) -> (out: LogOutput)
        ensures
            self.logged(0, spec_level_name(0), msg@, kv@, None, out),
    {
        self.log(0, level_name(0), msg, kv, None)
    }

    pub fn debug(&self, msg: &str) -> (out: LogOutput)
        ensures
            self.logged(1, spec_level_name(1), msg@, ""@, None, out),
    {
        self.log(1, level_name(1), msg, "", None)
    }

    #[allow(non_snake_case)]
    pub fn debugKv(&self, msg: &str, kv: &str) -> (out: LogOutput)
        ensures
            self.logged(1, spec_level_name(1), msg@, kv@, None, out),
    {
        self.log(1, level_name(1), msg, kv, None)
    }

    pub fn info(&self, msg: &str) -> (out: LogOutput)
        ensures
            self.logged(2, spec_level_name(2), msg@, ""@, None, out),
    {
        self.log(2, level_name(2), msg, "", None)
    }

    #[allow(non_snake_case)]
    pub fn infoKv(&self, msg: &str, kv: &str) -> (out: LogOutput)
        ensures
            self.logged(2, spec_level_name(2), msg@, kv@, None, out),
    {
        self.log(2, level_name(2), msg, kv, None)
    }

    pub fn warn(&self, msg: &str) -> (out: LogOutput)
        ensures
            self.logged(3, spec_level_name(3), msg@, ""@, None, out),
    {
        self.log(3, level_name(3), msg, "", None)
    }

    #[allow(non_snake_case)]
    pub fn warnKv(&self, msg: &str, kv: &str) -> (out: LogOutput)
        ensures
            self.logged(3, spec_level_name(3), msg@, kv@, None, out),
    {
        self.log(3, level_name(3), msg, kv, None)
    }

    pub fn error(&self, msg: &str) -> (out: LogOutput)
        ensures
            self.logged(4, spec_level_name(4), msg@, ""@, None, out),
    {
        self.log(4, level_name(4), msg, "", None)
    }

    #[allow(non_snake_case)]
    pub fn errorKv(&self, msg: &str, kv: &str) -> (out: LogOutput)
        ensures
            self.logged(4, spec_level_name(4), msg@, kv@, None, out),
    {
        self.log(4, level_name(4), msg, kv, None)
    }

    /// Logs at a named level: a registered custom level brings its priority
    /// and color; an unknown name logs above `ERROR` under its own name.
    pub fn custom(&self, level_name_str: &str, msg: &str) -> (out: LogOutput)
        ensures
            match spec_find_custom(self.config.custom_levels@, level_name_str@) {
                Some(c) => self.logged(
                    c.priority,
                    spec_pad5(spec_ascii_upper(c.name@)),
                    msg@,
                    ""@,
                    Some(c.color_name@),
                    out,
                ),
                None => self.logged(
                    5,
                    spec_pad5(spec_ascii_upper(level_name_str@)),
                    msg@,
                    ""@,
                    None,
                    out,
                ),
            },
    {
        self.customKv(level_name_str, msg, "")
    }

    /// As [`Self::custom`], with key-value pairs.
    #[allow(non_snake_case)]
    pub fn customKv(&self, level_name_str: &str, msg: &str, kv: &str) -> (out: LogOutput)
        ensures
            match spec_find_custom(self.config.custom_levels@, level_name_str@) {
                Some(c) => self.logged(
                    c.priority,
                    spec_pad5(spec_ascii_upper(c.name@)),
                    msg@,
                    kv@,
                    Some(c.color_name@),
                    out,
                ),
                None => self.logged(
                    5,
                    spec_pad5(spec_ascii_upper(level_name_str@)),
                    msg@,
                    kv@,
                    None,
                    out,
                ),
            },
    {
        match find_custom_level(&self.config, level_name_str) {
            Some(c) => {
                let upper = ascii_upper(c.name.as_str());
                let padded = pad5(upper.as_str());
                self.log(c.priority, padded.as_str(), msg, kv, Some(c.color_name.as_str()))
            },
            None => {
                let upper = ascii_upper(level_name_str);
                let padded = pad5(upper.as_str());
                self.log(5, padded.as_str(), msg, kv, None)
            },
        }
    }

    /// `r` is the live line this logger shows for the given call, at some
    /// clock reading — or nothing, below the terminal level.
    pub open spec fn lived(
        self,
        level: u8,
        level_str: Seq<char>,
        msg: Seq<char>,
        kv: Seq<char>,
        custom: Option<Seq<char>>,
        r: Option<String>,
    ) -> bool {
        if level >= self.config.terminal_level {
            match r {
                Some(line) => exists|tt: Seq<char>|
                    #![auto]
                    tt.len() == 5 && line@ == spec_terminal_line(
                        level,
                        level_str,
                        msg,
                        kv,
                        custom,
                        tt,
                    ),
                None => false,
            }
        } else {
            r is None
        }
    }

    /// The in-place ("live") variant of a named-level log: the composed
    /// terminal line, for the host to show on the current line.
    pub fn live(&self, level_name_str: &str, msg: &str) -> (r: Option<String>)
        ensures
            self.lived(
                spec_resolve(self.config, level_name_str@).0,
                spec_resolve(self.config, level_name_str@).1,
                msg@,
                ""@,
                spec_resolve(self.config, level_name_str@).2,
                r,
            ),
    {
        self.liveKv(level_name_str, msg, "")
    }

    /// As [`Self::live`], with key-value pairs.
    #[allow(non_snake_case)]
    pub fn liveKv(&self, level_name_str: &str, msg: &str, kv: &str) -> (r: Option<String>)
        ensures
            self.lived(
                spec_resolve(self.config, level_name_str@).0,
                spec_resolve(self.config, level_name_str@).1,
                msg@,
                kv@,
                spec_resolve(self.config, level_name_str@).2,
                r,
            ),
    {
        let resolved = resolve_level(&self.config, level_name_str);
        let level = resolved.0;
        let level_str = resolved.1;
        let custom = resolved.2;
        if !should_log_terminal(&self.config, level) {
            return None;
        }
        let tt = now_clock_short();
        let line = match &custom {
            Some(c) => terminal_line(
                level,
                level_str.as_str(),
                msg,
                kv,
                Some(c.as_str()),
                tt.as_str(),
            ),
            None => terminal_line(level, level_str.as_str(), msg, kv, None, tt.as_str()),
        };
        Some(line)
    }

    /// Sets the log file path.
    #[allow(non_snake_case)]
    pub fn setFile(&mut self, path: String)
        ensures
            final(self).config.file_path == Some(path),
            final(self).config.script_dir == old(self).config.script_dir,
            final(self).config.script_name == old(self).config.script_name,
            final(self).config.terminal_level == old(self).config.terminal_level,
            final(self).config.file_level == old(self).config.file_level,
            final(self).config.custom_levels@ == old(self).config.custom_levels@,
    {
        self.config.file_path = Some(path);
    }

    /// Sets the minimum level that reaches the terminal, by name.
    #[allow(non_snake_case)]
    pub fn setTerminalLevel(&mut self, level: &str)
        ensures
            final(self).config.terminal_level == spec_level_name_to_num(level@),
            final(self).config.script_dir == old(self).config.script_dir,
            final(self).config.script_name == old(self).config.script_name,
            final(self).config.file_path == old(self).config.file_path,
            final(self).config.file_level == old(self).config.file_level,
            final(self).config.custom_levels@ == old(self).config.custom_levels@,
    {
        self.config.terminal_level = level_name_to_num(level);
    }

    /// Sets the minimum level that reaches the log file, by name.
    #[allow(non_snake_case)]
    pub fn setFileLevel(&mut self, level: &str)
        ensures
            final(self).config.file_level == spec_level_name_to_num(level@),
            final(self).config.script_dir == old(self).config.script_dir,
            final(self).config.script_name == old(self).config.script_name,
            final(self).config.file_path == old(self).config.file_path,
            final(self).config.terminal_level == old(self).config.terminal_level,
            final(self).config.custom_levels@ == old(self).config.custom_levels@,
    {
        self.config.file_level = level_name_to_num(level);
    }

    /// Registers (or replaces) a custom level.
    #[allow(non_snake_case)]
    pub fn addLevel(&mut self, name: String, color: String, base_level: &str)
        ensures
            final(self).config.script_dir == old(self).config.script_dir,
            final(self).config.script_name == old(self).config.script_name,
            final(self).config.file_path == old(self).config.file_path,
            final(self).config.terminal_level == old(self).config.terminal_level,
            final(self).config.file_level == old(self).config.file_level,
            final(self).config.custom_levels@ == spec_remove_level(
                old(self).config.custom_levels@,
                name@,
            ).push(
                CustomLevel {
                    name: name,
                    color_name: color,
                    priority: if base_level@.len() == 0 {
                        5u8
                    } else {
                        spec_level_name_to_num(base_level@)
                    },
                },
            ),
    {
        add_level(&mut self.config, name, color, base_level);
    }
}

/// What one print call asks the host to write to stdout and stderr.
pub struct TermOut {
    pub out: Option<String>,
    pub err: Option<String>,
}

/// The terminal front end: it tracks whether a live (in-place) line is
/// showing and composes exactly what each print call writes.
pub struct PrintInternal {
    live_active: bool,
}

impl PrintInternal {
    /// Whether a live line is currently showing.
    pub closed spec fn spec_live(&self) -> bool {
        self.live_active
    }

    pub fn new() -> (p: PrintInternal)
        ensures
            !p.spec_live(),
    {
        PrintInternal { live_active: false }
    }

    /// The clear-line prefix: carriage return and erase, plus a newline when
    /// the live line is to be kept as a finished line.
    pub open spec fn spec_clear(newline: bool) -> Seq<char> {
        "\r\x1b[2K"@ + if newline {
            "\n"@
        } else {
            Seq::<char>::empty()
        }
    }

    /// Wipes any live line: answers the control text to write, or nothing
    /// when no live line is showing.
    pub fn clear_live_line(&mut self, newline: bool) -> (pre: Option<String>)
        ensures
            !final(self).spec_live(),
            match pre {
                Some(s) => old(self).spec_live() && s@ == Self::spec_clear(newline),
                None => !old(self).spec_live(),
            },
    {
        if self.live_active {
            self.live_active = false;
            let mut s = String::from_str("\r\x1b[2K");
            if newline {
                s.append("\n");
            }
            proof {
                assert(s@ =~= Self::spec_clear(newline));
            }
            Some(s)
        } else {
            None
        }
    }

    /// The optional clear prefix of a normal print.
    pub open spec fn spec_pre(live: bool) -> Seq<char> {
        if live {
            Self::spec_clear(false)
        } else {
            Seq::<char>::empty()
        }
    }

    /// A message for stderr; any live line is wiped from stdout first.
    pub fn eprint(&mut self, msg: &str) -> (w: TermOut)
        ensures
            !final(self).spec_live(),
            match w.out {
                Some(s) => old(self).spec_live() && s@ == Self::spec_clear(false),
                None => !old(self).spec_live(),
            },
            match w.err {
                Some(e) => e@ == msg@ + "\n"@,
                None => false,
            },
    {
        let pre = self.clear_live_line(false);
        let mut e = String::from_str(msg);
        e.append("\n");
        TermOut { out: pre, err: Some(e) }
    }

    /// A green line for stdout, wiping any live line first.
    pub fn cprint(&mut self, msg: &str) -> (r: String)
        ensures
            !final(self).spec_live(),
            r@ == Self::spec_pre(old(self).spec_live()) + "\x1b[32m"@ + msg@ + "\x1b[0m\n"@,
    {
        let mut s = match self.clear_live_line(false) {
            Some(c) => c,
            None => String::new(),
        };
        s.append("\x1b[32m");
        s.append(msg);
        s.append("\x1b[0m\n");
        proof {
            assert(s@ =~= Self::spec_pre(old(self).spec_live()) + "\x1b[32m"@ + msg@
                + "\x1b[0m\n"@);
        }
        s
    }

    /// A line in the named color for stdout, wiping any live line first.
    #[allow(non_snake_case)]
    pub fn cprintColor(&mut self, msg: &str, color: &str) -> (r: String)
        ensures
            !final(self).spec_live(),
            r@ == Self::spec_pre(old(self).spec_live()) + spec_ansi_color(color@) + msg@
                + "\x1b[0m\n"@,
    {
        let mut s = match self.clear_live_line(false) {
            Some(c) => c,
            None => String::new(),
        };
        let code = ansi_color(color);
        s.append(code.as_str());
        s.append(msg);
        s.append("\x1b[0m\n");
        proof {
            assert(s@ =~= Self::spec_pre(old(self).spec_live()) + spec_ansi_color(color@) + msg@
                + "\x1b[0m\n"@);
        }
        s
    }

    /// Shows `msg` in place on the current line; a live line is then active.
    pub fn live(&mut self, msg: &str) -> (r: String)
        ensures
            final(self).spec_live(),
            r@ == Self::spec_clear(false) + msg@,
    {
        let mut s = String::from_str("\r\x1b[2K");
        s.append(msg);
        self.live_active = true;
        proof {
            assert(s@ =~= Self::spec_clear(false) + msg@);
        }
        s
    }

    /// Shows `msg` in place, in the named color.
    #[allow(non_snake_case)]
    pub fn liveColor(&mut self, msg: &str, color: &str) -> (r: String)
        ensures
            final(self).spec_live(),
            r@ == Self::spec_clear(false) + spec_ansi_color(color@) + msg@ + "\x1b[0m"@,
    {
        let mut s = String::from_str("\r\x1b[2K");
        let code = ansi_color(color);
        s.append(code.as_str());
        s.append(msg);
        s.append("\x1b[0m");
        self.live_active = true;
        proof {
            assert(s@ =~= Self::spec_clear(false) + spec_ansi_color(color@) + msg@ + "\x1b[0m"@);
        }
        s
    }

    /// Finishes the live line, keeping its text as a completed line.
    #[allow(non_snake_case)]
    pub fn liveDone(&mut self) -> (pre: Option<String>)
        ensures
            !final(self).spec_live(),
            match pre {
                Some(s) => old(self).spec_live() && s@ == Self::spec_clear(true),
                None => !old(self).spec_live(),
            },
    {
        self.clear_live_line(true)
    }
}

} // verus!
