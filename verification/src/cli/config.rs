//! `tuilab.yaml` project configuration: read strictly (unknown fields are
//! refused), with every absent field taking its documented default.

use vstd::prelude::*;

use crate::json::{field, JsonValue, JsonView};
use crate::protocol::actions::{
    pairs_view, read_string, read_string_list, read_string_map, read_u16, req_string, req_u16,
    string_list, string_map, strings_view, text, type_msg, wrong_type,
};
use crate::protocol::steps::{check_strict, names_view, strict_map};

verus! {

/// Project configuration.
#[derive(Debug, Clone, PartialEq)]
pub struct ProjectConfig {
    /// Config version.
    pub version: String,
    /// Directory holding `*.yaml` suites.
    pub tests_dir: String,
    /// Golden snapshots directory.
    pub snapshots_dir: String,
    /// Default terminal geometry.
    pub default_terminal: TerminalSize,
    /// Default per-wait timeout (`10s`).
    pub default_timeout: String,
    /// Parallel slots.
    pub parallel: usize,
    /// Report output paths.
    pub report: ReportPaths,
    /// Extra environment for children, in file order.
    pub env: Vec<(String, String)>,
    /// Security policy for the MCP server.
    pub security: SecurityPolicy,
}

/// Terminal geometry.
#[derive(Debug, Clone, Copy, PartialEq, Eq)]
pub struct TerminalSize {
    /// Columns.
    pub width: u16,
    /// Rows.
    pub height: u16,
}

/// Report output paths.
#[derive(Debug, Clone, PartialEq)]
pub struct ReportPaths {
    /// JSON results path.
    pub json: String,
    /// JUnit XML path.
    pub junit: String,
    /// HTML report path.
    pub html: String,
}

/// Security policy for the MCP server.
#[derive(Debug, Clone, PartialEq)]
pub struct SecurityPolicy {
    /// Regex allowlist for launched commands.
    pub allow_commands: Vec<String>,
}

impl Default for TerminalSize {
    fn default() -> (r: Self)
        ensures
            r.width == 120,
            r.height == 40,
    {
        TerminalSize { width: 120, height: 40 }
    }
}

impl Default for ReportPaths {
    fn default() -> (r: Self)
        ensures
            r.json@ == "reports/results.json"@,
            r.junit@ == "reports/junit.xml"@,
            r.html@ == "reports/index.html"@,
    {
        ReportPaths {
            json: text("reports/results.json"),
            junit: text("reports/junit.xml"),
            html: text("reports/index.html"),
        }
    }
}

impl Default for SecurityPolicy {
    fn default() -> (r: Self)
        ensures
            strings_view(r.allow_commands@) == seq!["./*"@],
    {
        let mut allow_commands: Vec<String> = Vec::new();
        allow_commands.push(text("./*"));
        assert(strings_view(allow_commands@) =~= seq!["./*"@]);
        SecurityPolicy { allow_commands }
    }
}

/// Default config version.
fn default_version() -> (r: String)
    ensures
        r@ == "1.0"@,
{
    text("1.0")
}

/// Default tests directory.
fn default_tests_dir() -> (r: String)
    ensures
        r@ == "tests"@,
{
    text("tests")
}

/// Default snapshots directory.
fn default_snapshots_dir() -> (r: String)
    ensures
        r@ == "tests/snapshots"@,
{
    text("tests/snapshots")
}

/// Default per-wait timeout.
fn default_timeout() -> (r: String)
    ensures
        r@ == "10s"@,
{
    text("10s")
}

/// Default parallel slots.
fn default_parallel() -> (r: usize)
    ensures
        r == 4,
{
    4
}

/// A configuration with texts as character sequences.
pub struct ConfigView {
    pub version: Seq<char>,
    pub tests_dir: Seq<char>,
    pub snapshots_dir: Seq<char>,
    pub default_terminal: (u16, u16),
    pub default_timeout: Seq<char>,
    pub parallel: usize,
    pub report: (Seq<char>, Seq<char>, Seq<char>),
    pub env: Seq<(Seq<char>, Seq<char>)>,
    pub allow_commands: Seq<Seq<char>>,
}

impl View for ProjectConfig {
    type V = ConfigView;

    open spec fn view(&self) -> ConfigView {
        ConfigView {
            version: self.version@,
            tests_dir: self.tests_dir@,
            snapshots_dir: self.snapshots_dir@,
            default_terminal: (self.default_terminal.width, self.default_terminal.height),
            default_timeout: self.default_timeout@,
            parallel: self.parallel,
            report: (self.report.json@, self.report.junit@, self.report.html@),
            env: pairs_view(self.env@),
            allow_commands: strings_view(self.security.allow_commands@),
        }
    }
}

/// The configuration used when `tuilab.yaml` is absent or blank.
pub open spec fn default_config() -> ConfigView {
    ConfigView {
        version: "1.0"@,
        tests_dir: "tests"@,
        snapshots_dir: "tests/snapshots"@,
        default_terminal: (120, 40),
        default_timeout: "10s"@,
        parallel: 4,
        report: ("reports/results.json"@, "reports/junit.xml"@, "reports/index.html"@),
        env: seq![],
        allow_commands: seq!["./*"@],
    }
}

impl Default for ProjectConfig {
    fn default() -> (r: Self)
        ensures
            r@ == default_config(),
    {
        let r = ProjectConfig {
            version: default_version(),
            tests_dir: default_tests_dir(),
            snapshots_dir: default_snapshots_dir(),
            default_terminal: TerminalSize::default(),
            default_timeout: default_timeout(),
            parallel: default_parallel(),
            report: ReportPaths::default(),
            env: Vec::new(),
            security: SecurityPolicy::default(),
        };
        assert(pairs_view(r.env@) =~= Seq::<(Seq<char>, Seq<char>)>::empty());
        r
    }
}

/// A string field with a default.
pub open spec fn string_or(v: JsonView, name: Seq<char>, default: Seq<char>) -> Result<Seq<char>, Seq<char>> {
    match field(v, name) {
        None => Ok(default),
        Some(_) => req_string(v, name),
    }
}

/// A `usize` field with a default.
pub open spec fn usize_or(v: JsonView, name: Seq<char>, default: usize) -> Result<usize, Seq<char>> {
    match field(v, name) {
        None => Ok(default),
        Some(JsonView::PosInt(n)) => if n <= usize::MAX {
            Ok(n as usize)
        } else {
            Err(type_msg(name, "usize"@))
        },
        Some(_) => Err(type_msg(name, "usize"@)),
    }
}

/// `default_terminal`: absent is 120x40; present needs both fields.
pub open spec fn config_terminal(v: JsonView) -> Result<(u16, u16), Seq<char>> {
    match field(v, "default_terminal"@) {
        None => Ok((120, 40)),
        Some(t) => match strict_map(t, seq!["width"@, "height"@]) {
            Err(e) => Err(e),
            Ok(_) => match req_u16(t, "width"@) {
                Err(e) => Err(e),
                Ok(w) => match req_u16(t, "height"@) {
                    Err(e) => Err(e),
                    Ok(h) => Ok((w, h)),
                },
            },
        },
    }
}

/// `report`: absent is the default paths; present needs all three.
pub open spec fn config_report(v: JsonView) -> Result<(Seq<char>, Seq<char>, Seq<char>), Seq<char>> {
    match field(v, "report"@) {
        None => Ok(("reports/results.json"@, "reports/junit.xml"@, "reports/index.html"@)),
        Some(r) => match strict_map(r, seq!["json"@, "junit"@, "html"@]) {
            Err(e) => Err(e),
            Ok(_) => match req_string(r, "json"@) {
                Err(e) => Err(e),
                Ok(j) => match req_string(r, "junit"@) {
                    Err(e) => Err(e),
                    Ok(u) => match req_string(r, "html"@) {
                        Err(e) => Err(e),
                        Ok(h) => Ok((j, u, h)),
                    },
                },
            },
        },
    }
}

/// `security`: absent allows `./*`; present without `allow_commands`
/// allows nothing.
pub open spec fn config_security(v: JsonView) -> Result<Seq<Seq<char>>, Seq<char>> {
    match field(v, "security"@) {
        None => Ok(seq!["./*"@]),
        Some(s) => match strict_map(s, seq!["allow_commands"@]) {
            Err(e) => Err(e),
            Ok(_) => string_list(s, "allow_commands"@),
        },
    }
}

/// The configuration a document tree describes, or the message refusing
/// it.
pub open spec fn config_of(v: JsonView) -> Result<ConfigView, Seq<char>> {
    match strict_map(
        v,
        seq![
            "version"@,
            "tests_dir"@,
            "snapshots_dir"@,
            "default_terminal"@,
            "default_timeout"@,
            "parallel"@,
            "report"@,
            "env"@,
            "security"@,
        ],
    ) {
        Err(e) => Err(e),
        Ok(_) => match string_or(v, "version"@, "1.0"@) {
            Err(e) => Err(e),
            Ok(version) => match string_or(v, "tests_dir"@, "tests"@) {
                Err(e) => Err(e),
                Ok(tests_dir) => match string_or(v, "snapshots_dir"@, "tests/snapshots"@) {
                    Err(e) => Err(e),
                    Ok(snapshots_dir) => match config_terminal(v) {
                        Err(e) => Err(e),
                        Ok(default_terminal) => match string_or(v, "default_timeout"@, "10s"@) {
                            Err(e) => Err(e),
                            Ok(default_timeout) => match usize_or(v, "parallel"@, 4) {
                                Err(e) => Err(e),
                                Ok(parallel) => match config_report(v) {
                                    Err(e) => Err(e),
                                    Ok(report) => match string_map(v, "env"@) {
                                        Err(e) => Err(e),
                                        Ok(env) => match config_security(v) {
                                            Err(e) => Err(e),
                                            Ok(allow_commands) => Ok(
                                                ConfigView {
                                                    version,
                                                    tests_dir,
                                                    snapshots_dir,
                                                    default_terminal,
                                                    default_timeout,
                                                    parallel,
                                                    report,
                                                    env,
                                                    allow_commands,
                                                },
                                            ),
                                        },
                                    },
                                },
                            },
                        },
                    },
                },
            },
        },
    }
}

/// `default_terminal` is read by field name: a configuration that reads
/// has the width of its `width` field and the height of its `height`
/// field, and 120x40 when it has no `default_terminal`.
pub proof fn lemma_config_terminal_fields(v: JsonView, t: JsonView, w: u16, h: u16)
    ensures
        config_of(v) is Ok && field(v, "default_terminal"@) == Some(t) && field(t, "width"@) == Some(
            JsonView::PosInt(w as u64),
        ) && field(t, "height"@) == Some(JsonView::PosInt(h as u64)) ==> config_of(v)->Ok_0.default_terminal
            == (w, h),
        config_of(v) is Ok && field(v, "default_terminal"@) is None ==> config_of(v)->Ok_0.default_terminal
            == (120u16, 40u16),
{
    if config_of(v) is Ok {
        assert(config_terminal(v) is Ok);
        assert(config_of(v)->Ok_0.default_terminal == config_terminal(v)->Ok_0);
    }
}

fn read_string_or(v: &JsonValue, name: &str, default: &str) -> (r: Result<String, String>)
    ensures
        match r {
            Ok(x) => string_or(v@, name@, default@) == Ok::<Seq<char>, Seq<char>>(x@),
            Err(m) => string_or(v@, name@, default@) == Err::<Seq<char>, Seq<char>>(m@),
        },
{
    match v.get(name) {
        None => Ok(text(default)),
        Some(_) => read_string(v, name),
    }
}

fn read_usize_or(v: &JsonValue, name: &str, default: usize) -> (r: Result<usize, String>)
    ensures
        match r {
            Ok(n) => usize_or(v@, name@, default) == Ok::<usize, Seq<char>>(n),
            Err(m) => usize_or(v@, name@, default) == Err::<usize, Seq<char>>(m@),
        },
{
    match v.get(name) {
        None => Ok(default),
        Some(JsonValue::PosInt(n)) => if *n as u128 <= usize::MAX as u128 {
            Ok(*n as usize)
        } else {
            Err(wrong_type(name, "usize"))
        },
        Some(_) => Err(wrong_type(name, "usize")),
    }
}

impl ProjectConfig {
    /// Read the configuration from the parsed `tuilab.yaml` tree.
    pub fn from_tree(doc: &JsonValue) -> (r: Result<ProjectConfig, String>)
        ensures
            match r {
                Ok(c) => config_of(doc@) == Ok::<ConfigView, Seq<char>>(c@),
                Err(m) => config_of(doc@) == Err::<ConfigView, Seq<char>>(m@),
            },
    {
        let allowed = [
            "version",
            "tests_dir",
            "snapshots_dir",
            "default_terminal",
            "default_timeout",
            "parallel",
            "report",
            "env",
            "security",
        ];
        assert(names_view(allowed@) =~= seq![
            "version"@,
            "tests_dir"@,
            "snapshots_dir"@,
            "default_terminal"@,
            "default_timeout"@,
            "parallel"@,
            "report"@,
            "env"@,
            "security"@,
        ]);
        match check_strict(doc, &allowed) {
            Ok(_) => {},
            Err(e) => return Err(e),
        }
        let version = match read_string_or(doc, "version", "1.0") {
            Ok(x) => x,
            Err(e) => return Err(e),
        };
        let tests_dir = match read_string_or(doc, "tests_dir", "tests") {
            Ok(x) => x,
            Err(e) => return Err(e),
        };
        let snapshots_dir = match read_string_or(doc, "snapshots_dir", "tests/snapshots") {
            Ok(x) => x,
            Err(e) => return Err(e),
        };
        let default_terminal = match doc.get("default_terminal") {
            None => TerminalSize::default(),
            Some(t) => {
                let keys = ["width", "height"];
                assert(names_view(keys@) =~= seq!["width"@, "height"@]);
                match check_strict(t, &keys) {
                    Ok(_) => {},
                    Err(e) => return Err(e),
                }
                let width = match read_u16(t, "width") {
                    Ok(x) => x,
                    Err(e) => return Err(e),
                };
                let height = match read_u16(t, "height") {
                    Ok(x) => x,
                    Err(e) => return Err(e),
                };
                TerminalSize { width, height }
            },
        };
        let default_timeout = match read_string_or(doc, "default_timeout", "10s") {
            Ok(x) => x,
            Err(e) => return Err(e),
        };
        let parallel = match read_usize_or(doc, "parallel", 4) {
            Ok(x) => x,
            Err(e) => return Err(e),
        };
        let report = match doc.get("report") {
            None => ReportPaths::default(),
            Some(r) => {
                let keys = ["json", "junit", "html"];
                assert(names_view(keys@) =~= seq!["json"@, "junit"@, "html"@]);
                match check_strict(r, &keys) {
                    Ok(_) => {},
                    Err(e) => return Err(e),
                }
                let json = match read_string(r, "json") {
                    Ok(x) => x,
                    Err(e) => return Err(e),
                };
                let junit = match read_string(r, "junit") {
                    Ok(x) => x,
                    Err(e) => return Err(e),
                };
                let html = match read_string(r, "html") {
                    Ok(x) => x,
                    Err(e) => return Err(e),
                };
                ReportPaths { json, junit, html }
            },
        };
        let env = match read_string_map(doc, "env") {
            Ok(x) => x,
            Err(e) => return Err(e),
        };
        let security = match doc.get("security") {
            None => SecurityPolicy::default(),
            Some(s) => {
                let keys = ["allow_commands"];
                assert(names_view(keys@) =~= seq!["allow_commands"@]);
                match check_strict(s, &keys) {
                    Ok(_) => {},
                    Err(e) => return Err(e),
                }
                match read_string_list(s, "allow_commands") {
                    Ok(allow_commands) => SecurityPolicy { allow_commands },
                    Err(e) => return Err(e),
                }
            },
        };
        Ok(
            ProjectConfig {
                version,
                tests_dir,
                snapshots_dir,
                default_terminal,
                default_timeout,
                parallel,
                report,
                env,
                security,
            },
        )
    }
}

/// Whether a config file's text is blank (then the defaults apply).
pub fn is_blank(text: &str) -> (r: bool)
    ensures
        r == (crate::text::trim(text@).len() == 0),
{
    let t = crate::text::trim_chars(crate::text::chars_of(text).as_slice());
    t.len() == 0
}

} // verus!
