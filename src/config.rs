//! The configuration record and its layered assembly: built-in defaults,
//! then the settings of a configuration file, then environment variables
//! named `MEOW_<FIELD>` (in any letter case), each layer overriding the one
//! before it field by field.
use vstd::prelude::*;
use crate::error::{AppError, AppResult};
use crate::text::{eq_ignore_case, int_text, matches_ci, parse_int_in, push_signed, same_text, signed_decimal};

verus! {

/// The configuration of one run.
#[derive(Debug, Clone)]
pub struct AppConfig {
    /// Server port.
    pub port: u16,
    /// Working path.
    pub path: String,
    /// Processing mode.
    pub mode: String,
    /// Time zone offset.
    pub zone: i32,
    /// Region name.
    pub area: String,
}

/// The mathematical value of an `AppConfig`.
pub struct ConfigView {
    pub port: u16,
    pub path: Seq<char>,
    pub mode: Seq<char>,
    pub zone: i32,
    pub area: Seq<char>,
}

impl View for AppConfig {
    type V = ConfigView;

    open spec fn view(&self) -> ConfigView {
        ConfigView {
            port: self.port,
            path: self.path@,
            mode: self.mode@,
            zone: self.zone,
            area: self.area@,
        }
    }
}

/// One key and its value, as a configuration source lists them.
#[derive(Debug, Clone)]
pub struct Setting {
    pub key: String,
    pub value: String,
}

/// The built-in configuration.
pub open spec fn default_view() -> ConfigView {
    ConfigView {
        port: 8000,
        path: "/home/foo/bar"@,
        mode: "happy mode"@,
        zone: 8,
        area: "Taipei"@,
    }
}

/// The environment variable that sets `field`, in lower case.
pub open spec fn env_name(field: Seq<char>) -> Seq<char> {
    "meow_"@ + field
}

/// The value of the last entry of a configuration file with key `field`.
pub open spec fn file_value(file: Seq<Setting>, field: Seq<char>) -> Option<Seq<char>>
    decreases file.len(),
{
    if file.len() == 0 {
        None
    } else if file.last().key@ == field {
        Some(file.last().value@)
    } else {
        file_value(file.drop_last(), field)
    }
}

/// The value of the last environment variable that names `field`.
pub open spec fn env_value(env: Seq<Setting>, field: Seq<char>) -> Option<Seq<char>>
    decreases env.len(),
{
    if env.len() == 0 {
        None
    } else if matches_ci(env.last().key@, env_name(field)) {
        Some(env.last().value@)
    } else {
        env_value(env.drop_last(), field)
    }
}

/// The text that the file and the environment give `field`, the
/// environment taking precedence; `None` where neither sets it.
pub open spec fn layered(file: Seq<Setting>, env: Seq<Setting>, field: Seq<char>) -> Option<
    Seq<char>,
> {
    match env_value(env, field) {
        Some(v) => Some(v),
        None => file_value(file, field),
    }
}

/// The text value of `field`, or `default` where no source sets it.
pub open spec fn text_field(
    file: Seq<Setting>,
    env: Seq<Setting>,
    field: Seq<char>,
    default: Seq<char>,
) -> Seq<char> {
    match layered(file, env, field) {
        Some(v) => v,
        None => default,
    }
}

/// The integer value of `field` within `lo..=hi`, `default` where no source
/// sets it, and `None` where the text set is no integer of that range.
pub open spec fn int_field(
    file: Seq<Setting>,
    env: Seq<Setting>,
    field: Seq<char>,
    default: int,
    lo: int,
    hi: int,
) -> Option<int> {
    match layered(file, env, field) {
        None => Some(default),
        Some(t) => match int_text(t) {
            Some(v) => if lo <= v <= hi {
                Some(v)
            } else {
                None
            },
            None => None,
        },
    }
}

/// The message of a load that fails on the value `text` of `field`.
pub open spec fn bad_value_message(field: Seq<char>, text: Seq<char>) -> Seq<char> {
    "invalid value for key `"@ + field + "`: "@ + text
}

/// The configuration that `file` and `env` give, or the message of the
/// failure: the first field, in the order port then zone, whose text is not
/// an integer of its type.
pub open spec fn load_spec(file: Seq<Setting>, env: Seq<Setting>) -> Result<ConfigView, Seq<char>> {
    let port = int_field(file, env, "port"@, 8000, 0, 65535);
    let zone = int_field(file, env, "zone"@, 8, -2147483648, 2147483647);
    if port is None {
        Err(bad_value_message("port"@, layered(file, env, "port"@)->0))
    } else if zone is None {
        Err(bad_value_message("zone"@, layered(file, env, "zone"@)->0))
    } else {
        Ok(
            ConfigView {
                port: port->0 as u16,
                path: text_field(file, env, "path"@, "/home/foo/bar"@),
                mode: text_field(file, env, "mode"@, "happy mode"@),
                zone: zone->0 as i32,
                area: text_field(file, env, "area"@, "Taipei"@),
            },
        )
    }
}

/// Looks up the text that the sources give `field`.
fn lookup(file: &Vec<Setting>, env: &Vec<Setting>, field: &str) -> (r: Option<String>)
    ensures
        match layered(file@, env@, field@) {
            Some(v) => r matches Some(s) && s@ == v,
            None => r is None,
        },
{
    let mut name = String::from_str("meow_");
    name.append(field);
    let mut i: usize = env.len();
    assert(env@.subrange(0, i as int) =~= env@);
    while i > 0
        invariant
            i <= env@.len(),
            name@ == env_name(field@),
            env_value(env@.subrange(0, i as int), field@) == env_value(env@, field@),
        decreases i,
    {
        let ghost prefix = env@.subrange(0, i as int);
        proof {
            assert(prefix.drop_last() =~= env@.subrange(0, i - 1));
        }
        if eq_ignore_case(env[i - 1].key.as_str(), name.as_str()) {
            return Some(env[i - 1].value.clone());
        }
        i = i - 1;
    }
    assert(env@.subrange(0, 0) =~= Seq::<Setting>::empty());
    let mut j: usize = file.len();
    assert(file@.subrange(0, j as int) =~= file@);
    while j > 0
        invariant
            j <= file@.len(),
            env_value(env@, field@) is None,
            file_value(file@.subrange(0, j as int), field@) == file_value(file@, field@),
        decreases j,
    {
        let ghost prefix = file@.subrange(0, j as int);
        proof {
            assert(prefix.drop_last() =~= file@.subrange(0, j - 1));
        }
        if same_text(file[j - 1].key.as_str(), field) {
            return Some(file[j - 1].value.clone());
        }
        j = j - 1;
    }
    assert(file@.subrange(0, 0) =~= Seq::<Setting>::empty());
    None
}

/// The failure of a load on the value `text` of `field`.
fn bad_value(field: &str, text: &str) -> (e: AppError)
    ensures
        e matches AppError::ConfigError(m) && m@ == bad_value_message(field@, text@),
{
    let mut m = String::from_str("invalid value for key `");
    m.append(field);
    m.append("`: ");
    m.append(text);
    AppError::ConfigError(m)
}

impl AppConfig {
    /// Assembles the configuration from the built-in defaults, the settings
    /// of a configuration file (`file`, empty where there is none) and the
    /// process environment (`env`). A field takes the value of the last
    /// environment variable `MEOW_<FIELD>` (any letter case) if there is one,
    /// else that of the file's last entry with its key, else its default.
    /// The load fails as a whole when `port` or `zone` is set to a text that
    /// is no integer of its type.
    pub fn load(file: &Vec<Setting>, env: &Vec<Setting>) -> (r: AppResult<AppConfig>)
        ensures
            match load_spec(file@, env@) {
                Ok(c) => r matches Ok(cfg) && cfg@ == c,
                Err(m) => r matches Err(AppError::ConfigError(e)) && e@ == m,
            },
    {
        let port_text = lookup(file, env, "port");
        let port: u16 = match &port_text {
            None => 8000,
            Some(t) => match parse_int_in(t.as_str(), 0, 65535) {
                Some(v) => v as u16,
                None => {
                    return Err(bad_value("port", t.as_str()));
                },
            },
        };
        let zone_text = lookup(file, env, "zone");
        let zone: i32 = match &zone_text {
            None => 8,
            Some(t) => match parse_int_in(t.as_str(), -2147483648, 2147483647) {
                Some(v) => v as i32,
                None => {
                    return Err(bad_value("zone", t.as_str()));
                },
            },
        };
        let path = match lookup(file, env, "path") {
            Some(t) => t,
            None => String::from_str("/home/foo/bar"),
        };
        let mode = match lookup(file, env, "mode") {
            Some(t) => t,
            None => String::from_str("happy mode"),
        };
        let area = match lookup(file, env, "area") {
            Some(t) => t,
            None => String::from_str("Taipei"),
        };
        Ok(AppConfig { port, path, mode, zone, area })
    }
}

impl Default for AppConfig {
    fn default() -> (r: AppConfig)
        ensures
            r@ == default_view(),
    {
        AppConfig {
            port: 8000,
            path: String::from_str("/home/foo/bar"),
            mode: String::from_str("happy mode"),
            zone: 8,
            area: String::from_str("Taipei"),
        }
    }
}

/// The lines that show a configuration, one per field in a fixed order.
pub open spec fn display_lines(c: ConfigView) -> Seq<Seq<char>> {
    seq![
        "当前配置:"@,
        "  端口: "@ + signed_decimal(c.port as int),
        "  路径: "@ + c.path,
        "  模式: "@ + c.mode,
        "  时区: "@ + signed_decimal(c.zone as int),
        "  区域: "@ + c.area,
    ]
}

fn labelled(label: &str, value: &str) -> (r: String)
    ensures
        r@ == label@ + value@,
{
    let mut r = String::from_str(label);
    r.append(value);
    r
}

fn labelled_number(label: &str, value: i64) -> (r: String)
    ensures
        r@ == label@ + signed_decimal(value as int),
{
    let mut r = String::from_str(label);
    push_signed(&mut r, value);
    r
}

impl AppConfig {
    /// The lines that show this configuration.
    pub fn display(&self) -> (r: Vec<String>)
        ensures
            r@.map_values(|s: String| s@) == display_lines(self@),
    {
        let mut r: Vec<String> = Vec::new();
        r.push(String::from_str("当前配置:"));
        r.push(labelled_number("  端口: ", self.port as i64));
        r.push(labelled("  路径: ", self.path.as_str()));
        r.push(labelled("  模式: ", self.mode.as_str()));
        r.push(labelled_number("  时区: ", self.zone as i64));
        r.push(labelled("  区域: ", self.area.as_str()));
        assert(r@.map_values(|s: String| s@) =~= display_lines(self@));
        r
    }
}

/// One of the five configuration keys.
pub open spec fn is_field(k: Seq<char>) -> bool {
    k == "port"@ || k == "path"@ || k == "mode"@ || k == "zone"@ || k == "area"@
}

/// An environment variable name that sets one of the five fields.
pub open spec fn names_field(k: Seq<char>) -> bool {
    matches_ci(k, env_name("port"@)) || matches_ci(k, env_name("path"@)) || matches_ci(
        k,
        env_name("mode"@),
    ) || matches_ci(k, env_name("zone"@)) || matches_ci(k, env_name("area"@))
}

proof fn lemma_file_value_absent(file: Seq<Setting>, field: Seq<char>)
    requires
        forall|i: int| 0 <= i < file.len() ==> (#[trigger] file[i]).key@ != field,
    ensures
        file_value(file, field) is None,
    decreases file.len(),
{
    if file.len() > 0 {
        assert forall|i: int| 0 <= i < file.drop_last().len() implies (
        #[trigger] file.drop_last()[i]).key@ != field by {
            assert(file.drop_last()[i] == file[i]);
        }
        lemma_file_value_absent(file.drop_last(), field);
    }
}

proof fn lemma_env_value_absent(env: Seq<Setting>, field: Seq<char>)
    requires
        forall|i: int| 0 <= i < env.len() ==> !matches_ci((#[trigger] env[i]).key@, env_name(field)),
    ensures
        env_value(env, field) is None,
    decreases env.len(),
{
    if env.len() > 0 {
        assert forall|i: int| 0 <= i < env.drop_last().len() implies !matches_ci(
            (#[trigger] env.drop_last()[i]).key@,
            env_name(field),
        ) by {
            assert(env.drop_last()[i] == env[i]);
        }
        lemma_env_value_absent(env.drop_last(), field);
    }
}

proof fn lemma_env_value_last(env: Seq<Setting>, field: Seq<char>, k: int)
    requires
        0 <= k < env.len(),
        matches_ci(env[k].key@, env_name(field)),
        forall|j: int| k < j < env.len() ==> !matches_ci((#[trigger] env[j]).key@, env_name(field)),
    ensures
        env_value(env, field) == Some(env[k].value@),
    decreases env.len(),
{
    if k < env.len() - 1 {
        let d = env.drop_last();
        assert forall|j: int| k < j < d.len() implies !matches_ci(
            (#[trigger] d[j]).key@,
            env_name(field),
        ) by {
            assert(d[j] == env[j]);
        }
        assert(d[k] == env[k]);
        lemma_env_value_last(d, field, k);
    }
}

/// Where no file entry has one of the five keys and no environment variable
/// names one of the five fields, loading gives exactly the defaults.
pub proof fn load_without_sources_gives_defaults(file: Seq<Setting>, env: Seq<Setting>)
    requires
        forall|i: int| 0 <= i < file.len() ==> !is_field((#[trigger] file[i]).key@),
        forall|i: int| 0 <= i < env.len() ==> !names_field((#[trigger] env[i]).key@),
    ensures
        load_spec(file, env) == Ok::<ConfigView, Seq<char>>(default_view()),
{
    lemma_file_value_absent(file, "port"@);
    lemma_file_value_absent(file, "path"@);
    lemma_file_value_absent(file, "mode"@);
    lemma_file_value_absent(file, "zone"@);
    lemma_file_value_absent(file, "area"@);
    lemma_env_value_absent(env, "port"@);
    lemma_env_value_absent(env, "path"@);
    lemma_env_value_absent(env, "mode"@);
    lemma_env_value_absent(env, "zone"@);
    lemma_env_value_absent(env, "area"@);
}

/// The last environment variable that names a field decides that field,
/// over its default and over whatever the configuration file sets: its text
/// is the field's text, and a load that succeeds holds the value it denotes.
pub proof fn env_overrides_file(file: Seq<Setting>, env: Seq<Setting>, field: Seq<char>, k: int)
    requires
        0 <= k < env.len(),
        matches_ci(env[k].key@, env_name(field)),
        forall|j: int| k < j < env.len() ==> !matches_ci((#[trigger] env[j]).key@, env_name(field)),
    ensures
        layered(file, env, field) == Some(env[k].value@),
        load_spec(file, env) is Ok ==> {
            let c = load_spec(file, env)->Ok_0;
            let v = env[k].value@;
            &&& field == "port"@ ==> int_text(v) == Some(c.port as int)
            &&& field == "path"@ ==> c.path == v
            &&& field == "mode"@ ==> c.mode == v
            &&& field == "zone"@ ==> int_text(v) == Some(c.zone as int)
            &&& field == "area"@ ==> c.area == v
        },
{
    lemma_env_value_last(env, field, k);
}

} // verus!
