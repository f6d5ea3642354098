//! How the server is started: arguments first, the environment for what they
//! leave open, and defaults for the rest.

use crate::text::{
    lowercase, parse_i64, parse_u16, same_ignoring_case, same_text, signed_number, trimmed, unsigned_number,
};
use vstd::prelude::*;
use vstd::string::*;

verus! {

/// The port that is served where nothing says otherwise.
pub const DEFAULT_PORT: u16 = 8_000;

/// How long messages are kept where nothing says otherwise: for ever.
pub const MESSAGE_RETENTION_SECS: i64 = 0;

/// How the server runs.
pub struct RuntimeConfig {
    pub port: u16,
    pub database: String,
    pub message_retention_secs: i64,
    pub max_messages_per_room: i64,
    pub secure_cookie: bool,
    pub debug: bool,
}

/// What the arguments ask for.
pub enum Startup {
    /// To say how the server is started.
    Help,
    /// To serve.
    Run(RuntimeConfig),
}

/// An environment variable.
pub enum Variable {
    /// It is not set.
    Unset,
    /// It is set to something that is no Unicode text.
    Unreadable,
    /// It is set to the text.
    Text(String),
}

/// A variable, with its text as its characters.
pub ghost enum Reading {
    Unset,
    Unreadable,
    Text(Seq<char>),
}

impl View for Variable {
    type V = Reading;

    open spec fn view(&self) -> Reading {
        match self {
            Variable::Unset => Reading::Unset,
            Variable::Unreadable => Reading::Unreadable,
            Variable::Text(text) => Reading::Text(text@),
        }
    }
}

/// The environment variables that the server reads.
pub struct Environment {
    /// `PORT`
    pub port: Variable,
    /// `Y2M_DB`
    pub database: Variable,
    /// `Y2M_MESSAGE_RETENTION_SECS`
    pub message_retention_secs: Variable,
    /// `Y2M_MAX_MESSAGES_PER_ROOM`
    pub max_messages_per_room: Variable,
    /// `Y2M_SECURE_COOKIE`
    pub secure_cookie: Variable,
}

/// What the arguments settle.
struct Overrides {
    port: Option<u16>,
    database: Option<String>,
    message_retention_secs: Option<i64>,
    max_messages_per_room: Option<i64>,
    secure_cookie: Option<bool>,
    debug: bool,
}

/// What the arguments settle, with the path as its characters.
pub ghost struct Given {
    pub port: Option<u16>,
    pub database: Option<Seq<char>>,
    pub message_retention_secs: Option<i64>,
    pub max_messages_per_room: Option<i64>,
    pub secure_cookie: Option<bool>,
    pub debug: bool,
}

/// A configuration, with the path as its characters.
pub ghost struct Config {
    pub port: u16,
    pub database: Seq<char>,
    pub message_retention_secs: i64,
    pub max_messages_per_room: i64,
    pub secure_cookie: bool,
    pub debug: bool,
}

impl View for RuntimeConfig {
    type V = Config;

    open spec fn view(&self) -> Config {
        Config {
            port: self.port,
            database: self.database@,
            message_retention_secs: self.message_retention_secs,
            max_messages_per_room: self.max_messages_per_room,
            secure_cookie: self.secure_cookie,
            debug: self.debug,
        }
    }
}

impl View for Overrides {
    type V = Given;

    closed spec fn view(&self) -> Given {
        Given {
            port: self.port,
            database: text_of(self.database),
            message_retention_secs: self.message_retention_secs,
            max_messages_per_room: self.max_messages_per_room,
            secure_cookie: self.secure_cookie,
            debug: self.debug,
        }
    }
}

/// The characters of an optional text.
pub open spec fn text_of(text: Option<String>) -> Option<Seq<char>> {
    match text {
        Some(text) => Some(text@),
        None => None,
    }
}

/// The characters of each argument.
pub open spec fn texts(args: Seq<String>) -> Seq<Seq<char>> {
    args.map_values(|arg: String| arg@)
}

/// A result agrees with what it should be: the same value, or an error with the
/// same characters.
pub open spec fn agrees<T>(r: Result<T, String>, should_be: Result<T, Seq<char>>) -> bool {
    match r {
        Ok(value) => should_be == Ok::<T, Seq<char>>(value),
        Err(message) => should_be == Err::<T, Seq<char>>(message@),
    }
}

/// The port that a text names: a number from 1 to 65535.
pub open spec fn port_in(text: Seq<char>) -> Option<u16> {
    match unsigned_number(text) {
        Some(n) => if 0 < n <= u16::MAX {
            Some(n as u16)
        } else {
            None
        },
        None => None,
    }
}

/// The amount that a text names: a number that is not negative.
pub open spec fn amount_in(text: Seq<char>) -> Option<i64> {
    match signed_number(text) {
        Some(n) => if 0 <= n <= i64::MAX {
            Some(n as i64)
        } else {
            None
        },
        None => None,
    }
}

/// The answer that a text gives: yes or no, in letters of either case.
pub open spec fn answer_in(text: Seq<char>) -> Option<bool> {
    let word = lowercase(text);
    if word == "yes"@ || word == "true"@ || word == "1"@ {
        Some(true)
    } else if word == "no"@ || word == "false"@ || word == "0"@ {
        Some(false)
    } else {
        None
    }
}

/// The argument after the one at `i`, where there is one that is no flag.
pub open spec fn value_after(args: Seq<Seq<char>>, i: int) -> Option<Seq<char>> {
    if i + 1 < args.len() && !(args[i + 1].len() > 0 && args[i + 1].first() == '-') {
        Some(args[i + 1])
    } else {
        None
    }
}

/// What is said where a flag has no value.
pub open spec fn value_missing(flag: Seq<char>) -> Seq<char> {
    "参数 "@ + flag + " 缺少值"@
}

/// What the flag at `i` makes of `given`, and whether it took the argument
/// after it.
pub open spec fn flag_read(args: Seq<Seq<char>>, i: int, given: Given) -> Result<
    (Given, bool),
    Seq<char>,
> {
    let flag = args[i];
    if flag == "-debug"@ || flag == "--debug"@ {
        Ok((Given { debug: true, ..given }, false))
    } else if flag == "-p"@ {
        match value_after(args, i) {
            Some(value) => match port_in(value) {
                Some(port) => Ok((Given { port: Some(port), ..given }, true)),
                None => Err("-p 必须是 1-65535 的端口号"@),
            },
            None => Err(value_missing(flag)),
        }
    } else if flag == "-db"@ {
        match value_after(args, i) {
            Some(value) => Ok((Given { database: Some(value), ..given }, true)),
            None => Err(value_missing(flag)),
        }
    } else if flag == "-ms"@ {
        match value_after(args, i) {
            Some(value) => match amount_in(value) {
                Some(seconds) => Ok(
                    (Given { message_retention_secs: Some(seconds), ..given }, true),
                ),
                None => Err("-ms 必须是非负整数秒数，0 表示永不删除"@),
            },
            None => Err(value_missing(flag)),
        }
    } else if flag == "-rm"@ {
        match value_after(args, i) {
            Some(value) => match amount_in(value) {
                Some(count) => Ok((Given { max_messages_per_room: Some(count), ..given }, true)),
                None => Err("-rm 必须是非负整数条数，0 表示不限制"@),
            },
            None => Err(value_missing(flag)),
        }
    } else if flag == "-cook"@ {
        match value_after(args, i) {
            Some(value) => match answer_in(value) {
                Some(secure) => Ok((Given { secure_cookie: Some(secure), ..given }, true)),
                None => Err("-cook 只能使用 yes/no"@),
            },
            None => Err(value_missing(flag)),
        }
    } else {
        Err("未知参数: "@ + flag)
    }
}

/// What the arguments from `i` on make of `given`. A flag that comes twice
/// counts the second time.
pub open spec fn args_read(args: Seq<Seq<char>>, i: int, given: Given) -> Result<Given, Seq<char>>
    decreases args.len() - i,
{
    if i >= args.len() {
        Ok(given)
    } else {
        match flag_read(args, i, given) {
            Ok((more, took_value)) => args_read(
                args,
                if took_value {
                    i + 2
                } else {
                    i + 1
                },
                more,
            ),
            Err(message) => Err(message),
        }
    }
}

/// Nothing settled.
pub open spec fn nothing_given() -> Given {
    Given {
        port: None,
        database: None,
        message_retention_secs: None,
        max_messages_per_room: None,
        secure_cookie: None,
        debug: false,
    }
}

/// The port of a variable.
pub open spec fn variable_port(name: Seq<char>, value: Reading, default: u16) -> Result<
    u16,
    Seq<char>,
> {
    let refusal = "环境变量 "@ + name + " 必须是 1-65535 的端口号"@;
    match value {
        Reading::Unset => Ok(default),
        Reading::Unreadable => Err(refusal),
        Reading::Text(text) => match port_in(text) {
            Some(port) => Ok(port),
            None => Err(refusal),
        },
    }
}

/// The amount of a variable.
pub open spec fn variable_amount(name: Seq<char>, value: Reading, default: i64) -> Result<
    i64,
    Seq<char>,
> {
    let refusal = "环境变量 "@ + name + " 必须是非负整数"@;
    match value {
        Reading::Unset => Ok(default),
        Reading::Unreadable => Err(refusal),
        Reading::Text(text) => match amount_in(text) {
            Some(amount) => Ok(amount),
            None => Err(refusal),
        },
    }
}

/// The answer of a variable.
pub open spec fn variable_answer(name: Seq<char>, value: Reading, default: bool) -> Result<
    bool,
    Seq<char>,
> {
    let refusal = "环境变量 "@ + name + " 只能使用 yes/no"@;
    match value {
        Reading::Unset => Ok(default),
        Reading::Unreadable => Err(refusal),
        Reading::Text(text) => match answer_in(text) {
            Some(answer) => Ok(answer),
            None => Err(refusal),
        },
    }
}

/// The path of a variable.
pub open spec fn variable_path(name: Seq<char>, value: Reading) -> Result<Seq<char>, Seq<char>> {
    match value {
        Reading::Unset => Ok("y2m.sqlite3"@),
        Reading::Unreadable => Err("环境变量 "@ + name + " 必须是有效的文本"@),
        Reading::Text(text) => Ok(text),
    }
}

/// What is settled, or what is read where it is not.
pub open spec fn settled_or<T>(settled: Option<T>, read: Result<T, Seq<char>>) -> Result<
    T,
    Seq<char>,
> {
    match settled {
        Some(value) => Ok(value),
        None => read,
    }
}

/// The configuration of what the arguments settle and of the environment.
pub open spec fn completed(given: Given, env: Environment) -> Result<Config, Seq<char>> {
    let port = settled_or(given.port, variable_port("PORT"@, env.port@, DEFAULT_PORT));
    let database = settled_or(given.database, variable_path("Y2M_DB"@, env.database@));
    let message_retention_secs = settled_or(
        given.message_retention_secs,
        variable_amount(
            "Y2M_MESSAGE_RETENTION_SECS"@,
            env.message_retention_secs@,
            MESSAGE_RETENTION_SECS,
        ),
    );
    let max_messages_per_room = settled_or(
        given.max_messages_per_room,
        variable_amount("Y2M_MAX_MESSAGES_PER_ROOM"@, env.max_messages_per_room@, 0),
    );
    let secure_cookie = settled_or(
        given.secure_cookie,
        variable_answer("Y2M_SECURE_COOKIE"@, env.secure_cookie@, false),
    );
    match (port, database, message_retention_secs, max_messages_per_room, secure_cookie) {
        (Err(message), _, _, _, _) => Err(message),
        (_, Err(message), _, _, _) => Err(message),
        (_, _, Err(message), _, _) => Err(message),
        (_, _, _, Err(message), _) => Err(message),
        (_, _, _, _, Err(message)) => Err(message),
        (
            Ok(port),
            Ok(database),
            Ok(message_retention_secs),
            Ok(max_messages_per_room),
            Ok(secure_cookie),
        ) => {
            if trimmed(database).len() == 0 {
                Err("数据库路径不能为空"@)
            } else {
                Ok(
                    Config {
                        port,
                        database,
                        message_retention_secs,
                        max_messages_per_room,
                        secure_cookie,
                        debug: given.debug,
                    },
                )
            }
        },
    }
}

/// An argument asks for help.
pub open spec fn asks_for_help(args: Seq<Seq<char>>) -> bool {
    exists|i: int| 0 <= i < args.len() && (#[trigger] args[i] == "-h"@ || args[i] == "--help"@)
}

/// What the arguments ask for in the environment: help, which is `None`, a
/// configuration, or what is wrong with them.
pub open spec fn started(args: Seq<Seq<char>>, env: Environment) -> Result<
    Option<Config>,
    Seq<char>,
> {
    if asks_for_help(args) {
        Ok(None)
    } else {
        match args_read(args, 0, nothing_given()) {
            Ok(given) => match completed(given, env) {
                Ok(config) => Ok(Some(config)),
                Err(message) => Err(message),
            },
            Err(message) => Err(message),
        }
    }
}

/// A startup is the one that is described.
pub open spec fn starts_as(
    r: Result<Startup, String>,
    described: Result<Option<Config>, Seq<char>>,
) -> bool {
    match r {
        Ok(Startup::Help) => described == Ok::<Option<Config>, Seq<char>>(None),
        Ok(Startup::Run(run)) => described == Ok::<Option<Config>, Seq<char>>(Some(run@)),
        Err(message) => described == Err::<Option<Config>, Seq<char>>(message@),
    }
}

fn joined(a: &str, b: &str, c: &str) -> (r: String)
    ensures
        r@ == a@ + b@ + c@,
{
    let mut out: String = a.to_owned();
    out.append(b);
    out.append(c);
    out
}

fn read_port(text: &str) -> (r: Option<u16>)
    ensures
        r == port_in(text@),
{
    match parse_u16(text) {
        Some(port) => if port > 0 {
            Some(port)
        } else {
            None
        },
        None => None,
    }
}

fn read_amount(text: &str) -> (r: Option<i64>)
    ensures
        r == amount_in(text@),
{
    match parse_i64(text) {
        Some(amount) => if amount >= 0 {
            Some(amount)
        } else {
            None
        },
        None => None,
    }
}

fn read_answer(text: &str) -> (r: Option<bool>)
    ensures
        r == answer_in(text@),
{
    let lower: String = text.to_ascii_lowercase();
    let word: &str = lower.as_str();
    if same_text(word, "yes") || same_text(word, "true") || same_text(word, "1") {
        Some(true)
    } else if same_text(word, "no") || same_text(word, "false") || same_text(word, "0") {
        Some(false)
    } else {
        None
    }
}

/// The amount of the variable `name`, whose value is `value`.
pub fn env_nonnegative_i64(name: &str, value: &Variable, default: i64) -> (r: Result<
    i64,
    String,
>)
    ensures
        agrees(r, variable_amount(name@, value@, default)),
{
    let read: Option<i64> = match value {
        Variable::Unset => Some(default),
        Variable::Unreadable => None,
        Variable::Text(text) => read_amount(text.as_str()),
    };
    match read {
        Some(amount) => Ok(amount),
        None => Err(joined("环境变量 ", name, " 必须是非负整数")),
    }
}

/// The port of the variable `name`, whose value is `value`.
pub fn env_positive_u16(name: &str, value: &Variable, default: u16) -> (r: Result<
    u16,
    String,
>)
    ensures
        agrees(r, variable_port(name@, value@, default)),
{
    let read: Option<u16> = match value {
        Variable::Unset => Some(default),
        Variable::Unreadable => None,
        Variable::Text(text) => read_port(text.as_str()),
    };
    match read {
        Some(port) => Ok(port),
        None => Err(joined("环境变量 ", name, " 必须是 1-65535 的端口号")),
    }
}

/// The answer of the variable `name`, whose value is `value`.
pub fn env_bool(name: &str, value: &Variable, default: bool) -> (r: Result<bool, String>)
    ensures
        agrees(r, variable_answer(name@, value@, default)),
{
    let read: Option<bool> = match value {
        Variable::Unset => Some(default),
        Variable::Unreadable => None,
        Variable::Text(text) => read_answer(text.as_str()),
    };
    match read {
        Some(answer) => Ok(answer),
        None => Err(joined("环境变量 ", name, " 只能使用 yes/no")),
    }
}

/// The argument after the one at `index`, which is the value of `flag`.
pub fn next_argument(args: &[String], index: &mut usize, flag: &str) -> (r: Result<String, String>)
    requires
        *old(index) < usize::MAX,
    ensures
        *final(index) == *old(index) + 1,
        match r {
            Ok(value) => value_after(texts(args@), *old(index) as int) == Some(value@),
            Err(message) => value_after(texts(args@), *old(index) as int) is None && message@
                == value_missing(flag@),
        },
{
    *index = *index + 1;
    let i: usize = *index;
    if i < args.len() {
        let value: &str = args[i].as_str();
        if value.is_empty() || value.get_char(0) != '-' {
            return Ok(args[i].clone());
        }
    }
    Err(joined("参数 ", flag, " 缺少值"))
}

/// Reads the flag at `index`, and its value.
fn read_flag(args: &[String], index: &mut usize, overrides: &mut Overrides) -> (r: Result<
    (),
    String,
>)
    requires
        *old(index) < args@.len(),
    ensures
        match flag_read(texts(args@), *old(index) as int, old(overrides)@) {
            Ok((more, took_value)) => {
                &&& r is Ok
                &&& final(overrides)@ == more
                &&& *final(index) == *old(index) + if took_value {
                    2int
                } else {
                    1int
                }
            },
            Err(message) => r matches Err(e) && e@ == message,
        },
{
    let flag: &str = args[*index].as_str();
    if same_text(flag, "-debug") || same_text(flag, "--debug") {
        overrides.debug = true;
    } else if same_text(flag, "-p") {
        let value: String = next_argument(args, index, "-p")?;
        match read_port(value.as_str()) {
            Some(port) => {
                overrides.port = Some(port);
            },
            None => {
                return Err("-p 必须是 1-65535 的端口号".to_owned());
            },
        }
    } else if same_text(flag, "-db") {
        let value: String = next_argument(args, index, "-db")?;
        overrides.database = Some(value);
    } else if same_text(flag, "-ms") {
        let value: String = next_argument(args, index, "-ms")?;
        match read_amount(value.as_str()) {
            Some(seconds) => {
                overrides.message_retention_secs = Some(seconds);
            },
            None => {
                return Err("-ms 必须是非负整数秒数，0 表示永不删除".to_owned());
            },
        }
    } else if same_text(flag, "-rm") {
        let value: String = next_argument(args, index, "-rm")?;
        match read_amount(value.as_str()) {
            Some(count) => {
                overrides.max_messages_per_room = Some(count);
            },
            None => {
                return Err("-rm 必须是非负整数条数，0 表示不限制".to_owned());
            },
        }
    } else if same_text(flag, "-cook") {
        let value: String = next_argument(args, index, "-cook")?;
        match read_answer(value.as_str()) {
            Some(secure) => {
                overrides.secure_cookie = Some(secure);
            },
            None => {
                return Err("-cook 只能使用 yes/no".to_owned());
            },
        }
    } else {
        let mut message: String = "未知参数: ".to_owned();
        message.append(flag);
        return Err(message);
    }
    *index = *index + 1;
    Ok(())
}

/// Whether an argument asks for help.
fn help_asked(args: &[String]) -> (r: bool)
    ensures
        r == asks_for_help(texts(args@)),
{
    for i in 0..args.len()
        invariant
            forall|j: int|
                0 <= j < i ==> #[trigger] texts(args@)[j] != "-h"@ && texts(args@)[j] != "--help"@,
    {
        if same_text(args[i].as_str(), "-h") || same_text(args[i].as_str(), "--help") {
            assert(texts(args@)[i as int] == args@[i as int]@);
            return true;
        }
    }
    false
}

/// How the server is started with these arguments in this environment. The
/// arguments come first: a variable is looked at only where they leave
/// something open.
pub fn runtime_config(args: &[String], env: &Environment) -> (r: Result<Startup, String>)
    ensures
        starts_as(r, started(texts(args@), *env)),
{
    if help_asked(args) {
        return Ok(Startup::Help);
    }
    let ghost all = texts(args@);
    let mut overrides: Overrides = Overrides {
        port: None,
        database: None,
        message_retention_secs: None,
        max_messages_per_room: None,
        secure_cookie: None,
        debug: false,
    };
    let mut index: usize = 0;
    while index < args.len()
        invariant
            all == texts(args@),
            !asks_for_help(all),
            args_read(all, index as int, overrides@) == args_read(all, 0, nothing_given()),
        decreases args@.len() - index,
    {
        match read_flag(args, &mut index, &mut overrides) {
            Ok(_) => {},
            Err(message) => {
                return Err(message);
            },
        }
    }
    complete(overrides, env)
}

/// Fills in what the arguments leave open.
fn complete(overrides: Overrides, env: &Environment) -> (r: Result<Startup, String>)
    ensures
        starts_as(
            r,
            match completed(overrides@, *env) {
                Ok(config) => Ok(Some(config)),
                Err(message) => Err(message),
            },
        ),
{
    let port: u16 = match overrides.port {
        Some(port) => port,
        None => env_positive_u16("PORT", &env.port, DEFAULT_PORT)?,
    };
    let database: String = match overrides.database {
        Some(path) => path,
        None => match &env.database {
            Variable::Unset => "y2m.sqlite3".to_owned(),
            Variable::Unreadable => {
                return Err(joined("环境变量 ", "Y2M_DB", " 必须是有效的文本"));
            },
            Variable::Text(path) => path.clone(),
        },
    };
    let message_retention_secs: i64 = match overrides.message_retention_secs {
        Some(seconds) => seconds,
        None => env_nonnegative_i64(
            "Y2M_MESSAGE_RETENTION_SECS",
            &env.message_retention_secs,
            MESSAGE_RETENTION_SECS,
        )?,
    };
    let max_messages_per_room: i64 = match overrides.max_messages_per_room {
        Some(count) => count,
        None => env_nonnegative_i64("Y2M_MAX_MESSAGES_PER_ROOM", &env.max_messages_per_room, 0)?,
    };
    let secure_cookie: bool = match overrides.secure_cookie {
        Some(secure) => secure,
        None => env_bool("Y2M_SECURE_COOKIE", &env.secure_cookie, false)?,
    };
    if database.as_str().trim().is_empty() {
        return Err("数据库路径不能为空".to_owned());
    }
    Ok(
        Startup::Run(
            RuntimeConfig {
                port,
                database,
                message_retention_secs,
                max_messages_per_room,
                secure_cookie,
                debug: overrides.debug,
            },
        ),
    )
}

/// Two environments say the same wherever the arguments leave something open.
pub open spec fn agree_where_open(given: Given, env: Environment, other: Environment) -> bool {
    &&& given.port is None ==> env.port@ == other.port@
    &&& given.database is None ==> env.database@ == other.database@
    &&& given.message_retention_secs is None ==> env.message_retention_secs@
        == other.message_retention_secs@
    &&& given.max_messages_per_room is None ==> env.max_messages_per_room@
        == other.max_messages_per_room@
    &&& given.secure_cookie is None ==> env.secure_cookie@ == other.secure_cookie@
}

/// The arguments come first: a variable for something that they settle makes no
/// difference, whatever it holds.
pub proof fn law_arguments_come_first(args: Seq<Seq<char>>, env: Environment, other: Environment)
    requires
        match args_read(args, 0, nothing_given()) {
            Ok(given) => agree_where_open(given, env, other),
            Err(_) => true,
        },
    ensures
        started(args, env) == started(args, other),
{
}

/// Help is given exactly where it is asked for, whatever the other arguments and
/// the variables hold.
pub proof fn law_help_needs_nothing(args: Seq<Seq<char>>, env: Environment)
    ensures
        started(args, env) == Ok::<Option<Config>, Seq<char>>(None) <==> asks_for_help(args),
{
}

/// The variable is set, and not to a text that `fits`.
pub open spec fn misset(value: Reading, fits: spec_fn(Seq<char>) -> bool) -> bool {
    match value {
        Reading::Unset => false,
        Reading::Unreadable => true,
        Reading::Text(text) => !fits(text),
    }
}

/// A variable that is looked at and does not hold what it should.
pub open spec fn bad_variable(given: Given, env: Environment) -> bool {
    let path = |text: Seq<char>| trimmed(text).len() > 0;
    let port = |text: Seq<char>| port_in(text) is Some;
    let amount = |text: Seq<char>| amount_in(text) is Some;
    let answer = |text: Seq<char>| answer_in(text) is Some;
    ||| given.port is None && misset(env.port@, port)
    ||| given.database is None && misset(env.database@, path)
    ||| given.message_retention_secs is None && misset(env.message_retention_secs@, amount)
    ||| given.max_messages_per_room is None && misset(env.max_messages_per_room@, amount)
    ||| given.secure_cookie is None && misset(env.secure_cookie@, answer)
}

/// A variable that does not hold what it should, be it text or not, is never
/// passed over where the arguments leave its matter open.
pub proof fn law_bad_variables_are_reported(args: Seq<Seq<char>>, env: Environment)
    requires
        !asks_for_help(args),
        match args_read(args, 0, nothing_given()) {
            Ok(given) => bad_variable(given, env),
            Err(_) => false,
        },
    ensures
        started(args, env) is Err,
{
}

/// What is settled lies within its bounds.
spec fn given_in_bounds(given: Given) -> bool {
    &&& given.port is Some ==> given.port->0 > 0
    &&& given.message_retention_secs is Some ==> given.message_retention_secs->0 >= 0
    &&& given.max_messages_per_room is Some ==> given.max_messages_per_room->0 >= 0
}

proof fn lemma_args_in_bounds(args: Seq<Seq<char>>, i: int, given: Given)
    requires
        given_in_bounds(given),
    ensures
        args_read(args, i, given) matches Ok(read) ==> given_in_bounds(read),
    decreases args.len() - i,
{
    if i < args.len() {
        match flag_read(args, i, given) {
            Ok((more, took_value)) => {
                lemma_args_in_bounds(
                    args,
                    if took_value {
                        i + 2
                    } else {
                        i + 1
                    },
                    more,
                );
            },
            Err(_) => {},
        }
    }
}

/// A server never starts with a port that is no port, with a negative amount or
/// without a path to its database.
pub proof fn law_configurations_are_in_bounds(args: Seq<Seq<char>>, env: Environment)
    ensures
        match started(args, env) {
            Ok(Some(config)) => {
                &&& config.port > 0
                &&& config.message_retention_secs >= 0
                &&& config.max_messages_per_room >= 0
                &&& trimmed(config.database).len() > 0
            },
            _ => true,
        },
{
    lemma_args_in_bounds(args, 0, nothing_given());
}

proof fn lemma_args_behind(args: Seq<Seq<char>>, more: Seq<Seq<char>>, i: int, given: Given)
    requires
        0 <= i <= args.len(),
        args_read(args, i, given) is Ok,
    ensures
        args_read(args + more, i, given) == args_read(
            args + more,
            args.len() as int,
            args_read(args, i, given)->Ok_0,
        ),
    decreases args.len() - i,
{
    let all = args + more;
    if i < args.len() {
        assert(all[i] == args[i]);
        if i + 1 < args.len() {
            assert(all[i + 1] == args[i + 1]);
        }
        assert(flag_read(args, i, given) is Ok);
        let (next, took_value) = flag_read(args, i, given)->Ok_0;
        if took_value {
            assert(value_after(args, i) is Some);
        }
        assert(flag_read(all, i, given) == flag_read(args, i, given));
        lemma_args_behind(
            args,
            more,
            if took_value {
                i + 2
            } else {
                i + 1
            },
            next,
        );
    }
}

/// A word that is taken for a flag and never for a value.
pub open spec fn is_flag(word: Seq<char>) -> bool {
    word.len() > 0 && word[0] == '-'
}

/// What the last of two arguments settles.
proof fn lemma_last_two(args: Seq<Seq<char>>, flag: Seq<char>, value: Seq<char>)
    requires
        args_read(args, 0, nothing_given()) is Ok,
    ensures
        ({
            let given = args_read(args, 0, nothing_given())->Ok_0;
            let all = args + seq![flag, value];
            let n = args.len() as int;
            &&& args_read(all, 0, nothing_given()) == args_read(all, n, given)
            &&& all[n] == flag
            &&& value_after(all, n) == if is_flag(value) {
                None
            } else {
                Some(value)
            }
            &&& flag_read(all, n, given) matches Ok((more, true)) ==> args_read(all, n, given) == Ok::<
                Given,
                Seq<char>,
            >(more)
            &&& flag_read(all, n, given) matches Err(message) ==> args_read(all, n, given) == Err::<
                Given,
                Seq<char>,
            >(message)
        }),
{
    let given = args_read(args, 0, nothing_given())->Ok_0;
    let all = args + seq![flag, value];
    let n = args.len() as int;
    lemma_args_behind(args, seq![flag, value], 0, nothing_given());
    assert(all.len() == n + 2);
    match flag_read(all, n, given) {
        Ok((more, took_value)) => {
            if took_value {
                assert(args_read(all, n + 2, more) == Ok::<Given, Seq<char>>(more));
            }
        },
        Err(_) => {},
    }
}

/// What the flags with a number settle, behind any other arguments: the number
/// itself, where it lies within its bounds, and nothing else changes.
pub proof fn law_flags_with_a_number(args: Seq<Seq<char>>, value: Seq<char>)
    requires
        args_read(args, 0, nothing_given()) is Ok,
        !is_flag(value),
    ensures
        ({
            let given = args_read(args, 0, nothing_given())->Ok_0;
            let port = args_read(args + seq!["-p"@, value], 0, nothing_given());
            let seconds = args_read(args + seq!["-ms"@, value], 0, nothing_given());
            let count = args_read(args + seq!["-rm"@, value], 0, nothing_given());
            &&& port == if unsigned_number(value) is Some && 1 <= unsigned_number(value)->0 <= 65535 {
                Ok(Given { port: Some(unsigned_number(value)->0 as u16), ..given })
            } else {
                Err::<Given, Seq<char>>("-p 必须是 1-65535 的端口号"@)
            }
            &&& seconds == if signed_number(value) is Some && 0 <= signed_number(value)->0
                <= i64::MAX {
                Ok(
                    Given {
                        message_retention_secs: Some(signed_number(value)->0 as i64),
                        ..given
                    },
                )
            } else {
                Err::<Given, Seq<char>>("-ms 必须是非负整数秒数，0 表示永不删除"@)
            }
            &&& count == if signed_number(value) is Some && 0 <= signed_number(value)->0 <= i64::MAX {
                Ok(
                    Given {
                        max_messages_per_room: Some(signed_number(value)->0 as i64),
                        ..given
                    },
                )
            } else {
                Err::<Given, Seq<char>>("-rm 必须是非负整数条数，0 表示不限制"@)
            }
        }),
{
    reveal_strlit("-debug");
    reveal_strlit("--debug");
    reveal_strlit("-p");
    reveal_strlit("-db");
    reveal_strlit("-ms");
    reveal_strlit("-rm");
    reveal_strlit("-cook");
    lemma_last_two(args, "-p"@, value);
    lemma_last_two(args, "-ms"@, value);
    lemma_last_two(args, "-rm"@, value);
    lemma_flags_differ();
}

/// No two flags are written alike.
proof fn lemma_flags_differ()
    ensures
        "-debug"@.len() == 6 && "--debug"@.len() == 7 && "-p"@.len() == 2 && "-db"@.len() == 3
            && "-ms"@.len() == 3 && "-rm"@.len() == 3 && "-cook"@.len() == 5,
        "-db"@[1] == 'd' && "-ms"@[1] == 'm' && "-rm"@[1] == 'r',
{
    reveal_strlit("-debug");
    reveal_strlit("--debug");
    reveal_strlit("-p");
    reveal_strlit("-db");
    reveal_strlit("-ms");
    reveal_strlit("-rm");
    reveal_strlit("-cook");
}

/// What the flags with a word settle, behind any other arguments: the path as it is,
/// and yes or no in letters of either case.
pub proof fn law_flags_with_a_word(args: Seq<Seq<char>>, value: Seq<char>)
    requires
        args_read(args, 0, nothing_given()) is Ok,
        !is_flag(value),
    ensures
        ({
            let given = args_read(args, 0, nothing_given())->Ok_0;
            let path = args_read(args + seq!["-db"@, value], 0, nothing_given());
            let answer = args_read(args + seq!["-cook"@, value], 0, nothing_given());
            &&& path == Ok::<Given, Seq<char>>(Given { database: Some(value), ..given })
            &&& answer == if says_yes(value) {
                Ok(Given { secure_cookie: Some(true), ..given })
            } else if says_no(value) {
                Ok(Given { secure_cookie: Some(false), ..given })
            } else {
                Err::<Given, Seq<char>>("-cook 只能使用 yes/no"@)
            }
        }),
{
    lemma_last_two(args, "-db"@, value);
    lemma_last_two(args, "-cook"@, value);
    lemma_flags_differ();
    lemma_answers(value);
}

/// One of the words for yes.
pub open spec fn says_yes(text: Seq<char>) -> bool {
    same_ignoring_case(text, "yes"@) || same_ignoring_case(text, "true"@) || same_ignoring_case(
        text,
        "1"@,
    )
}

/// One of the words for no.
pub open spec fn says_no(text: Seq<char>) -> bool {
    same_ignoring_case(text, "no"@) || same_ignoring_case(text, "false"@) || same_ignoring_case(
        text,
        "0"@,
    )
}

proof fn lemma_answers(text: Seq<char>)
    ensures
        answer_in(text) == Some(true) <==> says_yes(text),
        answer_in(text) == Some(false) <==> says_no(text),
{
    reveal_strlit("yes");
    reveal_strlit("true");
    reveal_strlit("1");
    reveal_strlit("no");
    reveal_strlit("false");
    reveal_strlit("0");
    assert(lowercase("yes"@) =~= "yes"@);
    assert(lowercase("true"@) =~= "true"@);
    assert(lowercase("1"@) =~= "1"@);
    assert(lowercase("no"@) =~= "no"@);
    assert(lowercase("false"@) =~= "false"@);
    assert(lowercase("0"@) =~= "0"@);
    assert("1"@[0] != "0"@[0]);
}

/// What the words that are read from a text mean: a port is a number from 1 to 65535,
/// an amount one that is not negative, and there are six words for yes and no.
pub proof fn law_texts_mean(text: Seq<char>)
    ensures
        port_in(text) is Some <==> unsigned_number(text) is Some && 1 <= unsigned_number(text)->0
            <= 65535,
        port_in(text) matches Some(port) ==> unsigned_number(text) == Some(port as int),
        amount_in(text) is Some <==> signed_number(text) is Some && 0 <= signed_number(text)->0
            <= i64::MAX,
        amount_in(text) matches Some(amount) ==> signed_number(text) == Some(amount as int),
        answer_in(text) == Some(true) <==> says_yes(text),
        answer_in(text) == Some(false) <==> says_no(text),
{
    lemma_answers(text);
}

/// Debugging is turned on by its flag alone, and nothing else changes. A flag that
/// needs a value has none where it comes last or another flag follows, and a word
/// that is no flag is refused by name.
pub proof fn law_flags_without_a_value(
    args: Seq<Seq<char>>,
    flag: Seq<char>,
    next: Seq<char>,
    word: Seq<char>,
)
    requires
        args_read(args, 0, nothing_given()) is Ok,
        flag == "-p"@ || flag == "-db"@ || flag == "-ms"@ || flag == "-rm"@ || flag == "-cook"@,
        is_flag(next),
        word != "-p"@ && word != "-db"@ && word != "-ms"@ && word != "-rm"@ && word != "-cook"@ && word
            != "-debug"@ && word != "--debug"@,
    ensures
        ({
            let given = args_read(args, 0, nothing_given())->Ok_0;
            let missing = "参数 "@ + flag + " 缺少值"@;
            let unknown = "未知参数: "@ + word;
            &&& args_read(args + seq!["-debug"@], 0, nothing_given()) == Ok::<Given, Seq<char>>(
                Given { debug: true, ..given },
            )
            &&& args_read(args + seq!["--debug"@], 0, nothing_given()) == Ok::<Given, Seq<char>>(
                Given { debug: true, ..given },
            )
            &&& args_read(args + seq![flag], 0, nothing_given()) == Err::<Given, Seq<char>>(missing)
            &&& args_read(args + seq![flag, next], 0, nothing_given()) == Err::<Given, Seq<char>>(
                missing,
            )
            &&& args_read(args + seq![word], 0, nothing_given()) == Err::<Given, Seq<char>>(unknown)
        }),
{
    let given = args_read(args, 0, nothing_given())->Ok_0;
    let n = args.len() as int;
    lemma_flags_differ();
    lemma_last_two(args, flag, next);
    lemma_args_behind(args, seq![flag], 0, nothing_given());
    lemma_args_behind(args, seq![word], 0, nothing_given());
    lemma_args_behind(args, seq!["-debug"@], 0, nothing_given());
    lemma_args_behind(args, seq!["--debug"@], 0, nothing_given());
    assert((args + seq![flag])[n] == flag);
    assert((args + seq![word])[n] == word);
    assert((args + seq!["-debug"@])[n] == "-debug"@);
    assert((args + seq!["--debug"@])[n] == "--debug"@);
    let debug = Given { debug: true, ..given };
    assert(args_read(args + seq!["-debug"@], n + 1, debug) == Ok::<Given, Seq<char>>(debug));
    assert(args_read(args + seq!["--debug"@], n + 1, debug) == Ok::<Given, Seq<char>>(debug));
}

/// Without arguments nothing is settled. Help is asked for by either of its flags
/// anywhere; otherwise the arguments are read and what they leave open is filled in.
pub proof fn law_how_a_server_starts(args: Seq<Seq<char>>, env: Environment)
    ensures
        args.len() == 0 ==> args_read(args, 0, nothing_given()) == Ok::<Given, Seq<char>>(
            Given {
                port: None,
                database: None,
                message_retention_secs: None,
                max_messages_per_room: None,
                secure_cookie: None,
                debug: false,
            },
        ),
        asks_for_help(args) <==> args.contains("-h"@) || args.contains("--help"@),
        !asks_for_help(args) ==> match args_read(args, 0, nothing_given()) {
            Err(message) => started(args, env) == Err::<Option<Config>, Seq<char>>(message),
            Ok(given) => match completed(given, env) {
                Err(message) => started(args, env) == Err::<Option<Config>, Seq<char>>(message),
                Ok(config) => started(args, env) == Ok::<Option<Config>, Seq<char>>(Some(config)),
            },
        },
{
    if args.contains("-h"@) {
        let i = args.index_of("-h"@);
        assert(args[i] == "-h"@);
    }
    if args.contains("--help"@) {
        let i = args.index_of("--help"@);
        assert(args[i] == "--help"@);
    }
}

/// What a variable comes to: its default where it is not set, what its text says
/// where that is right, and otherwise an error that names it.
pub proof fn law_variables(
    name: Seq<char>,
    value: Reading,
    text: Seq<char>,
    port: u16,
    amount: i64,
    answer: bool,
)
    ensures
        value is Unset ==> variable_port(name, value, port) == Ok::<u16, Seq<char>>(port)
            && variable_amount(name, value, amount) == Ok::<i64, Seq<char>>(amount)
            && variable_answer(name, value, answer) == Ok::<bool, Seq<char>>(answer)
            && variable_path(name, value) == Ok::<Seq<char>, Seq<char>>("y2m.sqlite3"@),
        value == Reading::Text(text) ==> {
            &&& variable_path(name, value) == Ok::<Seq<char>, Seq<char>>(text)
            &&& unsigned_number(text) is Some && 1 <= unsigned_number(text)->0 <= 65535 ==> (
            variable_port(name, value, port) matches Ok(read) && read == unsigned_number(text)->0)
            &&& signed_number(text) is Some && 0 <= signed_number(text)->0 <= i64::MAX ==> (
            variable_amount(name, value, amount) matches Ok(read) && read == signed_number(text)->0)
            &&& says_yes(text) ==> variable_answer(name, value, answer) == Ok::<bool, Seq<char>>(true)
            &&& says_no(text) ==> variable_answer(name, value, answer) == Ok::<bool, Seq<char>>(false)
        },
        value is Unreadable || (value == Reading::Text(text) && !(unsigned_number(text) is Some && 1
            <= unsigned_number(text)->0 <= 65535)) ==> variable_port(name, value, port) == Err::<
            u16,
            Seq<char>,
        >("环境变量 "@ + name + " 必须是 1-65535 的端口号"@),
        value is Unreadable || (value == Reading::Text(text) && !(signed_number(text) is Some && 0
            <= signed_number(text)->0 <= i64::MAX)) ==> variable_amount(name, value, amount) == Err::<
            i64,
            Seq<char>,
        >("环境变量 "@ + name + " 必须是非负整数"@),
        value is Unreadable || (value == Reading::Text(text) && !says_yes(text) && !says_no(text))
            ==> variable_answer(name, value, answer) == Err::<bool, Seq<char>>(
            "环境变量 "@ + name + " 只能使用 yes/no"@,
        ),
        value is Unreadable ==> variable_path(name, value) is Err,
{
    lemma_answers(text);
}

/// Of a configuration each part is what the arguments settle, and only where they
/// settle nothing what its own variable comes to.
pub proof fn law_each_part_has_its_source(given: Given, env: Environment)
    ensures
        completed(given, env) matches Ok(config) ==> {
            &&& given.port matches Some(port) ==> config.port == port
            &&& given.port is None ==> variable_port("PORT"@, env.port@, 8000) == Ok::<
                u16,
                Seq<char>,
            >(config.port)
            &&& given.database matches Some(path) ==> config.database == path
            &&& given.database is None ==> variable_path("Y2M_DB"@, env.database@) == Ok::<
                Seq<char>,
                Seq<char>,
            >(config.database)
            &&& given.message_retention_secs matches Some(seconds) ==> config.message_retention_secs
                == seconds
            &&& given.message_retention_secs is None ==> variable_amount(
                "Y2M_MESSAGE_RETENTION_SECS"@,
                env.message_retention_secs@,
                0,
            ) == Ok::<i64, Seq<char>>(config.message_retention_secs)
            &&& given.max_messages_per_room matches Some(count) ==> config.max_messages_per_room
                == count
            &&& given.max_messages_per_room is None ==> variable_amount(
                "Y2M_MAX_MESSAGES_PER_ROOM"@,
                env.max_messages_per_room@,
                0,
            ) == Ok::<i64, Seq<char>>(config.max_messages_per_room)
            &&& given.secure_cookie matches Some(secure) ==> config.secure_cookie == secure
            &&& given.secure_cookie is None ==> variable_answer(
                "Y2M_SECURE_COOKIE"@,
                env.secure_cookie@,
                false,
            ) == Ok::<bool, Seq<char>>(config.secure_cookie)
            &&& config.debug == given.debug
            &&& trimmed(config.database).len() > 0
        },
{
}

/// A server starts wherever no variable that is looked at is wrong and a path that
/// was given is not blank; otherwise the first thing that is wrong is named.
pub proof fn law_nothing_else_keeps_a_server_from_starting(given: Given, env: Environment)
    ensures
        completed(given, env) is Ok <==> !bad_variable(given, env) && (given.database matches Some(
            path,
        ) ==> trimmed(path).len() > 0),
        given.port is None && variable_port("PORT"@, env.port@, 8000) is Err ==> completed(
            given,
            env,
        ) is Err && completed(given, env)->Err_0 == variable_port("PORT"@, env.port@, 8000)->Err_0,
        !bad_variable(given, env) && completed(given, env) is Err ==> completed(given, env)->Err_0
            == "数据库路径不能为空"@,
{
    reveal_strlit("y2m.sqlite3");
    let name = "y2m.sqlite3"@;
    assert(name.len() == 11);
    assert(name.first() == 'y' && name.last() == '3');
    assert(trimmed(name) == name);
}

} // verus!
