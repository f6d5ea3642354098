use y2m::config::{
    env_bool, env_nonnegative_i64, env_positive_u16, next_argument, runtime_config, Environment,
    RuntimeConfig, Startup, Variable,
};

fn nothing() -> Environment {
    Environment {
        port: Variable::Unset,
        database: Variable::Unset,
        message_retention_secs: Variable::Unset,
        max_messages_per_room: Variable::Unset,
        secure_cookie: Variable::Unset,
    }
}

fn text(value: &str) -> Variable {
    Variable::Text(value.to_string())
}

fn args(words: &[&str]) -> Vec<String> {
    words.iter().map(|word| word.to_string()).collect()
}

fn run(words: &[&str], env: &Environment) -> RuntimeConfig {
    match runtime_config(&args(words), env) {
        Ok(Startup::Run(config)) => config,
        Ok(Startup::Help) => panic!("help"),
        Err(message) => panic!("{message}"),
    }
}

fn refusal(words: &[&str], env: &Environment) -> String {
    match runtime_config(&args(words), env) {
        Err(message) => message,
        Ok(_) => panic!("accepted"),
    }
}

#[test]
fn defaults_are_used_where_nothing_is_said() {
    let config = run(&[], &nothing());
    assert_eq!(config.port, 8000);
    assert_eq!(config.database, "y2m.sqlite3");
    assert_eq!(config.message_retention_secs, 0);
    assert_eq!(config.max_messages_per_room, 0);
    assert!(!config.secure_cookie);
    assert!(!config.debug);
}

#[test]
fn every_flag_is_read() {
    let words = [
        "-p", "9000", "-db", "chat.db", "-ms", "60", "-rm", "10", "-cook", "YES", "-debug",
    ];
    let config = run(&words, &nothing());
    assert_eq!(config.port, 9000);
    assert_eq!(config.database, "chat.db");
    assert_eq!(config.message_retention_secs, 60);
    assert_eq!(config.max_messages_per_room, 10);
    assert!(config.secure_cookie);
    assert!(config.debug);
    assert!(run(&["--debug"], &nothing()).debug);
}

#[test]
fn the_last_of_two_flags_counts() {
    assert_eq!(run(&["-p", "1", "-p", "2"], &nothing()).port, 2);
}

#[test]
fn arguments_override_even_a_bad_variable() {
    let mut env = nothing();
    env.port = text("not a port");
    env.secure_cookie = text("maybe");
    let config = run(&["-p", "9000", "-cook", "no"], &env);
    assert_eq!(config.port, 9000);
    assert!(!config.secure_cookie);
    assert_eq!(refusal(&["-cook", "no"], &env), "环境变量 PORT 必须是 1-65535 的端口号");
    assert_eq!(refusal(&["-p", "9000"], &env), "环境变量 Y2M_SECURE_COOKIE 只能使用 yes/no");
}

#[test]
fn help_is_given_whatever_else_is_wrong() {
    let mut env = nothing();
    env.port = text("0");
    assert!(matches!(runtime_config(&args(&["-x", "-h"]), &env), Ok(Startup::Help)));
    assert!(matches!(runtime_config(&args(&["--help"]), &env), Ok(Startup::Help)));
}

#[test]
fn variables_are_read_where_arguments_leave_them_open() {
    let env = Environment {
        port: text("+81"),
        database: text("/var/chat.db"),
        message_retention_secs: text("3600"),
        max_messages_per_room: text("500"),
        secure_cookie: text("True"),
    };
    let config = run(&[], &env);
    assert_eq!(config.port, 81);
    assert_eq!(config.database, "/var/chat.db");
    assert_eq!(config.message_retention_secs, 3600);
    assert_eq!(config.max_messages_per_room, 500);
    assert!(config.secure_cookie);
}

#[test]
fn bad_flags_are_named() {
    let env = nothing();
    assert_eq!(refusal(&["-p"], &env), "参数 -p 缺少值");
    assert_eq!(refusal(&["-db", "-p"], &env), "参数 -db 缺少值");
    assert_eq!(refusal(&["-p", "0"], &env), "-p 必须是 1-65535 的端口号");
    assert_eq!(refusal(&["-p", "65536"], &env), "-p 必须是 1-65535 的端口号");
    assert_eq!(refusal(&["-ms", "x"], &env), "-ms 必须是非负整数秒数，0 表示永不删除");
    assert_eq!(refusal(&["-ms", "-1"], &env), "参数 -ms 缺少值");
    assert_eq!(refusal(&["-rm", "1.5"], &env), "-rm 必须是非负整数条数，0 表示不限制");
    assert_eq!(refusal(&["-cook", "on"], &env), "-cook 只能使用 yes/no");
    assert_eq!(refusal(&["what"], &env), "未知参数: what");
    assert_eq!(refusal(&["-db", "  "], &env), "数据库路径不能为空");
}

#[test]
fn bad_variables_are_named() {
    let mut env = nothing();
    env.message_retention_secs = text("-5");
    assert_eq!(refusal(&[], &env), "环境变量 Y2M_MESSAGE_RETENTION_SECS 必须是非负整数");
    let mut env = nothing();
    env.max_messages_per_room = text("99999999999999999999");
    assert_eq!(refusal(&[], &env), "环境变量 Y2M_MAX_MESSAGES_PER_ROOM 必须是非负整数");
    let mut env = nothing();
    env.database = text(" \t");
    assert_eq!(refusal(&[], &env), "数据库路径不能为空");
}

#[test]
fn unreadable_variables_are_reported() {
    let unreadable = Variable::Unreadable;
    assert_eq!(
        env_nonnegative_i64("Y2M_MAX_MESSAGES_PER_ROOM", &unreadable, 0),
        Err("环境变量 Y2M_MAX_MESSAGES_PER_ROOM 必须是非负整数".to_string())
    );
    assert_eq!(
        env_positive_u16("PORT", &unreadable, 8000),
        Err("环境变量 PORT 必须是 1-65535 的端口号".to_string())
    );
    assert_eq!(
        env_bool("Y2M_SECURE_COOKIE", &unreadable, false),
        Err("环境变量 Y2M_SECURE_COOKIE 只能使用 yes/no".to_string())
    );
    let mut env = nothing();
    env.database = Variable::Unreadable;
    assert_eq!(refusal(&[], &env), "环境变量 Y2M_DB 必须是有效的文本");
    assert_eq!(run(&["-db", "chat.db"], &env).database, "chat.db");
    assert!(matches!(runtime_config(&args(&["-h"]), &env), Ok(Startup::Help)));
    let mut env = nothing();
    env.message_retention_secs = Variable::Unreadable;
    assert_eq!(refusal(&[], &env), "环境变量 Y2M_MESSAGE_RETENTION_SECS 必须是非负整数");
}

#[test]
fn single_variables() {
    assert_eq!(env_nonnegative_i64("N", &text("0"), 9), Ok(0));
    assert_eq!(env_nonnegative_i64("N", &Variable::Unset, 9), Ok(9));
    assert_eq!(env_positive_u16("P", &text("65535"), 1), Ok(65535));
    assert_eq!(env_positive_u16("P", &Variable::Unset, 1), Ok(1));
    assert_eq!(env_bool("B", &text("0"), true), Ok(false));
    assert_eq!(env_bool("B", &text("1"), false), Ok(true));
    assert_eq!(env_bool("B", &Variable::Unset, true), Ok(true));
    assert_eq!(
        env_bool("B", &text("oui"), true),
        Err("环境变量 B 只能使用 yes/no".to_string())
    );
}

#[test]
fn the_argument_behind_a_flag() {
    let words = args(&["-db", "a", "-p"]);
    let mut index = 0;
    assert_eq!(next_argument(&words, &mut index, "-db"), Ok("a".to_string()));
    assert_eq!(index, 1);
    assert_eq!(next_argument(&words, &mut index, "-db"), Err("参数 -db 缺少值".to_string()));
    assert_eq!(index, 2);
    assert_eq!(next_argument(&words, &mut index, "-p"), Err("参数 -p 缺少值".to_string()));
    assert_eq!(index, 3);
}
