use kenchiku::capabilities::{FsError, LuaExec, LuaFS, LuaJson, LuaRe, LuaTmpl, MatchKey, ProcessOutput};
use kenchiku::context::Context;

fn ctx(confirm_all: u8) -> Context {
    let mut c = Context::default();
    c.working_dir = "/tmp/work".to_string();
    c.scaffold_dir = "/srv/scaffold".to_string();
    c.confirm_all = confirm_all;
    c
}

#[test]
fn test_lua_fs() {
    let c = ctx(0);
    assert_eq!(LuaFS::target(&c, "new_dir"), "/tmp/work/new_dir");
    assert_eq!(LuaFS::target(&c, "some/dir/nested"), "/tmp/work/some/dir/nested");
    assert_eq!(LuaFS::target(&c, "../../../nested"), "/tmp/work/nested");
    assert_eq!(LuaFS::target(&c, "test.txt"), "/tmp/work/test.txt");
}

#[test]
fn read_source_selects_root() {
    let c = ctx(0);
    assert_eq!(LuaFS::read_target(&c, "a.txt", &None), Ok("/srv/scaffold/a.txt".to_string()));
    assert_eq!(
        LuaFS::read_target(&c, "../a.txt", &Some("workdir".to_string())),
        Ok("/tmp/work/a.txt".to_string())
    );
    assert_eq!(
        LuaFS::read_target(&c, "a.txt", &Some("scaffold".to_string())),
        Ok("/srv/scaffold/a.txt".to_string())
    );
    let err = LuaFS::read_target(&c, "a.txt", &Some("".to_string())).err().unwrap();
    assert_eq!(err, FsError::InvalidReadSource);
    assert_eq!(err.message(), "Invalid read source, must be one of workdir,scaffold");
}

#[test]
fn test_lua_exec_confirmation_prompt() {
    let c = ctx(0);
    assert!(LuaExec::needs_confirmation(&c));
    let prompt = LuaExec::confirmation_prompt(&c, "echo 'test'");
    assert!(prompt.contains("[sys] Execute command"));
    assert!(prompt.contains("echo 'test'"));
    assert_eq!(prompt, "[sys] Execute command 'echo 'test'' in /tmp/work?");
}

#[test]
fn test_lua_exec_confirmation_denied() {
    let c = ctx(0);
    let err = LuaExec::permission(&c, false).err().unwrap();
    assert!(err.contains("denied by user"));
    assert!(LuaExec::permission(&c, true).is_ok());
    assert!(LuaExec::permission(&ctx(1), false).is_err());
}

#[test]
fn test_lua_exec_auto_confirm() {
    let c = ctx(2);
    assert!(!LuaExec::needs_confirmation(&c));
    assert!(LuaExec::permission(&c, false).is_ok());
    assert!(!LuaExec::needs_confirmation(&ctx(3)));
}

fn lookup<'a>(entries: &'a [(MatchKey, String)], key: &MatchKey) -> Option<&'a str> {
    entries
        .iter()
        .find(|(k, _)| match (k, key) {
            (MatchKey::Index(a), MatchKey::Index(b)) => a == b,
            (MatchKey::Name(a), MatchKey::Name(b)) => a == b,
            _ => false,
        })
        .map(|(_, v)| v.as_str())
}

#[test]
fn test_lua_re_match() {
    let m = LuaRe::find("hello world", "hello").unwrap().unwrap();
    assert_eq!(lookup(&m, &MatchKey::Index(0)), Some("hello"));

    let m = LuaRe::find("hello world", "(\\w+) (\\w+)").unwrap().unwrap();
    assert_eq!(lookup(&m, &MatchKey::Index(0)), Some("hello world"));
    assert_eq!(lookup(&m, &MatchKey::Index(1)), Some("hello"));
    assert_eq!(lookup(&m, &MatchKey::Index(2)), Some("world"));

    assert!(LuaRe::find("foo", "bar").unwrap().is_none());

    let m = LuaRe::find("2023-12-25", "(?P<y>\\d{4})-(?P<m>\\d{2})-(?P<d>\\d{2})").unwrap().unwrap();
    assert_eq!(lookup(&m, &MatchKey::Index(0)), Some("2023-12-25"));
    assert_eq!(lookup(&m, &MatchKey::Name("y".to_string())), Some("2023"));
    assert_eq!(lookup(&m, &MatchKey::Name("m".to_string())), Some("12"));
    assert_eq!(lookup(&m, &MatchKey::Name("d".to_string())), Some("25"));

    assert!(LuaRe::find("bar", "(").is_err());
}

#[test]
fn match_skips_groups_that_did_not_take_part() {
    let m = LuaRe::find("b", "(a)?(b)").unwrap().unwrap();
    assert_eq!(m.len(), 2);
    assert_eq!(lookup(&m, &MatchKey::Index(1)), None);
    assert_eq!(lookup(&m, &MatchKey::Index(2)), Some("b"));
}

#[test]
fn test_lua_re_replace() {
    assert_eq!(LuaRe::replace("hello world", "world", "universe", 0).ok().unwrap(), "hello universe");
    assert_eq!(LuaRe::replace("hello world", "[[:word:]]+", "universe", 0).ok().unwrap(), "universe universe");
    assert_eq!(LuaRe::replace("hello world", "nomatch", "universe", 0).ok().unwrap(), "hello world");
    assert_eq!(LuaRe::replace("hello world", "h(ello) world", "H$1 WORLD", 0).ok().unwrap(), "Hello WORLD");
    assert_eq!(LuaRe::replace("你好世界", "世界", "世界你好", 0).ok().unwrap(), "你好世界你好");
    let err = LuaRe::replace("hello world", "[", "universe", 0).err().unwrap();
    assert!(err.message().contains("Invalid regex pattern '['"));
}

#[test]
fn replace_respects_limit() {
    assert_eq!(LuaRe::replace("a a a", "a", "b", 2).ok().unwrap(), "b b a");
    assert_eq!(LuaRe::replace("a a a", "a", "b", 1).ok().unwrap(), "b a a");
}

#[test]
fn test_lua_tmpl_patch() {
    assert_eq!(LuaTmpl::patch("hello world", "world", "universe", false).ok().unwrap(), "hello universe");
    assert_eq!(LuaTmpl::patch("hello world", "[[:word:]]+", "universe", true).ok().unwrap(), "universe universe");
    assert_eq!(LuaTmpl::patch("hello world", "nomatch", "universe", false).ok().unwrap(), "hello world");
    assert_eq!(LuaTmpl::patch("hello world", "h(ello) world", "H$1 WORLD", false).ok().unwrap(), "Hello WORLD");
    assert_eq!(LuaTmpl::patch("你好世界", "世界", "世界你好", false).ok().unwrap(), "你好世界你好");
    let err = LuaTmpl::patch("hello world", "[", "universe", false).err().unwrap();
    assert!(err.message().contains("Invalid regex pattern '['"));
}

#[test]
fn patch_replaces_first_match_by_default() {
    assert_eq!(LuaTmpl::patch("hello world", "[[:word:]]+", "universe", false).ok().unwrap(), "universe world");
}

#[test]
fn test_lua_json_error_handling() {
    assert!(LuaJson::decode("{invalid json}").is_err());
    assert!(LuaJson::decode("{\"unclosed\": \"string}").is_err());
    assert!(LuaJson::decode("{invalid json}").err().unwrap().starts_with("failed to decode json: "));
    let v = LuaJson::decode("{\"a\": [1, 2]}").unwrap();
    assert_eq!(v["a"][1], 2);
}

#[test]
fn nonzero_exit_is_data() {
    let spawned = Ok(ProcessOutput { stdout: vec![], stderr: vec![], exit_code: Some(1) });
    let result = LuaExec::outcome(spawned).ok().unwrap();
    assert_eq!(result.exit_code, Some(1));
    assert_eq!(result.stdout, "");
    assert_eq!(result.stderr, "");
}

#[test]
fn command_output_is_returned() {
    let spawned = Ok(ProcessOutput { stdout: b"hi\n".to_vec(), stderr: vec![], exit_code: Some(0) });
    let result = LuaExec::outcome(spawned).ok().unwrap();
    assert_eq!(result.exit_code, Some(0));
    assert_eq!(result.stdout, "hi\n");
}

#[test]
fn exec_output_decodes_lossily() {
    let spawned = Ok(ProcessOutput { stdout: vec![b'a', 0xff], stderr: b"err".to_vec(), exit_code: None });
    let result = LuaExec::outcome(spawned).ok().unwrap();
    assert_eq!(result.stdout, "a\u{fffd}");
    assert_eq!(result.stderr, "err");
    assert_eq!(result.exit_code, None);
}

#[test]
fn exec_spawn_failure_is_an_error() {
    let result = LuaExec::outcome(Err("No such file or directory".to_string()));
    assert_eq!(result.err(), Some("No such file or directory".to_string()));
}

#[test]
fn test_lua_json_decode() {
    let v = LuaJson::decode("{\"name\":\"test\",\"value\":123}").unwrap();
    assert_eq!(v["name"], "test");
    assert_eq!(v["value"], 123);

    let v = LuaJson::decode("{\"data\":{\"nested\":\"value\",\"count\":5}}").unwrap();
    assert_eq!(v["data"]["nested"], "value");
    assert_eq!(v["data"]["count"], 5);

    let v = LuaJson::decode("[\"first\",\"second\",\"third\"]").unwrap();
    assert_eq!(v.as_array().unwrap().len(), 3);
    assert_eq!(v[0], "first");
    assert_eq!(v[1], "second");
    assert_eq!(v[2], "third");

    let v = LuaJson::decode("{\"items\":[{\"id\":1},{\"id\":2}],\"count\":2}").unwrap();
    assert_eq!(v["items"].as_array().unwrap().len(), 2);
    assert_eq!(v["items"][0]["id"], 1);
    assert_eq!(v["items"][1]["id"], 2);
    assert_eq!(v["count"], 2);

    let v = LuaJson::decode("{\"active\":true,\"inactive\":false,\"nothing\":null}").unwrap();
    assert_eq!(v["active"], true);
    assert_eq!(v["inactive"], false);
    assert!(v.as_object().unwrap().contains_key("nothing"));
    assert!(v["nothing"].is_null());

    let v = LuaJson::decode("{\"int\":42,\"float\":3.14159,\"negative\":-10}").unwrap();
    assert_eq!(v["int"], 42);
    assert_eq!(v["float"], 3.14159);
    assert_eq!(v["negative"], -10);
}

#[test]
fn invalid_regex_in_match_is_reported() {
    let err = LuaRe::find("bar", "(").err().unwrap();
    assert!(err.starts_with("Invalid regex: "));
}
