use hoyolab_auto::env_file::{env_lines, render_env, set_env_content, upsert_line};

fn s(x: &str) -> String {
    x.to_string()
}

#[test]
fn lines_like_std() {
    for t in ["", "a", "a\n", "a\r\nb", "a\n\nb\n", "\n", "x\r", "x\ry\n", "\r\n\r\n"] {
        let expected: Vec<String> = t.lines().map(|l| l.to_string()).collect();
        assert_eq!(env_lines(t), expected, "{:?}", t);
    }
}

#[test]
fn replaces_first_line_of_key() {
    let text = "account = me\ncookie_token_v2 = old\ncookie_token_v2 = older\n";
    assert_eq!(
        set_env_content(Some(text), "cookie_token_v2", "new"),
        "account = me\ncookie_token_v2 = new\ncookie_token_v2 = older\n"
    );
}

#[test]
fn adds_missing_key() {
    assert_eq!(set_env_content(Some("a = 1"), "b", "2"), "a = 1\nb = 2\n");
    assert_eq!(set_env_content(None, "b", "2"), "b = 2\n");
    assert_eq!(set_env_content(Some("b=1\n"), "b", "2"), "b=1\nb = 2\n");
}

#[test]
fn crlf_lines_are_rewritten_with_lf() {
    assert_eq!(set_env_content(Some("a = 1\r\nb = 2\r\n"), "b", "3"), "a = 1\nb = 3\n");
}

#[test]
fn setting_twice_keeps_one_line() {
    let once = set_env_content(Some("x = 0\n"), "k", "1");
    let twice = set_env_content(Some(once.as_str()), "k", "2");
    assert_eq!(twice, "x = 0\nk = 2\n");
}

#[test]
fn reads_back_what_was_set() {
    let text = set_env_content(Some("k = a\r\nk = b"), "k", "v");
    let lines = env_lines(&text);
    let first = lines.iter().find(|l| l.starts_with("k = ")).unwrap();
    assert_eq!(first, "k = v");
}

#[test]
fn upsert_and_render() {
    let mut lines = vec![s("a = 1")];
    upsert_line(&mut lines, "a", "2");
    assert_eq!(lines, vec![s("a = 2")]);
    upsert_line(&mut lines, "c", "");
    assert_eq!(lines, vec![s("a = 2"), s("c = ")]);
    assert_eq!(render_env(&lines), "a = 2\nc = \n");
    assert_eq!(render_env(&vec![]), "");
}
