use talpa::shell::{
    as_escape, askpass_script, choice_answer, choose_dialog_script, dialog_answer,
    elevation_script, input_dialog_script, password_dialog_script, sh_quote,
};

#[test]
fn sh_quote_wraps_and_escapes() {
    assert_eq!(sh_quote("plain"), "'plain'");
    assert_eq!(sh_quote(""), "''");
    assert_eq!(sh_quote("it's"), "'it'\\''s'");
    assert_eq!(sh_quote("a b;c"), "'a b;c'");
}

#[test]
fn as_escape_backslash_then_quote() {
    assert_eq!(as_escape("plain"), "plain");
    assert_eq!(as_escape("a\\b"), "a\\\\b");
    assert_eq!(as_escape("say \"hi\""), "say \\\"hi\\\"");
    assert_eq!(as_escape("\\\""), "\\\\\\\"");
}

#[test]
fn elevation_script_quotes_every_argument() {
    let args = vec!["--config".to_string(), "/tmp/it's.yaml".to_string()];
    let s = elevation_script("/Applications/Talpa.app/talpa", &args);
    assert_eq!(
        s,
        "do shell script \"'/Applications/Talpa.app/talpa' '--config' '/tmp/it'\\\\''s.yaml' >/dev/null 2>&1\" with administrator privileges"
    );
    assert_eq!(
        elevation_script("/bin/t", &[]),
        "do shell script \"'/bin/t' >/dev/null 2>&1\" with administrator privileges"
    );
}

#[test]
fn askpass_script_escapes_quotes() {
    assert_eq!(askpass_script("secret"), "#!/bin/sh\nprintf '%s\\n' 'secret'\n");
    assert_eq!(askpass_script("o'k"), "#!/bin/sh\nprintf '%s\\n' 'o'\\''k'\n");
}

#[test]
fn dialog_scripts_escape_quotes() {
    assert_eq!(
        input_dialog_script("Add domain", "Enter \"x\"", "d"),
        "display dialog \"Enter \\\"x\\\"\" default answer \"d\" with title \"Add domain\" buttons {\"Cancel\",\"OK\"} default button \"OK\""
    );
    assert_eq!(
        password_dialog_script("SSH", "Password"),
        "display dialog \"Password\" default answer \"\" with title \"SSH\" with hidden answer buttons {\"Cancel\",\"OK\"} default button \"OK\""
    );
    let items = vec!["a.test".to_string(), "b\"c".to_string()];
    assert_eq!(
        choose_dialog_script(&items, "Remove", "Pick one"),
        "choose from list {\"a.test\", \"b\\\"c\"} with title \"Remove\" with prompt \"Pick one\""
    );
    assert_eq!(
        choose_dialog_script(&[], "T", "P"),
        "choose from list {} with title \"T\" with prompt \"P\""
    );
}

#[test]
fn dialog_answer_reads_text_returned() {
    assert_eq!(
        dialog_answer("button returned:OK, text returned:  corp.test \n").as_deref(),
        Some("corp.test")
    );
    assert_eq!(dialog_answer("button returned:OK, text returned:   \n"), None);
    assert_eq!(dialog_answer("button returned:Cancel"), None);
    assert_eq!(
        dialog_answer("text returned:a text returned:b").as_deref(),
        Some("a")
    );
}

#[test]
fn choice_answer_false_is_cancel() {
    assert_eq!(choice_answer("false\n"), None);
    assert_eq!(choice_answer(" a.test \n").as_deref(), Some("a.test"));
    assert_eq!(choice_answer("").as_deref(), Some(""));
}

/// Reads one shell word made of single-quoted parts, backslash escapes and
/// plain characters.
fn sh_read(w: &str) -> String {
    let c: Vec<char> = w.chars().collect();
    let (mut out, mut i, mut quoted) = (String::new(), 0, false);
    while i < c.len() {
        if quoted {
            if c[i] == '\'' { quoted = false } else { out.push(c[i]) }
            i += 1;
        } else if c[i] == '\'' {
            quoted = true;
            i += 1;
        } else if c[i] == '\\' && i + 1 < c.len() {
            out.push(c[i + 1]);
            i += 2;
        } else {
            out.push(c[i]);
            i += 1;
        }
    }
    out
}

/// Reads an AppleScript string literal's contents, up to the closing quote.
fn as_read(w: &str) -> String {
    let c: Vec<char> = w.chars().collect();
    let (mut out, mut i) = (String::new(), 0);
    while i < c.len() && c[i] != '"' {
        if c[i] == '\\' && i + 1 < c.len() {
            out.push(match c[i + 1] { 'n' => '\n', 't' => '\t', 'r' => '\r', x => x });
            i += 2;
        } else {
            out.push(c[i]);
            i += 1;
        }
    }
    out
}

#[test]
fn quoted_words_read_back() {
    for s in ["", "plain", "it's", "''", "a'b'c", "back\\slash", "$HOME `x` \"q\""] {
        assert_eq!(sh_read(&sh_quote(s)), s);
        assert_eq!(as_read(&format!("{}\" tail", as_escape(s))), s);
    }
}

#[test]
fn elevation_script_literal_holds_the_command() {
    let args = vec!["--config".to_string(), "/tmp/a \"b\"\\c".to_string()];
    let script = elevation_script("/opt/t'x", &args);
    let body = script.strip_prefix("do shell script \"").unwrap();
    assert_eq!(
        as_read(body),
        format!("{} {} {} >/dev/null 2>&1", sh_quote("/opt/t'x"), sh_quote("--config"), sh_quote("/tmp/a \"b\"\\c"))
    );
}
