//! Text handed to shells and AppleScript: quoting, the self-elevation
//! command, the askpass helper, and the `osascript` dialogs with the
//! parsing of their output.

use vstd::prelude::*;
use crate::text::{
    chars_of, extend_chars, find_seq_chars, find_seq_from, replace_char, replace_char_chars,
    string_from_chars, trim, trim_chars, chars_eq,
};

verus! {

/// `'` as written inside a single-quoted shell word: `'\''`.
pub open spec fn quote_escape() -> Seq<char> {
    seq!['\'', '\\', '\'', '\'']
}

/// `s` wrapped in single quotes for the shell, each embedded `'` written
/// as `'\''`.
pub open spec fn spec_sh_quote(s: Seq<char>) -> Seq<char> {
    seq!['\''] + replace_char(s, '\'', quote_escape()) + seq!['\'']
}

fn quote_escape_chars() -> (res: Vec<char>)
    ensures
        res@ == quote_escape(),
{
    let mut v: Vec<char> = Vec::new();
    v.push('\'');
    v.push('\\');
    v.push('\'');
    v.push('\'');
    assert(v@ =~= quote_escape());
    v
}

/// Wraps `s` in single quotes for the shell.
pub fn sh_quote(s: &str) -> (res: String)
    ensures
        res@ == spec_sh_quote(s@),
{
    let esc = quote_escape_chars();
    let body = replace_char_chars(&chars_of(s), '\'', &esc);
    let mut v: Vec<char> = Vec::new();
    v.push('\'');
    extend_chars(&mut v, &body);
    v.push('\'');
    assert(v@ =~= spec_sh_quote(s@));
    string_from_chars(&v)
}

/// `s` with `\` doubled and then `"` escaped, for an AppleScript string.
pub open spec fn spec_as_escape(s: Seq<char>) -> Seq<char> {
    replace_char(replace_char(s, '\\', seq!['\\', '\\']), '"', seq!['\\', '"'])
}

/// Escapes `\` and `"` so `s` can sit inside an AppleScript string.
pub fn as_escape(s: &str) -> (res: String)
    ensures
        res@ == spec_as_escape(s@),
{
    let mut two: Vec<char> = Vec::new();
    two.push('\\');
    two.push('\\');
    let mut quote: Vec<char> = Vec::new();
    quote.push('\\');
    quote.push('"');
    assert(two@ =~= seq!['\\', '\\']);
    assert(quote@ =~= seq!['\\', '"']);
    let a = replace_char_chars(&chars_of(s), '\\', &two);
    let b = replace_char_chars(&a, '"', &quote);
    string_from_chars(&b)
}

/// The shell command that re-runs the program: the quoted executable, each
/// quoted argument after a space, output discarded.
pub open spec fn spec_relaunch_command(exe: Seq<char>, args: Seq<Seq<char>>) -> Seq<char>
    decreases args.len(),
{
    if args.len() == 0 {
        spec_sh_quote(exe)
    } else {
        spec_relaunch_command(exe, args.drop_last()) + " "@ + spec_sh_quote(args.last())
    }
}

/// The AppleScript that re-runs the program with administrator privileges.
pub open spec fn spec_elevation_script(exe: Seq<char>, args: Seq<Seq<char>>) -> Seq<char> {
    "do shell script \""@ + spec_as_escape(spec_relaunch_command(exe, args) + " >/dev/null 2>&1"@)
        + "\" with administrator privileges"@
}

/// Builds the `osascript` program that re-launches the executable `exe`
/// with `args` as administrator, its output discarded.
pub fn elevation_script(exe: &str, args: &[String]) -> (res: String)
    ensures
        res@ == spec_elevation_script(exe@, args@.map_values(|a: String| a@)),
{
    let ghost views = args@.map_values(|a: String| a@);
    let mut cmd = chars_of(sh_quote(exe).as_str());
    let mut i: usize = 0;
    while i < args.len()
        invariant
            0 <= i <= args@.len(),
            views == args@.map_values(|a: String| a@),
            cmd@ == spec_relaunch_command(exe@, views.subrange(0, i as int)),
        decreases args@.len() - i,
    {
        extend_chars(&mut cmd, &chars_of(" "));
        extend_chars(&mut cmd, &chars_of(sh_quote(args[i].as_str()).as_str()));
        proof {
            let sub = views.subrange(0, i + 1);
            assert(sub.drop_last() =~= views.subrange(0, i as int));
            assert(sub.last() == args@[i as int]@);
        }
        i += 1;
    }
    assert(views.subrange(0, args@.len() as int) =~= views);
    extend_chars(&mut cmd, &chars_of(" >/dev/null 2>&1"));
    let escaped = as_escape(string_from_chars(&cmd).as_str());
    let mut out = chars_of("do shell script \"");
    extend_chars(&mut out, &chars_of(escaped.as_str()));
    extend_chars(&mut out, &chars_of("\" with administrator privileges"));
    string_from_chars(&out)
}

/// The askpass helper script that prints the SSH password, embedded in
/// single quotes with each `'` written as `'\''`.
pub open spec fn spec_askpass_script(password: Seq<char>) -> Seq<char> {
    "#!/bin/sh\nprintf '%s\\n' '"@ + replace_char(password, '\'', quote_escape()) + "'\n"@
}

/// Builds the askpass helper script for `password`.
pub fn askpass_script(password: &str) -> (res: String)
    ensures
        res@ == spec_askpass_script(password@),
{
    let esc = quote_escape_chars();
    let safe = replace_char_chars(&chars_of(password), '\'', &esc);
    let mut out = chars_of("#!/bin/sh\nprintf '%s\\n' '");
    extend_chars(&mut out, &safe);
    extend_chars(&mut out, &chars_of("'\n"));
    string_from_chars(&out)
}

/// `s` with `"` escaped for an AppleScript string literal.
pub open spec fn dq_escape(s: Seq<char>) -> Seq<char> {
    replace_char(s, '"', seq!['\\', '"'])
}

fn dq_escape_chars(s: &str) -> (res: Vec<char>)
    ensures
        res@ == dq_escape(s@),
{
    let mut quote: Vec<char> = Vec::new();
    quote.push('\\');
    quote.push('"');
    assert(quote@ =~= seq!['\\', '"']);
    replace_char_chars(&chars_of(s), '"', &quote)
}

/// The AppleScript of a text-input dialog.
pub open spec fn spec_input_dialog(title: Seq<char>, prompt: Seq<char>, default: Seq<char>) -> Seq<char> {
    "display dialog \""@ + dq_escape(prompt) + "\" default answer \""@ + dq_escape(default)
        + "\" with title \""@ + dq_escape(title)
        + "\" buttons {\"Cancel\",\"OK\"} default button \"OK\""@
}

/// Builds the AppleScript of a text-input dialog.
pub fn input_dialog_script(title: &str, prompt: &str, default: &str) -> (res: String)
    ensures
        res@ == spec_input_dialog(title@, prompt@, default@),
{
    let mut out = chars_of("display dialog \"");
    extend_chars(&mut out, &dq_escape_chars(prompt));
    extend_chars(&mut out, &chars_of("\" default answer \""));
    extend_chars(&mut out, &dq_escape_chars(default));
    extend_chars(&mut out, &chars_of("\" with title \""));
    extend_chars(&mut out, &dq_escape_chars(title));
    extend_chars(&mut out, &chars_of("\" buttons {\"Cancel\",\"OK\"} default button \"OK\""));
    string_from_chars(&out)
}

/// The AppleScript of a password dialog (hidden answer).
pub open spec fn spec_password_dialog(title: Seq<char>, prompt: Seq<char>) -> Seq<char> {
    "display dialog \""@ + dq_escape(prompt) + "\" default answer \"\" with title \""@
        + dq_escape(title)
        + "\" with hidden answer buttons {\"Cancel\",\"OK\"} default button \"OK\""@
}

/// Builds the AppleScript of a password dialog.
pub fn password_dialog_script(title: &str, prompt: &str) -> (res: String)
    ensures
        res@ == spec_password_dialog(title@, prompt@),
{
    let mut out = chars_of("display dialog \"");
    extend_chars(&mut out, &dq_escape_chars(prompt));
    extend_chars(&mut out, &chars_of("\" default answer \"\" with title \""));
    extend_chars(&mut out, &dq_escape_chars(title));
    extend_chars(
        &mut out,
        &chars_of("\" with hidden answer buttons {\"Cancel\",\"OK\"} default button \"OK\""),
    );
    string_from_chars(&out)
}

/// The items of a choice dialog: each quoted (with `"` escaped), joined by
/// `, `.
pub open spec fn spec_choice_list(items: Seq<Seq<char>>) -> Seq<char>
    decreases items.len(),
{
    if items.len() == 0 {
        Seq::empty()
    } else if items.len() == 1 {
        "\""@ + dq_escape(items[0]) + "\""@
    } else {
        spec_choice_list(items.drop_last()) + ", \""@ + dq_escape(items.last()) + "\""@
    }
}

/// The AppleScript of a choose-from-list dialog.
pub open spec fn spec_choose_dialog(items: Seq<Seq<char>>, title: Seq<char>, prompt: Seq<char>) -> Seq<char> {
    "choose from list {"@ + spec_choice_list(items) + "} with title \""@ + dq_escape(title)
        + "\" with prompt \""@ + dq_escape(prompt) + "\""@
}

/// Builds the AppleScript of a choose-from-list dialog.
pub fn choose_dialog_script(items: &[String], title: &str, prompt: &str) -> (res: String)
    ensures
        res@ == spec_choose_dialog(items@.map_values(|s: String| s@), title@, prompt@),
{
    let ghost views = items@.map_values(|s: String| s@);
    let mut list: Vec<char> = Vec::new();
    let mut i: usize = 0;
    while i < items.len()
        invariant
            0 <= i <= items@.len(),
            views == items@.map_values(|s: String| s@),
            list@ == spec_choice_list(views.subrange(0, i as int)),
        decreases items@.len() - i,
    {
        if i > 0 {
            extend_chars(&mut list, &chars_of(", "));
        }
        extend_chars(&mut list, &chars_of("\""));
        extend_chars(&mut list, &dq_escape_chars(items[i].as_str()));
        extend_chars(&mut list, &chars_of("\""));
        proof {
            let sub = views.subrange(0, i + 1);
            assert(sub.drop_last() =~= views.subrange(0, i as int));
            assert(sub.last() == items@[i as int]@);
            reveal_strlit(", \"");
            reveal_strlit(", ");
            reveal_strlit("\"");
            assert(list@ =~= spec_choice_list(sub));
        }
        i += 1;
    }
    assert(views.subrange(0, items@.len() as int) =~= views);
    let mut out = chars_of("choose from list {");
    extend_chars(&mut out, &list);
    extend_chars(&mut out, &chars_of("} with title \""));
    extend_chars(&mut out, &dq_escape_chars(title));
    extend_chars(&mut out, &chars_of("\" with prompt \""));
    extend_chars(&mut out, &dq_escape_chars(prompt));
    extend_chars(&mut out, &chars_of("\""));
    string_from_chars(&out)
}

/// The answer of a text dialog in `osascript` output: the text after the
/// first `text returned:` up to the next one (if any), trimmed; `None` when
/// the marker is missing or the answer is blank.
pub open spec fn spec_dialog_answer(out: Seq<char>) -> Option<Seq<char>> {
    let m = "text returned:"@;
    let i = find_seq_from(out, m, 0);
    if i >= out.len() {
        None
    } else {
        let start = i + m.len();
        let j = find_seq_from(out, m, start);
        let t = trim(out.subrange(start, j));
        if t.len() == 0 {
            None
        } else {
            Some(t)
        }
    }
}

proof fn lemma_find_seq_from_bounds(s: Seq<char>, p: Seq<char>, from: int)
    requires
        0 <= from,
    ensures
        find_seq_from(s, p, from) == s.len() || (from <= find_seq_from(s, p, from) && find_seq_from(
            s,
            p,
            from,
        ) + p.len() <= s.len()),
        find_seq_from(s, p, from) <= s.len(),
    decreases s.len() - from,
{
    if from >= 0 && from < s.len() && from + p.len() <= s.len() && !crate::text::occurs_at(s, p, from) {
        lemma_find_seq_from_bounds(s, p, from + 1);
    }
}

/// Reads the answer of a text dialog from `osascript` output.
pub fn dialog_answer(out: &str) -> (res: Option<String>)
    ensures
        match spec_dialog_answer(out@) {
            Some(a) => (res matches Some(r) && r@ == a),
            None => res is None,
        },
{
    let s = chars_of(out);
    let m = chars_of("text returned:");
    let i = find_seq_chars(&s, &m, 0);
    proof {
        lemma_find_seq_from_bounds(s@, m@, 0);
    }
    if i >= s.len() {
        return None;
    }
    let start = i + m.len();
    let j = find_seq_chars(&s, &m, start);
    proof {
        lemma_find_seq_from_bounds(s@, m@, start as int);
    }
    let t = trim_chars(&crate::text::slice_chars(&s, start, j));
    if t.len() == 0 {
        None
    } else {
        Some(string_from_chars(&t))
    }
}

/// The item picked in a choice dialog: the trimmed output, unless it is
/// `false` (cancelled).
pub fn choice_answer(out: &str) -> (res: Option<String>)
    ensures
        trim(out@) == "false"@ ==> res is None,
        trim(out@) != "false"@ ==> (res matches Some(r) && r@ == trim(out@)),
{
    let t = trim_chars(&chars_of(out));
    if chars_eq(&t, &chars_of("false")) {
        None
    } else {
        Some(string_from_chars(&t))
    }
}

/// What a POSIX shell reads from `w[i..]` as one word made of single-quoted
/// parts, backslash escapes and plain characters (`quoted`: inside single
/// quotes).
pub open spec fn sh_read_from(w: Seq<char>, i: int, quoted: bool) -> Seq<char>
    decreases w.len() - i,
{
    if i < 0 || i >= w.len() {
        Seq::empty()
    } else if quoted {
        if w[i] == '\'' {
            sh_read_from(w, i + 1, false)
        } else {
            seq![w[i]] + sh_read_from(w, i + 1, true)
        }
    } else if w[i] == '\'' {
        sh_read_from(w, i + 1, true)
    } else if w[i] == '\\' && i + 1 < w.len() {
        seq![w[i + 1]] + sh_read_from(w, i + 2, false)
    } else {
        seq![w[i]] + sh_read_from(w, i + 1, false)
    }
}

proof fn lemma_sh_read_shift(p: Seq<char>, q: Seq<char>, k: int, quoted: bool)
    requires
        0 <= k <= q.len(),
    ensures
        sh_read_from(p + q, p.len() + k, quoted) == sh_read_from(q, k, quoted),
    decreases q.len() - k,
{
    if k < q.len() {
        assert((p + q)[p.len() + k] == q[k]);
        if k + 1 < q.len() {
            assert((p + q)[p.len() + k + 1] == q[k + 1]);
            lemma_sh_read_shift(p, q, k + 2, false);
        }
        lemma_sh_read_shift(p, q, k + 1, true);
        lemma_sh_read_shift(p, q, k + 1, false);
    }
}

proof fn lemma_replace_concat(a: Seq<char>, b: Seq<char>, c: char, r: Seq<char>)
    ensures
        replace_char(a + b, c, r) == replace_char(a, c, r) + replace_char(b, c, r),
    decreases b.len(),
{
    if b.len() == 0 {
        assert(a + b =~= a);
        assert(replace_char(a, c, r) + Seq::<char>::empty() =~= replace_char(a, c, r));
    } else {
        assert((a + b).drop_last() =~= a + b.drop_last());
        assert((a + b).last() == b.last());
        lemma_replace_concat(a, b.drop_last(), c, r);
        let t = if b.last() == c {
            r
        } else {
            seq![b.last()]
        };
        assert(replace_char(a, c, r) + replace_char(b.drop_last(), c, r) + t =~= replace_char(a, c, r)
            + (replace_char(b.drop_last(), c, r) + t));
    }
}

proof fn lemma_replace_one(x: char, c: char, r: Seq<char>)
    ensures
        replace_char(seq![x], c, r) == (if x == c {
            r
        } else {
            seq![x]
        }),
{
    assert(seq![x].drop_last() =~= Seq::<char>::empty());
    assert(replace_char(Seq::<char>::empty(), c, r) == Seq::<char>::empty());
    assert(seq![x].last() == x);
    assert(Seq::<char>::empty() + r =~= r);
    assert(Seq::<char>::empty() + seq![x] =~= seq![x]);
}

proof fn lemma_sh_quoted_body(s: Seq<char>, rest: Seq<char>)
    ensures
        sh_read_from(replace_char(s, '\'', quote_escape()) + seq!['\''] + rest, 0, true) == s
            + sh_read_from(rest, 0, false),
    decreases s.len(),
{
    let e = quote_escape();
    if s.len() == 0 {
        let w = replace_char(s, '\'', e) + seq!['\''] + rest;
        assert(w =~= seq!['\''] + rest);
        lemma_sh_read_shift(seq!['\''], rest, 0, false);
        assert(s + sh_read_from(rest, 0, false) =~= sh_read_from(rest, 0, false));
    } else {
        let c = s[0];
        let t = s.drop_first();
        assert(seq![c] + t =~= s);
        lemma_replace_concat(seq![c], t, '\'', e);
        lemma_replace_one(c, '\'', e);
        lemma_sh_quoted_body(t, rest);
        let tail = replace_char(t, '\'', e) + seq!['\''] + rest;
        if c == '\'' {
            let w = replace_char(s, '\'', e) + seq!['\''] + rest;
            assert(w =~= e + tail);
            assert(w[0] == '\'' && w[1] == '\\' && w[2] == '\'' && w[3] == '\'');
            lemma_sh_read_shift(e, tail, 0, true);
            assert(sh_read_from(w, 4, true) == sh_read_from(tail, 0, true));
            assert(sh_read_from(w, 3, false) == sh_read_from(w, 4, true));
            assert(sh_read_from(w, 1, false) == seq!['\''] + sh_read_from(w, 3, false));
            assert(seq!['\''] + (t + sh_read_from(rest, 0, false)) =~= s + sh_read_from(rest, 0, false));
        } else {
            let w = replace_char(s, '\'', e) + seq!['\''] + rest;
            assert(w =~= seq![c] + tail);
            lemma_sh_read_shift(seq![c], tail, 0, true);
            assert(seq![c] + (t + sh_read_from(rest, 0, false)) =~= s + sh_read_from(rest, 0, false));
        }
    }
}

/// A shell reading the quoted word gets `s` back, whatever characters it
/// holds.
pub proof fn lemma_sh_quote_reads_back(s: Seq<char>)
    ensures
        sh_read_from(spec_sh_quote(s), 0, false) == s,
{
    let body = replace_char(s, '\'', quote_escape()) + seq!['\''];
    assert(spec_sh_quote(s) =~= seq!['\''] + (body + Seq::<char>::empty()));
    lemma_sh_read_shift(seq!['\''], body + Seq::<char>::empty(), 0, true);
    lemma_sh_quoted_body(s, Seq::<char>::empty());
    assert(s + Seq::<char>::empty() =~= s);
}

/// The character an AppleScript string escape `\x` stands for.
pub open spec fn as_unescape(x: char) -> char {
    if x == 'n' {
        '\n'
    } else if x == 't' {
        '\t'
    } else if x == 'r' {
        '\r'
    } else {
        x
    }
}

/// What AppleScript reads as the contents of a string literal whose opening
/// `"` came before `w[i..]`: up to the first unescaped `"`.
pub open spec fn as_read_from(w: Seq<char>, i: int) -> Seq<char>
    decreases w.len() - i,
{
    if i < 0 || i >= w.len() || w[i] == '"' {
        Seq::empty()
    } else if w[i] == '\\' && i + 1 < w.len() {
        seq![as_unescape(w[i + 1])] + as_read_from(w, i + 2)
    } else {
        seq![w[i]] + as_read_from(w, i + 1)
    }
}

proof fn lemma_as_read_shift(p: Seq<char>, q: Seq<char>, k: int)
    requires
        0 <= k <= q.len(),
    ensures
        as_read_from(p + q, p.len() + k) == as_read_from(q, k),
    decreases q.len() - k,
{
    if k < q.len() {
        assert((p + q)[p.len() + k] == q[k]);
        if k + 1 < q.len() {
            assert((p + q)[p.len() + k + 1] == q[k + 1]);
            lemma_as_read_shift(p, q, k + 2);
        }
        lemma_as_read_shift(p, q, k + 1);
    }
}

proof fn lemma_as_escape_front(c: char, t: Seq<char>)
    ensures
        spec_as_escape(seq![c] + t) == (if c == '\\' {
            seq!['\\', '\\']
        } else if c == '"' {
            seq!['\\', '"']
        } else {
            seq![c]
        }) + spec_as_escape(t),
{
    let bb = seq!['\\', '\\'];
    let bq = seq!['\\', '"'];
    lemma_replace_concat(seq![c], t, '\\', bb);
    lemma_replace_one(c, '\\', bb);
    let first = if c == '\\' {
        bb
    } else {
        seq![c]
    };
    lemma_replace_concat(first, replace_char(t, '\\', bb), '"', bq);
    if c == '\\' {
        assert(bb =~= seq!['\\'] + seq!['\\']);
        lemma_replace_concat(seq!['\\'], seq!['\\'], '"', bq);
        lemma_replace_one('\\', '"', bq);
        assert(seq!['\\'] + seq!['\\'] =~= bb);
    } else {
        lemma_replace_one(c, '"', bq);
    }
}

proof fn lemma_as_escape_body(s: Seq<char>, rest: Seq<char>)
    ensures
        as_read_from(spec_as_escape(s) + seq!['"'] + rest, 0) == s,
    decreases s.len(),
{
    if s.len() == 0 {
        assert(replace_char(Seq::<char>::empty(), '\\', seq!['\\', '\\']) =~= Seq::<char>::empty());
        assert(spec_as_escape(s) =~= Seq::<char>::empty());
        assert((spec_as_escape(s) + seq!['"'] + rest)[0] == '"');
    } else {
        let c = s[0];
        let t = s.drop_first();
        assert(seq![c] + t =~= s);
        lemma_as_escape_front(c, t);
        lemma_as_escape_body(t, rest);
        let tail = spec_as_escape(t) + seq!['"'] + rest;
        let w = spec_as_escape(s) + seq!['"'] + rest;
        if c == '\\' {
            assert(w =~= seq!['\\', '\\'] + tail);
            lemma_as_read_shift(seq!['\\', '\\'], tail, 0);
            assert(w[0] == '\\' && w[1] == '\\');
        } else if c == '"' {
            assert(w =~= seq!['\\', '"'] + tail);
            lemma_as_read_shift(seq!['\\', '"'], tail, 0);
            assert(w[0] == '\\' && w[1] == '"');
        } else {
            assert(w =~= seq![c] + tail);
            lemma_as_read_shift(seq![c], tail, 0);
            assert(w[0] == c);
        }
        assert(seq![c] + t =~= s);
    }
}

/// AppleScript reads an escaped text, placed in a string literal, back as
/// the text itself: every `\` and `"` survives, and the literal ends at
/// the closing quote.
pub proof fn lemma_as_escape_reads_back(s: Seq<char>, rest: Seq<char>)
    ensures
        as_read_from(spec_as_escape(s) + seq!['"'] + rest, 0) == s,
{
    lemma_as_escape_body(s, rest);
}

/// The elevation script's string literal holds exactly the relaunch
/// command: AppleScript reads back the quoted executable and arguments with
/// the output redirection.
pub proof fn lemma_elevation_script_command(exe: Seq<char>, args: Seq<Seq<char>>)
    ensures
        ({
            let prefix = "do shell script \""@;
            let script = spec_elevation_script(exe, args);
            as_read_from(script, prefix.len() as int) == spec_relaunch_command(exe, args)
                + " >/dev/null 2>&1"@
        }),
{
    let prefix = "do shell script \""@;
    let cmd = spec_relaunch_command(exe, args) + " >/dev/null 2>&1"@;
    let tail = " with administrator privileges"@;
    reveal_strlit("\" with administrator privileges");
    reveal_strlit(" with administrator privileges");
    let closing = "\" with administrator privileges"@;
    assert(closing =~= seq!['"'] + tail);
    let body = spec_as_escape(cmd) + seq!['"'] + tail;
    assert(spec_elevation_script(exe, args) =~= prefix + body);
    lemma_as_read_shift(prefix, body, 0);
    lemma_as_escape_body(cmd, tail);
}

} // verus!
