//! Marked configuration blocks in shell and tool rc files, and the parsing of
//! `networksetup` listings.

use vstd::prelude::*;
use crate::line_facts::{
    lemma_lines_blank_end, lemma_lines_cons, lemma_lines_newline_end, lemma_lines_one,
    lemma_lines_pieces, lemma_lines_split, lemma_piece_occurs, lemma_piece_trans, lemma_trim_piece,
};
use crate::text::{
    digit_char, is_ws, occurs_at, strip_cr, trim_end, trim_start,
    chars_eq, chars_of, contains_chars, contains_seq, extend_chars, lines, lines_from, push_decimal,
    slice_chars, spec_decimal, split_lines, starts_with, starts_with_chars, string_from_chars,
    trim, trim_chars, trim_end_char, trim_end_char_chars, trim_start_char, trim_start_char_chars,
};

verus! {

/// First line of a block this tool writes into a user's rc file.
pub const MARKER_BEGIN: &'static str = "# --- talpa BEGIN ---";

/// Last line of a block this tool writes into a user's rc file.
pub const MARKER_END: &'static str = "# --- talpa END ---";

/// What is kept of `ls[i..]` when block stripping is `inside` a block or not:
/// every line outside a BEGIN/END pair, each followed by a newline. A line is a
/// marker when it equals the marker once trimmed.
pub open spec fn kept_lines(ls: Seq<Seq<char>>, i: int, inside: bool) -> Seq<char>
    decreases ls.len() - i,
{
    if i >= ls.len() || i < 0 {
        Seq::empty()
    } else if trim(ls[i]) == MARKER_BEGIN@ {
        kept_lines(ls, i + 1, true)
    } else if trim(ls[i]) == MARKER_END@ {
        kept_lines(ls, i + 1, false)
    } else if inside {
        kept_lines(ls, i + 1, true)
    } else {
        ls[i].push('\n') + kept_lines(ls, i + 1, false)
    }
}

/// The content with every marked block removed, ending in exactly one newline.
pub open spec fn spec_remove_marked_block(content: Seq<char>) -> Seq<char> {
    trim_end_char(kept_lines(lines(content), 0, false), '\n').push('\n')
}

/// Removes every block delimited by the BEGIN/END marker lines (markers
/// included) from `content`. The result ends in exactly one newline.
pub fn remove_marked_block(content: &str) -> (res: String)
    ensures
        res@ == spec_remove_marked_block(content@),
{
    let chars = chars_of(content);
    let ls = split_lines(&chars);
    let begin = chars_of(MARKER_BEGIN);
    let end = chars_of(MARKER_END);
    let ghost all = lines(content@);
    let mut out: Vec<char> = Vec::new();
    let mut inside = false;
    let mut i: usize = 0;
    while i < ls.len()
        invariant
            0 <= i <= ls@.len(),
            ls@.len() == all.len(),
            forall|k: int| 0 <= k < ls@.len() ==> #[trigger] ls@[k]@ == all[k],
            begin@ == MARKER_BEGIN@,
            end@ == MARKER_END@,
            out@ + kept_lines(all, i as int, inside) == kept_lines(all, 0, false),
        decreases ls@.len() - i,
    {
        let line = &ls[i];
        let t = trim_chars(line);
        assert(ls@[i as int]@ == all[i as int]);
        if chars_eq(&t, &begin) {
            inside = true;
        } else if chars_eq(&t, &end) {
            inside = false;
        } else if !inside {
            let ghost before = out@;
            extend_chars(&mut out, line);
            out.push('\n');
            assert(out@ + kept_lines(all, i + 1, false) =~= before + (all[i as int].push('\n')
                + kept_lines(all, i + 1, false)));
        }
        i += 1;
    }
    assert(out@ =~= kept_lines(all, 0, false));
    let mut trimmed = trim_end_char_chars(&out, '\n');
    trimmed.push('\n');
    string_from_chars(&trimmed)
}

/// The proxy URL handed to tools: `socks5h://127.0.0.1:<port>`.
pub open spec fn spec_proxy_url(port: u16) -> Seq<char> {
    "socks5h://127.0.0.1:"@ + spec_decimal(port as nat)
}

/// Builds `socks5h://127.0.0.1:<port>`.
pub fn proxy_url(port: u16) -> (res: String)
    ensures
        res@ == spec_proxy_url(port),
{
    let mut v = chars_of("socks5h://127.0.0.1:");
    push_decimal(&mut v, port as u64);
    string_from_chars(&v)
}

/// A marked block holding `body` (which ends in a newline): a blank line,
/// the BEGIN marker, `body`, the END marker.
pub open spec fn marked(body: Seq<char>) -> Seq<char> {
    "\n"@ + MARKER_BEGIN@ + "\n"@ + body + MARKER_END@ + "\n"@
}

fn marked_chars(body: &[char]) -> (res: Vec<char>)
    ensures
        res@ == marked(body@),
{
    let mut v = chars_of("\n");
    extend_chars(&mut v, &chars_of(MARKER_BEGIN));
    extend_chars(&mut v, &chars_of("\n"));
    extend_chars(&mut v, body);
    extend_chars(&mut v, &chars_of(MARKER_END));
    extend_chars(&mut v, &chars_of("\n"));
    v
}

/// The lines written into `~/.npmrc`.
pub open spec fn spec_npmrc_block(port: u16) -> Seq<char> {
    marked("proxy="@ + spec_proxy_url(port) + "\nhttps-proxy="@ + spec_proxy_url(port) + "\n"@)
}

/// Builds the `~/.npmrc` block for `port`.
pub fn npmrc_block(port: u16) -> (res: String)
    ensures
        res@ == spec_npmrc_block(port),
{
    let url = chars_of(proxy_url(port).as_str());
    let mut body = chars_of("proxy=");
    extend_chars(&mut body, &url);
    extend_chars(&mut body, &chars_of("\nhttps-proxy="));
    extend_chars(&mut body, &url);
    extend_chars(&mut body, &chars_of("\n"));
    string_from_chars(&marked_chars(&body))
}

/// The lines written into `~/.curlrc`.
pub open spec fn spec_curlrc_block(port: u16) -> Seq<char> {
    marked("socks5-hostname=127.0.0.1:"@ + spec_decimal(port as nat) + "\n"@)
}

/// Builds the `~/.curlrc` block for `port`.
pub fn curlrc_block(port: u16) -> (res: String)
    ensures
        res@ == spec_curlrc_block(port),
{
    let mut body = chars_of("socks5-hostname=127.0.0.1:");
    push_decimal(&mut body, port as u64);
    extend_chars(&mut body, &chars_of("\n"));
    string_from_chars(&marked_chars(&body))
}

/// The lines written into `~/.zshrc`.
pub open spec fn spec_zshrc_block(port: u16) -> Seq<char> {
    marked(
        "export ALL_PROXY="@ + spec_proxy_url(port) + "\nexport HTTPS_PROXY="@ + spec_proxy_url(port)
            + "\nexport HTTP_PROXY="@ + spec_proxy_url(port) + "\n"@,
    )
}

/// Builds the `~/.zshrc` block for `port`.
pub fn zshrc_block(port: u16) -> (res: String)
    ensures
        res@ == spec_zshrc_block(port),
{
    let url = chars_of(proxy_url(port).as_str());
    let mut body = chars_of("export ALL_PROXY=");
    extend_chars(&mut body, &url);
    extend_chars(&mut body, &chars_of("\nexport HTTPS_PROXY="));
    extend_chars(&mut body, &url);
    extend_chars(&mut body, &chars_of("\nexport HTTP_PROXY="));
    extend_chars(&mut body, &url);
    extend_chars(&mut body, &chars_of("\n"));
    string_from_chars(&marked_chars(&body))
}

/// The new content of an rc file once `block` is appended, or `None` when
/// the file already holds a block (it is then left alone).
pub open spec fn spec_with_block(content: Seq<char>, block: Seq<char>) -> Option<Seq<char>> {
    if contains_seq(content, MARKER_BEGIN@) {
        None
    } else {
        Some(content + block)
    }
}

/// Appends `block` to `content` unless a block is already there.
pub fn with_block(content: &str, block: &str) -> (res: Option<String>)
    ensures
        match spec_with_block(content@, block@) {
            Some(c) => (res matches Some(r) && r@ == c),
            None => res is None,
        },
{
    let c = chars_of(content);
    if contains_chars(&c, &chars_of(MARKER_BEGIN)) {
        None
    } else {
        Some(concat_chars(&c, &chars_of(block)))
    }
}

fn concat_chars(a: &[char], b: &[char]) -> (res: String)
    ensures
        res@ == a@ + b@,
{
    let mut v = slice_chars(a, 0, a.len());
    assert(a@.subrange(0, a@.len() as int) =~= a@);
    extend_chars(&mut v, b);
    string_from_chars(&v)
}

/// The new content of an rc file once its blocks are removed, or `None`
/// when it holds none (it is then left alone).
pub open spec fn spec_without_block(content: Seq<char>) -> Option<Seq<char>> {
    if contains_seq(content, MARKER_BEGIN@) {
        Some(spec_remove_marked_block(content))
    } else {
        None
    }
}

/// Removes the marked blocks of `content`, if it holds any.
pub fn without_block(content: &str) -> (res: Option<String>)
    ensures
        match spec_without_block(content@) {
            Some(c) => (res matches Some(r) && r@ == c),
            None => res is None,
        },
{
    if contains_chars(&chars_of(content), &chars_of(MARKER_BEGIN)) {
        Some(remove_marked_block(content))
    } else {
        None
    }
}

/// The prefix of a port line in `networksetup -listallhardwareports`.
pub open spec fn port_prefix() -> Seq<char> {
    "Hardware Port: "@
}

/// The hardware port names listed in `ls`: each line that begins with the
/// port prefix, without it, in order.
pub open spec fn ports_in(ls: Seq<Seq<char>>) -> Seq<Seq<char>>
    decreases ls.len(),
{
    if ls.len() == 0 {
        Seq::empty()
    } else if starts_with(ls.last(), port_prefix()) {
        ports_in(ls.drop_last()).push(ls.last().subrange(port_prefix().len() as int, ls.last().len() as int))
    } else {
        ports_in(ls.drop_last())
    }
}

/// The name of a service line of `networksetup -listallnetworkservices`:
/// leading `*` (disabled services) removed, then trimmed.
pub open spec fn service_name(line: Seq<char>) -> Seq<char> {
    trim(trim_start_char(line, '*'))
}

/// The services of `ls` whose name is not empty and is a hardware port.
pub open spec fn services_in(ls: Seq<Seq<char>>, ports: Seq<Seq<char>>) -> Seq<Seq<char>>
    decreases ls.len(),
{
    if ls.len() == 0 {
        Seq::empty()
    } else {
        let name = service_name(ls.last());
        if name.len() > 0 && ports.contains(name) {
            services_in(ls.drop_last(), ports).push(name)
        } else {
            services_in(ls.drop_last(), ports)
        }
    }
}

/// The network services backed by a hardware port: the service listing
/// without its first (header) line, matched against the port listing.
pub open spec fn spec_hw_services(hw_out: Seq<char>, svc_out: Seq<char>) -> Seq<Seq<char>> {
    let svc = lines(svc_out);
    services_in(if svc.len() == 0 { svc } else { svc.drop_first() }, ports_in(lines(hw_out)))
}

/// Whether a line of the port listing names a hardware port.
pub open spec fn is_port_line() -> spec_fn(Seq<char>) -> bool {
    |l: Seq<char>| starts_with(l, port_prefix())
}

/// The port name on a port line.
pub open spec fn port_of_line() -> spec_fn(Seq<char>) -> Seq<char> {
    |l: Seq<char>| l.subrange(port_prefix().len() as int, l.len() as int)
}

/// The service name on a line of the service listing.
pub open spec fn name_of_line() -> spec_fn(Seq<char>) -> Seq<char> {
    |l: Seq<char>| service_name(l)
}

/// Whether a service name is worth setting the proxy on: not empty, and a
/// hardware port.
pub open spec fn is_port_service(ports: Seq<Seq<char>>) -> spec_fn(Seq<char>) -> bool {
    |n: Seq<char>| n.len() > 0 && ports.contains(n)
}

/// A service line's name drops the `*` that marks a disabled service and
/// the whitespace around the name; a line that is already a bare name is
/// its own name.
pub proof fn lemma_service_name(x: Seq<char>)
    ensures
        service_name(seq!['*'] + x) == service_name(x),
        x.len() > 0 && x[0] != '*' && !is_ws(x[0]) && !is_ws(x.last()) ==> service_name(x) == x,
{
    let sx = seq!['*'] + x;
    assert(sx.drop_first() =~= x);
    assert(trim_start_char(sx, '*') == trim_start_char(x, '*'));
    if x.len() > 0 && x[0] != '*' && !is_ws(x[0]) && !is_ws(x.last()) {
        assert(trim_start_char(x, '*') == x);
        assert(trim_start(x) == x);
        assert(trim_end(x) == x);
    }
}

proof fn lemma_services_filter(ls: Seq<Seq<char>>, ports: Seq<Seq<char>>)
    ensures
        services_in(ls, ports) == ls.map_values(name_of_line()).filter(is_port_service(ports)),
    decreases ls.len(),
{
    reveal(Seq::filter);
    let names = ls.map_values(name_of_line());
    if ls.len() > 0 {
        lemma_services_filter(ls.drop_last(), ports);
        assert(names.drop_last() =~= ls.drop_last().map_values(name_of_line()));
        assert(names.last() == service_name(ls.last()));
    } else {
        assert(names =~= Seq::<Seq<char>>::empty());
    }
}

proof fn lemma_ports_filter(ls: Seq<Seq<char>>)
    ensures
        ports_in(ls) == ls.filter(is_port_line()).map_values(port_of_line()),
    decreases ls.len(),
{
    reveal(Seq::filter);
    let f = ls.filter(is_port_line());
    if ls.len() > 0 {
        lemma_ports_filter(ls.drop_last());
        let g = ls.drop_last().filter(is_port_line());
        if starts_with(ls.last(), port_prefix()) {
            assert(f == g.push(ls.last()));
            assert(f.map_values(port_of_line()) =~= g.map_values(port_of_line()).push(
                ls.last().subrange(port_prefix().len() as int, ls.last().len() as int),
            ));
        } else {
            assert(f == g);
        }
    } else {
        assert(f =~= Seq::<Seq<char>>::empty());
    }
}

/// The services picked are, in the order of the service listing, the names
/// (leading `*` removed, trimmed) of its lines after the header that are
/// not empty and are the name of a hardware port; the hardware ports are the
/// lines of the port listing that begin with `Hardware Port: `, without it.
/// So every listed service after the header whose name is a hardware port is
/// picked, and nothing else is.
pub proof fn lemma_hw_services_are_listed_ports(hw_out: Seq<char>, svc_out: Seq<char>)
    ensures
        ({
            let svc = lines(svc_out);
            let ports = lines(hw_out).filter(is_port_line()).map_values(port_of_line());
            let res = spec_hw_services(hw_out, svc_out);
            &&& svc.len() == 0 ==> res.len() == 0
            &&& svc.len() > 0 ==> res == svc.subrange(1, svc.len() as int).map_values(
                name_of_line(),
            ).filter(is_port_service(ports))
            &&& forall|k: int|
                1 <= k < svc.len() && service_name(#[trigger] svc[k]).len() > 0 && ports.contains(
                    service_name(svc[k]),
                ) ==> res.contains(service_name(svc[k]))
            &&& forall|j: int|
                0 <= j < res.len() ==> (#[trigger] res[j]).len() > 0 && ports.contains(res[j])
        }),
{
    let hw = lines(hw_out);
    let svc = lines(svc_out);
    lemma_ports_filter(hw);
    let ports = ports_in(hw);
    let pred = is_port_service(ports);
    let res = spec_hw_services(hw_out, svc_out);
    if svc.len() > 0 {
        let rest = svc.drop_first();
        assert(rest =~= svc.subrange(1, svc.len() as int));
        lemma_services_filter(rest, ports);
        let names = rest.map_values(name_of_line());
        assert(res == names.filter(pred));
        assert forall|k: int|
            1 <= k < svc.len() && service_name(#[trigger] svc[k]).len() > 0 && ports.contains(
                service_name(svc[k]),
            ) implies res.contains(service_name(svc[k])) by {
            assert(names[k - 1] == service_name(svc[k]));
            names.lemma_filter_contains(pred, k - 1);
        }
        assert forall|j: int| 0 <= j < res.len() implies (#[trigger] res[j]).len() > 0
            && ports.contains(res[j]) by {
            names.lemma_filter_pred(pred, j);
        }
    }
}

fn seq_contains(items: &Vec<Vec<char>>, x: &[char]) -> (res: bool)
    ensures
        res == items@.map_values(|v: Vec<char>| v@).contains(x@),
{
    let ghost views = items@.map_values(|v: Vec<char>| v@);
    let mut i: usize = 0;
    while i < items.len()
        invariant
            0 <= i <= items@.len(),
            views == items@.map_values(|v: Vec<char>| v@),
            forall|k: int| 0 <= k < i ==> views[k] != x@,
        decreases items@.len() - i,
    {
        if chars_eq(&items[i], x) {
            assert(views[i as int] == x@);
            return true;
        }
        i += 1;
    }
    false
}

/// The network services that sit on a hardware port, from the output of
/// `networksetup -listallhardwareports` and `-listallnetworkservices`.
pub fn hw_services(hw_out: &str, svc_out: &str) -> (res: Vec<String>)
    ensures
        res@.map_values(|s: String| s@) == spec_hw_services(hw_out@, svc_out@),
{
    let hw = split_lines(&chars_of(hw_out));
    let ghost hl = lines(hw_out@);
    let prefix = chars_of("Hardware Port: ");
    let mut ports: Vec<Vec<char>> = Vec::new();
    let mut i: usize = 0;
    while i < hw.len()
        invariant
            0 <= i <= hw@.len(),
            hw@.len() == hl.len(),
            forall|k: int| 0 <= k < hw@.len() ==> #[trigger] hw@[k]@ == hl[k],
            prefix@ == port_prefix(),
            ports@.map_values(|v: Vec<char>| v@) == ports_in(hl.subrange(0, i as int)),
        decreases hw@.len() - i,
    {
        let ghost sub = hl.subrange(0, i + 1);
        assert(sub.drop_last() =~= hl.subrange(0, i as int));
        assert(sub.last() == hw@[i as int]@);
        if starts_with_chars(&hw[i], &prefix) {
            let name = slice_chars(&hw[i], prefix.len(), hw[i].len());
            ports.push(name);
            assert(ports@.map_values(|v: Vec<char>| v@) =~= ports_in(sub));
        }
        i += 1;
    }
    assert(hl.subrange(0, hl.len() as int) =~= hl);
    let svc = split_lines(&chars_of(svc_out));
    let ghost sl = lines(svc_out@);
    let ghost rest = if sl.len() == 0 { sl } else { sl.drop_first() };
    let mut out: Vec<String> = Vec::new();
    let mut j: usize = if svc.len() == 0 { 0 } else { 1 };
    let start = j;
    while j < svc.len()
        invariant
            start <= j <= svc@.len(),
            start == (if svc@.len() == 0 { 0int } else { 1int }),
            svc@.len() == sl.len(),
            forall|k: int| 0 <= k < svc@.len() ==> #[trigger] svc@[k]@ == sl[k],
            rest == (if sl.len() == 0 { sl } else { sl.drop_first() }),
            ports@.map_values(|v: Vec<char>| v@) == ports_in(hl),
            out@.map_values(|s: String| s@) == services_in(rest.subrange(0, j - start), ports_in(hl)),
        decreases svc@.len() - j,
    {
        let ghost sub = rest.subrange(0, j - start + 1);
        assert(sub.drop_last() =~= rest.subrange(0, j - start));
        assert(sub.last() == svc@[j as int]@);
        let name = trim_chars(&trim_start_char_chars(&svc[j], '*'));
        if name.len() > 0 && seq_contains(&ports, &name) {
            out.push(string_from_chars(&name));
            assert(out@.map_values(|s: String| s@) =~= services_in(sub, ports_in(hl)));
        }
        j += 1;
    }
    assert(rest.subrange(0, rest.len() as int) =~= rest);
    out
}

proof fn lemma_kept_shift(l1: Seq<Seq<char>>, l2: Seq<Seq<char>>, k: int, inside: bool)
    requires
        0 <= k <= l2.len(),
    ensures
        kept_lines(l1 + l2, l1.len() + k, inside) == kept_lines(l2, k, inside),
    decreases l2.len() - k,
{
    if k < l2.len() {
        assert((l1 + l2)[l1.len() + k] == l2[k]);
        lemma_kept_shift(l1, l2, k + 1, true);
        lemma_kept_shift(l1, l2, k + 1, false);
    }
}

proof fn lemma_kept_concat(l1: Seq<Seq<char>>, l2: Seq<Seq<char>>, i: int)
    requires
        0 <= i <= l1.len(),
        forall|k: int| i <= k < l1.len() ==> trim(#[trigger] l1[k]) != MARKER_BEGIN@,
    ensures
        kept_lines(l1 + l2, i, false) == kept_lines(l1, i, false) + kept_lines(l2, 0, false),
    decreases l1.len() - i,
{
    if i < l1.len() {
        assert((l1 + l2)[i] == l1[i]);
        lemma_kept_concat(l1, l2, i + 1);
        if trim(l1[i]) != MARKER_END@ {
            assert(l1[i].push('\n') + (kept_lines(l1, i + 1, false) + kept_lines(l2, 0, false))
                =~= (l1[i].push('\n') + kept_lines(l1, i + 1, false)) + kept_lines(l2, 0, false));
        }
    } else {
        lemma_kept_shift(l1, l2, 0, false);
        assert(Seq::<char>::empty() + kept_lines(l2, 0, false) =~= kept_lines(l2, 0, false));
    }
}

proof fn lemma_decimal_digits(n: nat)
    ensures
        spec_decimal(n).len() > 0,
        forall|k: int|
            0 <= k < spec_decimal(n).len() ==> '0' <= #[trigger] spec_decimal(n)[k] && spec_decimal(
                n,
            )[k] <= '9',
    decreases n,
{
    if n >= 10 {
        lemma_decimal_digits(n / 10);
    }
}

/// The text of consecutive lines, each ended by a newline.
pub open spec fn joined(ls: Seq<Seq<char>>) -> Seq<char>
    decreases ls.len(),
{
    if ls.len() == 0 {
        Seq::empty()
    } else {
        ls[0] + (seq!['\n'] + joined(ls.drop_first()))
    }
}

proof fn lemma_joined_one(x: Seq<char>)
    ensures
        joined(seq![x]) == x + seq!['\n'],
{
    assert(seq![x].drop_first() =~= Seq::<Seq<char>>::empty());
    assert(joined(Seq::<Seq<char>>::empty()) == Seq::<char>::empty());
    assert(x + (seq!['\n'] + Seq::<char>::empty()) =~= x + seq!['\n']);
}

proof fn lemma_joined_cons(x: Seq<char>, rest: Seq<Seq<char>>)
    ensures
        joined(seq![x] + rest) == x + (seq!['\n'] + joined(rest)),
{
    assert((seq![x] + rest).drop_first() =~= rest);
    assert((seq![x] + rest)[0] == x);
}

proof fn lemma_joined_concat(a: Seq<Seq<char>>, b: Seq<Seq<char>>)
    ensures
        joined(a + b) == joined(a) + joined(b),
    decreases a.len(),
{
    if a.len() == 0 {
        assert(a + b =~= b);
        assert(Seq::<char>::empty() + joined(b) =~= joined(b));
    } else {
        assert((a + b).drop_first() =~= a.drop_first() + b);
        assert((a + b)[0] == a[0]);
        lemma_joined_concat(a.drop_first(), b);
        assert(a[0] + (seq!['\n'] + (joined(a.drop_first()) + joined(b))) =~= (a[0] + (seq!['\n']
            + joined(a.drop_first()))) + joined(b));
    }
}

/// A line this tool writes inside a block: not empty, no newline, no
/// surrounding whitespace, no trailing carriage return, not a marker.
pub open spec fn text_line(l: Seq<char>) -> bool {
    &&& l.len() > 0
    &&& forall|k: int| 0 <= k < l.len() ==> l[k] != '\n'
    &&& !is_ws(l[0])
    &&& !is_ws(l.last())
    &&& l.last() != '\r'
    &&& l[0] != '#'
}

proof fn lemma_text_line(l: Seq<char>)
    requires
        text_line(l),
    ensures
        strip_cr(l) == l,
        trim(l) == l,
        trim(l) != MARKER_BEGIN@,
        trim(l) != MARKER_END@,
{
    reveal_strlit("# --- talpa BEGIN ---");
    reveal_strlit("# --- talpa END ---");
    assert(trim_start(l) == l);
    assert(trim_end(l) == l);
    assert(MARKER_BEGIN@[0] == '#');
    assert(MARKER_END@[0] == '#');
}

proof fn lemma_lines_joined(ls: Seq<Seq<char>>)
    requires
        forall|k: int|
            0 <= k < ls.len() ==> (forall|j: int| 0 <= j < ls[k].len() ==> ls[k][j] != '\n') && strip_cr(
                #[trigger] ls[k],
            ) == ls[k],
    ensures
        lines(joined(ls)) == ls,
    decreases ls.len(),
{
    if ls.len() == 0 {
        assert(lines(Seq::<char>::empty()) =~= Seq::<Seq<char>>::empty());
    } else {
        assert forall|k: int|
            0 <= k < ls.drop_first().len() implies (forall|j: int|
            0 <= j < ls.drop_first()[k].len() ==> ls.drop_first()[k][j] != '\n') && strip_cr(
            #[trigger] ls.drop_first()[k],
        ) == ls.drop_first()[k] by {
            assert(ls.drop_first()[k] == ls[k + 1]);
        }
        lemma_lines_joined(ls.drop_first());
        lemma_lines_cons(ls[0], joined(ls.drop_first()));
        assert(seq![ls[0]] + ls.drop_first() =~= ls);
    }
}

proof fn lemma_kept_inside(ls: Seq<Seq<char>>, i: int)
    requires
        1 <= i < ls.len(),
        trim(ls.last()) == MARKER_END@,
        forall|k: int|
            i <= k < ls.len() - 1 ==> trim(#[trigger] ls[k]) != MARKER_BEGIN@ && trim(ls[k])
                != MARKER_END@,
    ensures
        kept_lines(ls, i, true) == Seq::<char>::empty(),
    decreases ls.len() - i,
{
    reveal_strlit("# --- talpa BEGIN ---");
    reveal_strlit("# --- talpa END ---");
    assert(MARKER_END@ != MARKER_BEGIN@) by {
        assert(MARKER_END@.len() != MARKER_BEGIN@.len());
    }
    assert(ls.last() == ls[ls.len() - 1]);
    if i < ls.len() - 1 {
        lemma_kept_inside(ls, i + 1);
    } else {
        assert(kept_lines(ls, i + 1, false) == Seq::<char>::empty());
    }
}

/// A block holding the lines `mid` is one BEGIN line, `mid`, one END line,
/// and none of it survives block removal.
proof fn lemma_block_lines(mid: Seq<Seq<char>>)
    requires
        forall|k: int| 0 <= k < mid.len() ==> text_line(#[trigger] mid[k]),
    ensures
        marked(joined(mid))[0] == '\n',
        marked(joined(mid)).len() > 0,
        kept_lines(lines(marked(joined(mid)).drop_first()), 0, false) == Seq::<char>::empty(),
        occurs_at(marked(joined(mid)), MARKER_BEGIN@, 1),
{
    reveal_strlit("# --- talpa BEGIN ---");
    reveal_strlit("# --- talpa END ---");
    reveal_strlit("\n");
    let b = MARKER_BEGIN@;
    let e = MARKER_END@;
    let ls = seq![b] + mid + seq![e];
    lemma_joined_concat(seq![b] + mid, seq![e]);
    lemma_joined_concat(seq![b], mid);
    lemma_joined_one(b);
    lemma_joined_one(e);
    let m = marked(joined(mid));
    assert(m.drop_first() =~= joined(ls));
    assert forall|k: int| 0 <= k < ls.len() implies (forall|j: int|
        0 <= j < ls[k].len() ==> ls[k][j] != '\n') && strip_cr(#[trigger] ls[k]) == ls[k] by {
        if k == 0 {
            assert(ls[k] == b);
        } else if k == ls.len() - 1 {
            assert(ls[k] == e);
        } else {
            assert(ls[k] == mid[k - 1]);
            lemma_text_line(mid[k - 1]);
        }
    }
    lemma_lines_joined(ls);
    assert(trim_start(b) == b);
    assert(trim_end(b) == b);
    assert(trim_start(e) == e);
    assert(trim_end(e) == e);
    assert(ls[0] == b);
    assert(ls.last() == e);
    assert forall|k: int| 1 <= k < ls.len() - 1 implies trim(#[trigger] ls[k]) != MARKER_BEGIN@ && trim(
        ls[k],
    ) != MARKER_END@ by {
        assert(ls[k] == mid[k - 1]);
        lemma_text_line(mid[k - 1]);
    }
    lemma_kept_inside(ls, 1);
    assert(m.subrange(1, 1 + b.len() as int) =~= b);
}

proof fn lemma_number_line(lit: Seq<char>, n: nat)
    requires
        lit.len() > 0,
        forall|k: int| 0 <= k < lit.len() ==> lit[k] != '\n',
        !is_ws(lit[0]),
        lit[0] != '#',
    ensures
        text_line(lit + spec_decimal(n)),
{
    lemma_decimal_digits(n);
    let l = lit + spec_decimal(n);
    assert(l.last() == spec_decimal(n)[spec_decimal(n).len() - 1]);
    assert forall|k: int| 0 <= k < l.len() implies l[k] != '\n' by {
        if k >= lit.len() {
            assert(l[k] == spec_decimal(n)[k - lit.len()]);
        }
    }
}

proof fn lemma_no_begin_line(content: Seq<char>)
    requires
        !contains_seq(content, MARKER_BEGIN@),
    ensures
        forall|k: int|
            0 <= k < lines(content.push('\n')).len() ==> trim(#[trigger] lines(content.push('\n'))[k])
                != MARKER_BEGIN@,
{
    reveal_strlit("# --- talpa BEGIN ---");
    let b = MARKER_BEGIN@;
    let c1 = content.push('\n');
    let l1 = lines(c1);
    lemma_lines_pieces(c1);
    assert forall|k: int| 0 <= k < l1.len() implies trim(#[trigger] l1[k]) != b by {
        lemma_trim_piece(l1[k]);
        if trim(l1[k]) == b {
            lemma_piece_trans(trim(l1[k]), l1[k], c1);
            lemma_piece_occurs(b, c1);
            let j = choose|j: int| occurs_at(c1, b, j);
            assert(c1.subrange(j, j + b.len())[b.len() - 1] == b[b.len() - 1]);
            assert(j + b.len() <= content.len());
            assert(c1.subrange(j, j + b.len()) =~= content.subrange(j, j + b.len()));
            assert(occurs_at(content, b, j));
        }
    }
}

proof fn lemma_ended_same(content: Seq<char>)
    requires
        !contains_seq(content, MARKER_BEGIN@),
        content.len() == 0 || content.last() != '\r',
    ensures
        trim_end_char(kept_lines(lines(content.push('\n')), 0, false), '\n') == trim_end_char(
            kept_lines(lines(content), 0, false),
            '\n',
        ),
{
    reveal_strlit("# --- talpa BEGIN ---");
    reveal_strlit("# --- talpa END ---");
    let b = MARKER_BEGIN@;
    let c1 = content.push('\n');
    let l1 = lines(c1);
    let lc = lines(content);
    let e = Seq::<char>::empty();
    assert(trim_start(e) == e);
    assert(trim_end(e) == e);
    if content.len() == 0 {
        lemma_lines_one(e);
        assert(e.push('\n') =~= c1);
        assert(lc =~= Seq::<Seq<char>>::empty());
        assert(l1 == seq![e]);
        assert(kept_lines(l1, 1, false) == e);
        assert(kept_lines(l1, 0, false) =~= seq!['\n']);
        assert(seq!['\n'].drop_last() =~= e);
    } else if content.last() == '\n' {
        lemma_no_begin_line(content);
        lemma_lines_blank_end(content);
        assert(l1 == lc + seq![e]);
        assert forall|k: int| 0 <= k < lc.len() implies trim(#[trigger] lc[k]) != b by {
            assert(lc[k] == l1[k]);
        }
        lemma_kept_concat(lc, seq![e], 0);
        let one = seq![e];
        assert(kept_lines(one, 1, false) == e);
        assert(kept_lines(one, 0, false) =~= seq!['\n']);
        let kc = kept_lines(lc, 0, false);
        assert((kc + seq!['\n']).drop_last() =~= kc);
    } else {
        lemma_lines_newline_end(content);
    }
}

/// Appending a marked block to `content` and then removing the blocks gives
/// what removing them from `content` alone gives.
proof fn lemma_marked_undone(content: Seq<char>, mid: Seq<Seq<char>>)
    requires
        !contains_seq(content, MARKER_BEGIN@),
        content.len() == 0 || content.last() != '\r',
        forall|k: int| 0 <= k < mid.len() ==> text_line(#[trigger] mid[k]),
    ensures
        spec_without_block(content + marked(joined(mid))) == Some(spec_remove_marked_block(content)),
{
    reveal_strlit("# --- talpa BEGIN ---");
    let block = marked(joined(mid));
    let b = MARKER_BEGIN@;
    lemma_block_lines(mid);
    let at = content.len() as int + 1;
    assert(occurs_at(content + block, b, at)) by {
        assert((content + block).subrange(at, at + b.len()) =~= block.subrange(1, 1 + b.len() as int));
    }
    lemma_lines_split(content, block);
    let l1 = lines(content.push('\n'));
    lemma_no_begin_line(content);
    let l2 = lines(block.drop_first());
    lemma_kept_concat(l1, l2, 0);
    assert(kept_lines(l1, 0, false) + Seq::<char>::empty() =~= kept_lines(l1, 0, false));
    lemma_ended_same(content);
}

/// Appending any of the blocks this tool writes to an rc file that holds
/// none, then removing the marked blocks, leaves the file as removing them
/// would have left it before: the block leaves no trace. (A file whose last
/// character is a carriage return is left out: appending the block turns
/// that unterminated last line into a terminated one, which drops the `\r`.)
#[verifier::spinoff_prover]
pub proof fn lemma_block_removal_undoes_append(content: Seq<char>, port: u16)
    requires
        !contains_seq(content, MARKER_BEGIN@),
        content.len() == 0 || content.last() != '\r',
    ensures
        spec_with_block(content, spec_npmrc_block(port)) == Some(content + spec_npmrc_block(port)),
        spec_without_block(content + spec_npmrc_block(port)) == Some(spec_remove_marked_block(content)),
        spec_with_block(content, spec_curlrc_block(port)) == Some(content + spec_curlrc_block(port)),
        spec_without_block(content + spec_curlrc_block(port)) == Some(spec_remove_marked_block(content)),
        spec_with_block(content, spec_zshrc_block(port)) == Some(content + spec_zshrc_block(port)),
        spec_without_block(content + spec_zshrc_block(port)) == Some(spec_remove_marked_block(content)),
{
    reveal_strlit("socks5h://127.0.0.1:");
    reveal_strlit("proxy=");
    reveal_strlit("\nhttps-proxy=");
    reveal_strlit("https-proxy=");
    reveal_strlit("\n");
    reveal_strlit("socks5-hostname=127.0.0.1:");
    reveal_strlit("export ALL_PROXY=");
    reveal_strlit("\nexport HTTPS_PROXY=");
    reveal_strlit("export HTTPS_PROXY=");
    reveal_strlit("\nexport HTTP_PROXY=");
    reveal_strlit("export HTTP_PROXY=");
    let d = spec_decimal(port as nat);
    let url = spec_proxy_url(port);
    let scheme = "socks5h://127.0.0.1:"@;
    // ~/.npmrc
    let n1 = "proxy="@ + url;
    let n2 = "https-proxy="@ + url;
    assert(n1 =~= ("proxy="@ + scheme) + d);
    assert(n2 =~= ("https-proxy="@ + scheme) + d);
    lemma_number_line("proxy="@ + scheme, port as nat);
    lemma_number_line("https-proxy="@ + scheme, port as nat);
    let npm = seq![n1, n2];
    assert(joined(npm) =~= "proxy="@ + url + "\nhttps-proxy="@ + url + "\n"@) by {
        lemma_joined_one(n2);
        lemma_joined_cons(n1, seq![n2]);
        assert(seq![n1] + seq![n2] =~= npm);
    }
    lemma_marked_undone(content, npm);
    // ~/.curlrc
    let c1 = "socks5-hostname=127.0.0.1:"@ + d;
    lemma_number_line("socks5-hostname=127.0.0.1:"@, port as nat);
    let curl = seq![c1];
    assert(joined(curl) =~= c1 + "\n"@) by {
        lemma_joined_one(c1);
    }
    lemma_marked_undone(content, curl);
    // ~/.zshrc
    let z1 = "export ALL_PROXY="@ + url;
    let z2 = "export HTTPS_PROXY="@ + url;
    let z3 = "export HTTP_PROXY="@ + url;
    assert(z1 =~= ("export ALL_PROXY="@ + scheme) + d);
    assert(z2 =~= ("export HTTPS_PROXY="@ + scheme) + d);
    assert(z3 =~= ("export HTTP_PROXY="@ + scheme) + d);
    lemma_number_line("export ALL_PROXY="@ + scheme, port as nat);
    lemma_number_line("export HTTPS_PROXY="@ + scheme, port as nat);
    lemma_number_line("export HTTP_PROXY="@ + scheme, port as nat);
    let zsh = seq![z1, z2, z3];
    assert(joined(zsh) =~= z1 + "\nexport HTTPS_PROXY="@ + url + "\nexport HTTP_PROXY="@ + url
        + "\n"@) by {
        lemma_joined_one(z3);
        lemma_joined_cons(z2, seq![z3]);
        assert(seq![z2] + seq![z3] =~= seq![z2, z3]);
        lemma_joined_cons(z1, seq![z2, z3]);
        assert(seq![z1] + seq![z2, z3] =~= zsh);
    }
    lemma_marked_undone(content, zsh);
}

/// A line with neither a newline nor a carriage return in it.
pub open spec fn plain_line(l: Seq<char>) -> bool {
    forall|j: int| 0 <= j < l.len() ==> l[j] != '\n' && l[j] != '\r'
}

/// A line that block removal drops as a marker.
pub open spec fn marker_line(l: Seq<char>) -> bool {
    trim(l) == MARKER_BEGIN@ || trim(l) == MARKER_END@
}

/// The lines that `kept_lines` keeps, in order.
spec fn kept_seq(ls: Seq<Seq<char>>, i: int, inside: bool) -> Seq<Seq<char>>
    decreases ls.len() - i,
{
    if i >= ls.len() || i < 0 {
        Seq::empty()
    } else if trim(ls[i]) == MARKER_BEGIN@ {
        kept_seq(ls, i + 1, true)
    } else if trim(ls[i]) == MARKER_END@ {
        kept_seq(ls, i + 1, false)
    } else if inside {
        kept_seq(ls, i + 1, true)
    } else {
        seq![ls[i]] + kept_seq(ls, i + 1, false)
    }
}

/// How many lines are left of `ls` once its trailing empty lines are dropped.
spec fn filled_len(ls: Seq<Seq<char>>) -> nat
    decreases ls.len(),
{
    if ls.len() == 0 {
        0
    } else if ls.last().len() == 0 {
        filled_len(ls.drop_last())
    } else {
        ls.len()
    }
}

proof fn lemma_kept_seq(ls: Seq<Seq<char>>, i: int, inside: bool)
    requires
        0 <= i <= ls.len(),
        forall|k: int| 0 <= k < ls.len() ==> plain_line(#[trigger] ls[k]),
    ensures
        kept_lines(ls, i, inside) == joined(kept_seq(ls, i, inside)),
        forall|k: int|
            0 <= k < kept_seq(ls, i, inside).len() ==> plain_line(#[trigger] kept_seq(ls, i, inside)[k])
                && !marker_line(kept_seq(ls, i, inside)[k]),
    decreases ls.len() - i,
{
    if i < ls.len() {
        lemma_kept_seq(ls, i + 1, true);
        lemma_kept_seq(ls, i + 1, false);
        if trim(ls[i]) != MARKER_BEGIN@ && trim(ls[i]) != MARKER_END@ && !inside {
            let rest = kept_seq(ls, i + 1, false);
            lemma_joined_cons(ls[i], rest);
            assert(ls[i].push('\n') + joined(rest) =~= ls[i] + (seq!['\n'] + joined(rest)));
            assert forall|k: int|
                0 <= k < (seq![ls[i]] + rest).len() implies plain_line(
                #[trigger] (seq![ls[i]] + rest)[k],
            ) && !marker_line((seq![ls[i]] + rest)[k]) by {
                if k > 0 {
                    assert((seq![ls[i]] + rest)[k] == rest[k - 1]);
                }
            }
        }
    } else {
        assert(joined(Seq::<Seq<char>>::empty()) == Seq::<char>::empty());
    }
}

proof fn lemma_lines_plain_from(s: Seq<char>, i: int, cur: Seq<char>)
    requires
        0 <= i <= s.len(),
        plain_line(cur),
        forall|k: int| 0 <= k < s.len() ==> s[k] != '\r',
    ensures
        forall|k: int|
            0 <= k < lines_from(s, i, cur).len() ==> plain_line(#[trigger] lines_from(s, i, cur)[k]),
    decreases s.len() - i,
{
    if i < s.len() {
        if s[i] == '\n' {
            lemma_lines_plain_from(s, i + 1, Seq::empty());
            let rest = lines_from(s, i + 1, Seq::empty());
            assert(lines_from(s, i, cur) == seq![strip_cr(cur)] + rest);
            assert forall|k: int|
                0 <= k < (seq![strip_cr(cur)] + rest).len() implies plain_line(
                #[trigger] (seq![strip_cr(cur)] + rest)[k],
            ) by {
                if k > 0 {
                    assert((seq![strip_cr(cur)] + rest)[k] == rest[k - 1]);
                } else {
                    assert(forall|j: int| 0 <= j < strip_cr(cur).len() ==> strip_cr(cur)[j] == cur[j]);
                    assert(plain_line(strip_cr(cur)));
                }
            }
        } else {
            assert(plain_line(cur.push(s[i])));
            lemma_lines_plain_from(s, i + 1, cur.push(s[i]));
            assert(lines_from(s, i, cur) == lines_from(s, i + 1, cur.push(s[i])));
        }
    } else if cur.len() > 0 {
        assert(seq![cur][0] == cur);
    }
}

proof fn lemma_joined_last(ls: Seq<Seq<char>>)
    requires
        ls.len() > 0,
    ensures
        joined(ls) == joined(ls.drop_last()) + (ls.last() + seq!['\n']),
{
    lemma_joined_concat(ls.drop_last(), seq![ls.last()]);
    lemma_joined_one(ls.last());
    assert(ls.drop_last() + seq![ls.last()] =~= ls);
}

/// Trimming the trailing newlines of joined lines drops the trailing empty
/// lines and the newline of the last line left.
proof fn lemma_trim_joined(ls: Seq<Seq<char>>)
    requires
        forall|k: int| 0 <= k < ls.len() ==> plain_line(#[trigger] ls[k]),
    ensures
        filled_len(ls) <= ls.len(),
        filled_len(ls) > 0 ==> ls[filled_len(ls) - 1].len() > 0,
        trim_end_char(joined(ls), '\n') == if filled_len(ls) == 0 {
            Seq::<char>::empty()
        } else {
            joined(ls.subrange(0, filled_len(ls) as int)).drop_last()
        },
    decreases ls.len(),
{
    if ls.len() == 0 {
        assert(joined(ls) == Seq::<char>::empty());
    } else {
        let init = ls.drop_last();
        lemma_joined_last(ls);
        let j = joined(ls);
        assert(j.last() == '\n');
        assert(j.drop_last() =~= joined(init) + ls.last());
        assert(trim_end_char(j, '\n') == trim_end_char(j.drop_last(), '\n'));
        if ls.last().len() == 0 {
            assert(joined(init) + ls.last() =~= joined(init));
            assert forall|k: int| 0 <= k < init.len() implies plain_line(#[trigger] init[k]) by {
                assert(init[k] == ls[k]);
            }
            lemma_trim_joined(init);
            assert(filled_len(ls) == filled_len(init));
            let n = filled_len(init);
            assert(init.subrange(0, n as int) =~= ls.subrange(0, n as int));
            if n > 0 {
                assert(init[n - 1] == ls[n - 1]);
            }
        } else {
            assert(filled_len(ls) == ls.len());
            assert(ls.last() == ls[ls.len() - 1]);
            assert(plain_line(ls[ls.len() - 1]));
            let d = j.drop_last();
            assert(d.len() > 0);
            assert(d.last() == ls.last().last());
            assert(ls.last().last() == ls.last()[ls.last().len() - 1]);
            assert(d.last() != '\n');
            assert(trim_end_char(d, '\n') == d);
            assert(ls.subrange(0, ls.len() as int) =~= ls);
        }
    }
}

proof fn lemma_kept_all(ls: Seq<Seq<char>>, i: int)
    requires
        0 <= i <= ls.len(),
        forall|k: int| 0 <= k < ls.len() ==> !marker_line(#[trigger] ls[k]),
    ensures
        kept_lines(ls, i, false) == joined(ls.subrange(i, ls.len() as int)),
    decreases ls.len() - i,
{
    let sub = ls.subrange(i, ls.len() as int);
    if i < ls.len() {
        lemma_kept_all(ls, i + 1);
        assert(sub.drop_first() =~= ls.subrange(i + 1, ls.len() as int));
        assert(sub[0] == ls[i]);
        assert(!marker_line(ls[i]));
        assert(ls[i].push('\n') + joined(sub.drop_first()) =~= ls[i] + (seq!['\n'] + joined(
            sub.drop_first(),
        )));
    } else {
        assert(sub =~= Seq::<Seq<char>>::empty());
    }
}

/// Removing the marked blocks from text without carriage returns leaves no
/// marker line behind, and removing them again changes nothing.
pub proof fn lemma_remove_marked_block_idempotent(content: Seq<char>)
    requires
        forall|k: int| 0 <= k < content.len() ==> content[k] != '\r',
    ensures
        spec_remove_marked_block(spec_remove_marked_block(content)) == spec_remove_marked_block(
            content,
        ),
        forall|k: int|
            0 <= k < lines(spec_remove_marked_block(content)).len() ==> !marker_line(
                #[trigger] lines(spec_remove_marked_block(content))[k],
            ),
{
    reveal_strlit("# --- talpa BEGIN ---");
    reveal_strlit("# --- talpa END ---");
    let e = Seq::<char>::empty();
    assert(trim_start(e) == e);
    assert(trim_end(e) == e);
    assert(!marker_line(e));
    let ls = lines(content);
    lemma_lines_plain_from(content, 0, e);
    lemma_kept_seq(ls, 0, false);
    let ks = kept_seq(ls, 0, false);
    lemma_trim_joined(ks);
    let n = filled_len(ks);
    let p = ks.subrange(0, n as int);
    let lr = if n == 0 {
        seq![e]
    } else {
        p
    };
    let r = spec_remove_marked_block(content);
    // The result is the kept lines up to the last one that is not empty.
    lemma_joined_one(e);
    if n == 0 {
        assert(r =~= joined(lr));
    } else {
        lemma_joined_last(p);
        assert(joined(p).drop_last().push('\n') =~= joined(p));
    }
    assert(r == joined(lr));
    assert forall|k: int| 0 <= k < lr.len() implies plain_line(#[trigger] lr[k]) && !marker_line(
        lr[k],
    ) by {
        if n > 0 {
            assert(lr[k] == ks[k]);
        }
    }
    assert forall|k: int|
        0 <= k < lr.len() implies (forall|j: int| 0 <= j < lr[k].len() ==> lr[k][j] != '\n')
        && strip_cr(#[trigger] lr[k]) == lr[k] by {
        assert(plain_line(lr[k]));
        if lr[k].len() > 0 {
            assert(lr[k].last() == lr[k][lr[k].len() - 1]);
        }
    }
    lemma_lines_joined(lr);
    assert(lines(r) == lr);
    lemma_kept_all(lr, 0);
    assert(lr.subrange(0, lr.len() as int) =~= lr);
    assert(kept_lines(lines(r), 0, false) == joined(lr));
    lemma_trim_joined(lr);
    if n == 0 {
        assert(lr.last().len() == 0);
        assert(lr.drop_last() =~= Seq::<Seq<char>>::empty());
        assert(filled_len(lr.drop_last()) == 0);
        assert(filled_len(lr) == 0);
    } else {
        assert(ks[n - 1].len() > 0);
        assert(lr.last() == ks[n - 1]);
        assert(filled_len(lr) == n);
        assert(lr.subrange(0, n as int) =~= p);
        lemma_joined_last(p);
        assert(joined(p).drop_last().push('\n') =~= joined(p));
    }
}

} // verus!
