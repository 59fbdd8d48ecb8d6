use vstd::prelude::*;
use vstd::string::*;

use crate::config::ServerConfig;
use crate::text::push_char;

verus! {

/// What one character of an argument becomes inside single quotes.
pub open spec fn quote_char(c: char) -> Seq<char> {
    if c == '\'' {
        seq!['\'', '\\', '\'', '\'']
    } else {
        seq![c]
    }
}

/// The characters of `s` with each single quote replaced by `'\''`.
pub open spec fn quote_body(s: Seq<char>) -> Seq<char>
    decreases s.len(),
{
    if s.len() == 0 {
        Seq::empty()
    } else {
        quote_body(s.drop_last()) + quote_char(s.last())
    }
}

/// `s` quoted for a POSIX shell: wrapped in single quotes, embedded quotes escaped.
pub open spec fn shell_quoted(s: Seq<char>) -> Seq<char> {
    seq!['\''] + quote_body(s) + seq!['\'']
}

/// Quotes `arg` so that a POSIX shell reads it back as one literal word.
pub fn escape_shell_arg(arg: &str) -> (r: String)
    ensures
        r@ == shell_quoted(arg@),
{
    let n = arg.unicode_len();
    let mut out = String::from_str("'");
    let mut i: usize = 0;
    proof {
        reveal_strlit("'");
        assert(arg@.take(0) == Seq::<char>::empty());
        assert(out@ == seq!['\''] + quote_body(arg@.take(0)));
    }
    while i < n
        invariant
            n == arg@.len(),
            i <= n,
            out@ == seq!['\''] + quote_body(arg@.take(i as int)),
        decreases n - i,
    {
        let c = arg.get_char(i);
        proof {
            assert(arg@.take(i as int + 1).drop_last() == arg@.take(i as int));
        }
        if c == '\'' {
            out.append("'\\''");
        } else {
            out.append(arg.substring_char(i, i + 1));
        }
        proof {
            reveal_strlit("'\\''");
            assert(arg@.subrange(i as int, i as int + 1) == seq![c]);
        }
        i = i + 1;
    }
    out.append("'");
    proof {
        reveal_strlit("'");
        assert(arg@.take(n as int) == arg@);
    }
    out
}

/// The decimal digit characters.
pub open spec fn digit_chars() -> Seq<char> {
    seq!['0', '1', '2', '3', '4', '5', '6', '7', '8', '9']
}

/// `n` in decimal, without leading zeros.
pub open spec fn decimal(n: nat) -> Seq<char>
    decreases n,
{
    if n < 10 {
        seq![digit_chars()[n as int]]
    } else {
        decimal(n / 10).push(digit_chars()[(n % 10) as int])
    }
}

fn digit_char(d: u64) -> (c: char)
    requires
        d < 10,
    ensures
        c == digit_chars()[d as int],
{
    match d {
        0 => '0',
        1 => '1',
        2 => '2',
        3 => '3',
        4 => '4',
        5 => '5',
        6 => '6',
        7 => '7',
        8 => '8',
        _ => '9',
    }
}

/// `n` in decimal.
pub fn decimal_text(n: u64) -> (r: String)
    ensures
        r@ == decimal(n as nat),
    decreases n,
{
    if n < 10 {
        let mut r = String::new();
        push_char(&mut r, digit_char(n));
        r
    } else {
        let mut r = decimal_text(n / 10);
        push_char(&mut r, digit_char(n % 10));
        r
    }
}

/// A shell command that creates `path` and its parents.
pub fn mkdir_command(path: &str) -> (r: String)
    ensures
        r@ == "mkdir -p "@ + shell_quoted(path@),
{
    let mut r = String::from_str("mkdir -p ");
    let q = escape_shell_arg(path);
    r.append(q.as_str());
    r
}

/// A shell command that removes `path`: recursively when it is a directory.
pub fn remove_command(path: &str, is_dir: bool) -> (r: String)
    ensures
        is_dir ==> r@ == "rm -rf "@ + shell_quoted(path@),
        !is_dir ==> r@ == "rm -f "@ + shell_quoted(path@),
{
    let mut r = if is_dir {
        String::from_str("rm -rf ")
    } else {
        String::from_str("rm -f ")
    };
    let q = escape_shell_arg(path);
    r.append(q.as_str());
    r
}

/// A shell command that renames `old_path` to `new_path`.
pub fn rename_command(old_path: &str, new_path: &str) -> (r: String)
    ensures
        r@ == "mv "@ + shell_quoted(old_path@) + " "@ + shell_quoted(new_path@),
{
    let mut r = String::from_str("mv ");
    let a = escape_shell_arg(old_path);
    let b = escape_shell_arg(new_path);
    r.append(a.as_str());
    r.append(" ");
    r.append(b.as_str());
    r
}

/// A shell command that lists `path` in the long format with ISO dates.
pub fn list_command(path: &str) -> (r: String)
    ensures
        r@ == "ls -la --time-style=long-iso "@ + shell_quoted(path@),
{
    let mut r = String::from_str("ls -la --time-style=long-iso ");
    let q = escape_shell_arg(path);
    r.append(q.as_str());
    r
}

/// `p` with every backslash turned into a forward slash.
pub open spec fn forward_slashes(p: Seq<char>) -> Seq<char> {
    p.map_values(|c: char| if c == '\\' { '/' } else { c })
}

/// A path in the form that remote hosts read: forward slashes only.
pub fn remote_path_text(p: &str) -> (r: String)
    ensures
        r@ == forward_slashes(p@),
{
    let cs = crate::text::chars_of(p);
    let mut r = String::new();
    let mut i: usize = 0;
    while i < cs.len()
        invariant
            i <= cs@.len(),
            cs@ == p@,
            r@ == forward_slashes(cs@.take(i as int)),
        decreases cs@.len() - i,
    {
        let c = cs[i];
        if c == '\\' {
            push_char(&mut r, '/');
        } else {
            push_char(&mut r, c);
        }
        proof {
            assert(forward_slashes(cs@.take(i as int + 1)) =~= forward_slashes(cs@.take(i as int)).push(
                if c == '\\' { '/' } else { c },
            ));
        }
        i = i + 1;
    }
    proof {
        assert(cs@.take(cs@.len() as int) == cs@);
    }
    r
}

/// `user@host`.
pub open spec fn login_spec(cfg: ServerConfig) -> Seq<char> {
    cfg.user@ + "@"@ + cfg.host@
}

/// `user@host:'path'`, the remote side of an `scp` command; the path is
/// quoted because the remote shell reads it.
pub fn build_remote_target(config: &ServerConfig, remote_path: &str) -> (r: String)
    ensures
        r@ == login_spec(*config) + ":"@ + shell_quoted(remote_path@),
{
    let mut r = login(config);
    r.append(":");
    let q = escape_shell_arg(remote_path);
    r.append(q.as_str());
    r
}

fn login(config: &ServerConfig) -> (r: String)
    ensures
        r@ == login_spec(*config),
{
    let mut r = config.user.clone();
    r.append("@");
    r.append(config.host.as_str());
    r
}

/// The key file option, when a key file is configured.
pub open spec fn key_args(cfg: ServerConfig) -> Seq<Seq<char>> {
    if cfg.key_path is Some && cfg.key_path->0@.len() > 0 {
        seq!["-i"@, cfg.key_path->0@]
    } else {
        Seq::empty()
    }
}

/// The options that every `ssh` call passes: batch mode, no host key check, the port.
pub open spec fn ssh_options(cfg: ServerConfig) -> Seq<Seq<char>> {
    seq!["-o"@, "BatchMode=yes"@, "-o"@, "StrictHostKeyChecking=no"@, "-p"@, decimal(cfg.port as nat)]
}

/// The arguments of the `ssh` call that tests whether the credential works.
pub open spec fn probe_args_spec(cfg: ServerConfig) -> Seq<Seq<char>> {
    ssh_options(cfg) + seq!["-T"@] + (if cfg.auth_type@ == "key"@ {
        key_args(cfg)
    } else {
        Seq::empty()
    }) + seq![login_spec(cfg), "exit 0"@]
}

/// The arguments of the `ssh` call that runs `command` on the host.
pub open spec fn exec_args_spec(cfg: ServerConfig, command: Seq<char>) -> Seq<Seq<char>> {
    ssh_options(cfg) + key_args(cfg) + seq![login_spec(cfg), command]
}

/// The arguments of the `scp` call that copies `from` to `to`.
pub open spec fn scp_args_spec(cfg: ServerConfig, from: Seq<char>, to: Seq<char>) -> Seq<Seq<char>> {
    seq!["-P"@, decimal(cfg.port as nat), "-o"@, "StrictHostKeyChecking=no"@, "-o"@, "BatchMode=yes"@]
        + key_args(cfg) + seq![from, to]
}

pub open spec fn views(v: Seq<String>) -> Seq<Seq<char>> {
    v.map_values(|s: String| s@)
}

fn push_text(v: &mut Vec<String>, s: &str)
    ensures
        views(final(v)@) == views(old(v)@).push(s@),
{
    v.push(String::from_str(s));
    proof {
        assert(views(final(v)@) =~= views(old(v)@).push(s@));
    }
}

fn push_string(v: &mut Vec<String>, s: String)
    ensures
        views(final(v)@) == views(old(v)@).push(s@),
{
    let ghost t = s@;
    v.push(s);
    proof {
        assert(views(final(v)@) =~= views(old(v)@).push(t));
    }
}

fn push_key_args(v: &mut Vec<String>, config: &ServerConfig)
    ensures
        views(final(v)@) == views(old(v)@) + key_args(*config),
{
    proof {
        reveal_strlit("-i");
    }
    if let Some(k) = &config.key_path {
        if k.unicode_len() > 0 {
            push_text(v, "-i");
            push_string(v, k.clone());
            proof {
                assert(views(v@) =~= views(old(v)@) + key_args(*config));
            }
            return;
        }
    }
    assert(views(v@) =~= views(old(v)@) + key_args(*config));
}

fn ssh_option_args(config: &ServerConfig) -> (r: Vec<String>)
    ensures
        views(r@) == ssh_options(*config),
{
    let mut v: Vec<String> = Vec::new();
    push_text(&mut v, "-o");
    push_text(&mut v, "BatchMode=yes");
    push_text(&mut v, "-o");
    push_text(&mut v, "StrictHostKeyChecking=no");
    push_text(&mut v, "-p");
    push_string(&mut v, decimal_text(config.port as u64));
    proof {
        assert(views(v@) =~= ssh_options(*config));
    }
    v
}

/// The arguments of the `ssh` call that tests whether the credential works.
pub fn probe_args(config: &ServerConfig) -> (r: Vec<String>)
    ensures
        views(r@) == probe_args_spec(*config),
{
    let mut v = ssh_option_args(config);
    push_text(&mut v, "-T");
    proof {
        reveal_strlit("key");
    }
    if crate::text::same_text(config.auth_type.as_str(), "key") {
        push_key_args(&mut v, config);
    }
    push_string(&mut v, login(config));
    push_text(&mut v, "exit 0");
    proof {
        assert(views(v@) =~= probe_args_spec(*config));
    }
    v
}

/// The arguments of the `ssh` call that runs `command` on the host.
pub fn exec_args(config: &ServerConfig, command: &str) -> (r: Vec<String>)
    ensures
        views(r@) == exec_args_spec(*config, command@),
{
    let mut v = ssh_option_args(config);
    push_key_args(&mut v, config);
    push_string(&mut v, login(config));
    push_text(&mut v, command);
    proof {
        assert(views(v@) =~= exec_args_spec(*config, command@));
    }
    v
}

/// The arguments of the `scp` call that copies `from` to `to`.
pub fn scp_args(config: &ServerConfig, from: &str, to: &str) -> (r: Vec<String>)
    ensures
        views(r@) == scp_args_spec(*config, from@, to@),
{
    let mut v: Vec<String> = Vec::new();
    push_text(&mut v, "-P");
    push_string(&mut v, decimal_text(config.port as u64));
    push_text(&mut v, "-o");
    push_text(&mut v, "StrictHostKeyChecking=no");
    push_text(&mut v, "-o");
    push_text(&mut v, "BatchMode=yes");
    push_key_args(&mut v, config);
    push_text(&mut v, from);
    push_text(&mut v, to);
    proof {
        assert(views(v@) =~= scp_args_spec(*config, from@, to@));
    }
    v
}

/// How a POSIX shell reads `t` as one word, `inside` single quotes or not:
/// inside quotes every character but `'` stands for itself; outside them
/// only `'` (which opens quotes) and `\` followed by a character (which
/// stands for that character) may appear.  `None` when some other character
/// stands unquoted, such as a blank or another metacharacter, or when the
/// text ends inside quotes.
pub open spec fn shell_word(t: Seq<char>, inside: bool) -> Option<Seq<char>>
    decreases t.len(),
{
    if t.len() == 0 {
        if inside {
            None
        } else {
            Some(Seq::empty())
        }
    } else if inside {
        if t[0] == '\'' {
            shell_word(t.drop_first(), false)
        } else {
            match shell_word(t.drop_first(), true) {
                Some(w) => Some(seq![t[0]] + w),
                None => None,
            }
        }
    } else if t[0] == '\'' {
        shell_word(t.drop_first(), true)
    } else if t[0] == '\\' && t.len() >= 2 {
        match shell_word(t.skip(2), false) {
            Some(w) => Some(seq![t[1]] + w),
            None => None,
        }
    } else {
        None
    }
}

proof fn lemma_quote_body_concat(a: Seq<char>, b: Seq<char>)
    ensures
        quote_body(a + b) == quote_body(a) + quote_body(b),
    decreases b.len(),
{
    if b.len() == 0 {
        assert(a + b =~= a);
        assert(quote_body(b) =~= Seq::<char>::empty());
        assert(quote_body(a) + quote_body(b) =~= quote_body(a));
    } else {
        lemma_quote_body_concat(a, b.drop_last());
        assert((a + b).drop_last() =~= a + b.drop_last());
        assert((a + b).last() == b.last());
        assert(quote_body(a) + quote_body(b) =~= quote_body(a) + quote_body(b.drop_last()) + quote_char(b.last()));
    }
}

proof fn lemma_read_quoted_body(s: Seq<char>, rest: Seq<char>)
    ensures
        shell_word(quote_body(s) + seq!['\''] + rest, true) == match shell_word(rest, false) {
            Some(w) => Some(s + w),
            None => None::<Seq<char>>,
        },
    decreases s.len(),
{
    let t = quote_body(s) + seq!['\''] + rest;
    if s.len() == 0 {
        assert(quote_body(s) =~= Seq::<char>::empty());
        assert(t.drop_first() =~= rest);
        match shell_word(rest, false) {
            Some(w) => assert(s + w =~= w),
            None => {},
        }
    } else {
        let c = s[0];
        let s2 = s.drop_first();
        lemma_read_quoted_body(s2, rest);
        assert(s =~= seq![c] + s2);
        lemma_quote_body_concat(seq![c], s2);
        assert(seq![c].drop_last() =~= Seq::<char>::empty());
        assert(seq![c].last() == c);
        assert(quote_body(Seq::<char>::empty()) =~= Seq::<char>::empty());
        assert(quote_body(seq![c]) =~= quote_char(c));
        let x = quote_body(s2) + seq!['\''] + rest;
        assert(t =~= quote_char(c) + x);
        if c == '\'' {
            let t1 = t.drop_first();
            assert(t[0] == '\'');
            assert(t1 =~= seq!['\\', '\'', '\''] + x);
            assert(t1[0] == '\\' && t1[1] == '\'' && t1.len() >= 2);
            let t2 = t1.skip(2);
            assert(t2 =~= seq!['\''] + x);
            assert(t2[0] == '\'');
            assert(t2.drop_first() =~= x);
            assert(shell_word(t2, false) == shell_word(x, true));
            assert(shell_word(t1, false) == match shell_word(x, true) {
                Some(w) => Some(seq!['\''] + w),
                None => None,
            });
            assert(shell_word(t, true) == shell_word(t1, false));
        } else {
            assert(t[0] == c);
            assert(t.drop_first() =~= x);
            assert(shell_word(t, true) == match shell_word(x, true) {
                Some(w) => Some(seq![c] + w),
                None => None,
            });
        }
        match shell_word(rest, false) {
            Some(w) => assert(seq![c] + (s2 + w) =~= s + w),
            None => {},
        }
    }
}

/// A shell reads a quoted argument back as exactly the argument, one word:
/// no character of it, metacharacters included, stands unquoted.
pub proof fn lemma_shell_reads_quoted(s: Seq<char>)
    ensures
        shell_word(shell_quoted(s), false) == Some(s),
{
    let t = shell_quoted(s);
    lemma_read_quoted_body(s, Seq::empty());
    assert(t.drop_first() =~= quote_body(s) + seq!['\''] + Seq::<char>::empty());
    assert(shell_word(Seq::<char>::empty(), false) == Some(Seq::<char>::empty()));
    assert(s + Seq::<char>::empty() =~= s);
}

} // verus!
