//! Finding and launching the local DSH command-line program.
use vstd::prelude::*;
use crate::text::{char_vec, contains, decimal, nonblank_lines, nonempty_trimmed, occurs_in, push_decimal, split_on, str_eq, views};

verus! {

broadcast use vstd::string::group_string_axioms;

/// ASCII upper-case letters map to lower case; everything else stays.
pub open spec fn ascii_lower(c: char) -> char {
    if 'A' <= c && c <= 'Z' { ((c as u32) + 32) as char } else { c }
}

/// `a` and `b` are equal up to ASCII case.
pub open spec fn eq_ascii_case(a: Seq<char>, b: Seq<char>) -> bool {
    a.len() == b.len() && forall|i: int| 0 <= i < a.len() ==> ascii_lower(#[trigger] a[i]) == ascii_lower(b[i])
}

fn lower(c: char) -> (r: char)
    ensures
        r == ascii_lower(c),
{
    if 'A' <= c && c <= 'Z' {
        let b = (c as u8) + 32;
        b as char
    } else {
        c
    }
}

/// Whether `a` and `b` are equal up to ASCII case (`eq_ignore_ascii_case`).
pub fn eq_ignore_ascii_case(a: &str, b: &str) -> (r: bool)
    ensures
        r == eq_ascii_case(a@, b@),
{
    let x = char_vec(a);
    let y = char_vec(b);
    if x.len() != y.len() {
        return false;
    }
    let mut i: usize = 0;
    while i < x.len()
        invariant
            x@ == a@,
            y@ == b@,
            x@.len() == y@.len(),
            i <= x@.len(),
            forall|j: int| 0 <= j < i ==> ascii_lower(#[trigger] x@[j]) == ascii_lower(y@[j]),
        decreases x.len() - i,
    {
        if lower(x[i]) != lower(y[i]) {
            return false;
        }
        i = i + 1;
    }
    true
}

/// On Windows only Node scripts, command scripts and programs can be started
/// directly (`.js`, `.mjs`, `.cjs`, `.cmd`, `.bat`, `.exe`, any case); elsewhere
/// anything but a PowerShell script (`.ps1`).
pub open spec fn executable_extension(ext: Option<Seq<char>>, windows: bool) -> bool {
    if windows {
        match ext {
            Some(e) => eq_ascii_case(e, "js"@) || eq_ascii_case(e, "mjs"@) || eq_ascii_case(e, "cjs"@)
                || eq_ascii_case(e, "cmd"@) || eq_ascii_case(e, "bat"@) || eq_ascii_case(e, "exe"@),
            None => false,
        }
    } else {
        match ext {
            Some(e) => !eq_ascii_case(e, "ps1"@),
            None => true,
        }
    }
}

pub open spec fn ov(o: Option<&str>) -> Option<Seq<char>> {
    match o {
        Some(s) => Some(s@),
        None => None,
    }
}

/// Whether a CLI file with extension `extension` can be started directly.
pub fn is_executable_cli_file(extension: Option<&str>, windows: bool) -> (r: bool)
    ensures
        r == executable_extension(ov(extension), windows),
{
    if windows {
        match extension {
            Some(e) => eq_ignore_ascii_case(e, "js") || eq_ignore_ascii_case(e, "mjs")
                || eq_ignore_ascii_case(e, "cjs") || eq_ignore_ascii_case(e, "cmd")
                || eq_ignore_ascii_case(e, "bat") || eq_ignore_ascii_case(e, "exe"),
            None => false,
        }
    } else {
        match extension {
            Some(e) => !eq_ignore_ascii_case(e, "ps1"),
            None => true,
        }
    }
}

/// A Node script: `.js`, `.mjs` or `.cjs`, any case.
pub open spec fn script_extension(ext: Option<Seq<char>>) -> bool {
    match ext {
        Some(e) => eq_ascii_case(e, "js"@) || eq_ascii_case(e, "mjs"@) || eq_ascii_case(e, "cjs"@),
        None => false,
    }
}

/// Whether a CLI with extension `extension` is a Node script, run by Node.
pub fn is_script_cli(extension: Option<&str>) -> (r: bool)
    ensures
        r == script_extension(ov(extension)),
{
    match extension {
        Some(e) => eq_ignore_ascii_case(e, "js") || eq_ignore_ascii_case(e, "mjs")
            || eq_ignore_ascii_case(e, "cjs"),
        None => false,
    }
}

/// How DSH is started from its CLI.
#[derive(PartialEq, Eq, Structural, Clone, Copy, Debug)]
pub enum CliLaunch {
    /// `node <cli>`.
    Node,
    /// `cmd /c <cli>`, for `.cmd` and `.bat` shims.
    Cmd,
    /// The CLI itself.
    Direct,
}

/// How a CLI with extension `extension` is started.
pub fn cli_launch(extension: Option<&str>) -> (r: CliLaunch)
    ensures
        r == (if script_extension(ov(extension)) {
            CliLaunch::Node
        } else if (match ov(extension) {
            Some(e) => eq_ascii_case(e, "cmd"@) || eq_ascii_case(e, "bat"@),
            None => false,
        }) {
            CliLaunch::Cmd
        } else {
            CliLaunch::Direct
        }),
{
    if is_script_cli(extension) {
        return CliLaunch::Node;
    }
    match extension {
        Some(e) => if eq_ignore_ascii_case(e, "cmd") || eq_ignore_ascii_case(e, "bat") {
            CliLaunch::Cmd
        } else {
            CliLaunch::Direct
        },
        None => CliLaunch::Direct,
    }
}

/// Whether a shim must run the CLI through Node: its extension is exactly `js`.
pub fn shim_cli_is_js(extension: Option<&str>) -> (r: bool)
    ensures
        r == (ov(extension) == Some("js"@)),
{
    match extension {
        Some(e) => str_eq(e, "js"),
        None => false,
    }
}

/// Where a DSH CLI sits below a source checkout, an installation or an npm root,
/// in the order they are tried.
pub fn dsh_cli_relative_paths() -> (r: Vec<&'static str>)
    ensures
        crate::config::str_views(r@) == seq![
            "apps/cli/lib/bin.js"@,
            "lib/bin.js"@,
            "@deepseek-ai/dsh/lib/bin.js"@,
            "node_modules/@deepseek-ai/dsh/lib/bin.js"@,
            "runtime/dsh/node_modules/@deepseek-ai/dsh/lib/bin.js"@,
            "bin.js"@,
            "dsh.cmd"@,
            "dsh.exe"@,
        ],
{
    let r = vec![
        "apps/cli/lib/bin.js",
        "lib/bin.js",
        "@deepseek-ai/dsh/lib/bin.js",
        "node_modules/@deepseek-ai/dsh/lib/bin.js",
        "runtime/dsh/node_modules/@deepseek-ai/dsh/lib/bin.js",
        "bin.js",
        "dsh.cmd",
        "dsh.exe",
    ];
    assert(crate::config::str_views(r@) =~= seq![
        "apps/cli/lib/bin.js"@,
        "lib/bin.js"@,
        "@deepseek-ai/dsh/lib/bin.js"@,
        "node_modules/@deepseek-ai/dsh/lib/bin.js"@,
        "runtime/dsh/node_modules/@deepseek-ai/dsh/lib/bin.js"@,
        "bin.js"@,
        "dsh.cmd"@,
        "dsh.exe"@,
    ]);
    r
}

/// The names of DSH source checkouts looked for next to a directory.
pub fn checkout_names() -> (r: Vec<&'static str>)
    ensures
        crate::config::str_views(r@) == seq!["DeepseekHarness"@, "DeepSeekHarness"@, "deepseek-harness"@],
{
    let r = vec!["DeepseekHarness", "DeepSeekHarness", "deepseek-harness"];
    assert(crate::config::str_views(r@) =~= seq!["DeepseekHarness"@, "DeepSeekHarness"@, "deepseek-harness"@]);
    r
}

/// What a chosen location is.
#[derive(PartialEq, Eq, Structural, Clone, Copy, Debug)]
pub enum PathKind {
    File,
    Directory,
    Missing,
}

/// Which path is the DSH CLI.
#[derive(PartialEq, Eq, Structural, Clone, Copy, Debug)]
pub enum CliChoice {
    /// The chosen location itself.
    Input,
    /// The relative path of this index below it.
    Candidate(usize),
    NotFound,
}

/// Position of the first `true`.
pub open spec fn first_true(v: Seq<bool>) -> Option<int>
    decreases v.len(),
{
    if v.len() == 0 {
        None
    } else if v[0] {
        Some(0)
    } else {
        match first_true(v.drop_first()) {
            Some(i) => Some(i + 1),
            None => None,
        }
    }
}

/// The first `true` lies inside the sequence and is `true`.
pub proof fn lemma_first_true_bounds(v: Seq<bool>)
    ensures
        first_true(v) matches Some(i) ==> 0 <= i < v.len() && v[i],
    decreases v.len(),
{
    if v.len() > 0 && !v[0] {
        lemma_first_true_bounds(v.drop_first());
    }
}

/// The position of the first `true` in `v`.
pub fn first_true_index(v: &Vec<bool>) -> (r: Option<usize>)
    ensures
        (match r { Some(i) => Some(i as int), None => None }) == first_true(v@),
{
    let ghost s = v@;
    let mut i: usize = 0;
    assert(s.skip(0) =~= s);
    while i < v.len()
        invariant
            i <= s.len(),
            s == v@,
            first_true(s) == (match first_true(s.skip(i as int)) {
                Some(j) => Some(j + i),
                None => None,
            }),
        decreases v.len() - i,
    {
        assert(s.skip(i as int)[0] == s[i as int]);
        if v[i] {
            assert(first_true(s.skip(i as int)) == Some(0int));
            return Some(i);
        }
        assert(s.skip(i as int).drop_first() =~= s.skip(i + 1));
        i = i + 1;
    }
    assert(s.skip(i as int).len() == 0);
    None
}

/// The CLI for a chosen location: a file is taken when it can be started; in a
/// directory the first relative path that is a file wins (`candidate_is_file`
/// follows `dsh_cli_relative_paths`).
pub fn resolve_dsh_cli_candidate(kind: PathKind, executable: bool, candidate_is_file: &Vec<bool>) -> (r: CliChoice)
    ensures
        r == (match kind {
            PathKind::File => if executable { CliChoice::Input } else { CliChoice::NotFound },
            PathKind::Missing => CliChoice::NotFound,
            PathKind::Directory => match first_true(candidate_is_file@) {
                Some(i) => CliChoice::Candidate(i as usize),
                None => CliChoice::NotFound,
            },
        }),
{
    match kind {
        PathKind::File => if executable { CliChoice::Input } else { CliChoice::NotFound },
        PathKind::Missing => CliChoice::NotFound,
        PathKind::Directory => match first_true_index(candidate_is_file) {
            Some(i) => CliChoice::Candidate(i),
            None => CliChoice::NotFound,
        },
    }
}

/// Positions of the entries of `items` that do not repeat an earlier entry.
pub open spec fn first_occurrences(items: Seq<Seq<char>>) -> Seq<int>
    decreases items.len(),
{
    if items.len() == 0 {
        Seq::empty()
    } else {
        let before = first_occurrences(items.drop_last());
        if items.drop_last().contains(items.last()) {
            before
        } else {
            before.push(items.len() - 1)
        }
    }
}

/// The positions of the directories to search, in order, each directory once
/// (`items` lists the ancestors of all start directories).
pub fn distinct_positions(items: &Vec<String>) -> (r: Vec<usize>)
    ensures
        r@.map_values(|i: usize| i as int) == first_occurrences(views(items@)),
{
    let ghost v = views(items@);
    let mut out: Vec<usize> = Vec::new();
    let mut i: usize = 0;
    assert(v.take(0) =~= Seq::<Seq<char>>::empty());
    assert(out@.map_values(|k: usize| k as int) =~= Seq::<int>::empty());
    while i < items.len()
        invariant
            i <= items@.len(),
            v == views(items@),
            out@.map_values(|k: usize| k as int) == first_occurrences(v.take(i as int)),
        decreases items.len() - i,
    {
        assert(v.take(i + 1).drop_last() =~= v.take(i as int));
        assert(v.take(i + 1).last() == items@[i as int]@);
        let mut seen = false;
        let mut j: usize = 0;
        while j < i
            invariant
                j <= i < items@.len(),
                v == views(items@),
                seen == v.take(i as int).take(j as int).contains(items@[i as int]@),
            decreases i - j,
        {
            if items[j] == items[i] {
                seen = true;
            }
            proof {
                let a = v.take(i as int).take(j + 1);
                let b = v.take(i as int).take(j as int);
                assert(a =~= b.push(v[j as int]));
                if b.contains(items@[i as int]@) {
                    let w = choose|w: int| 0 <= w < b.len() && b[w] == items@[i as int]@;
                    assert(a[w] == items@[i as int]@);
                }
                if a.contains(items@[i as int]@) && !b.contains(items@[i as int]@) {
                    let w = choose|w: int| 0 <= w < a.len() && a[w] == items@[i as int]@;
                    assert(w == j);
                }
                if items@[j as int]@ == items@[i as int]@ {
                    assert(a[j as int] == items@[i as int]@);
                }
            }
            j = j + 1;
        }
        assert(v.take(i as int).take(i as int) =~= v.take(i as int));
        if !seen {
            let ghost before = out@;
            out.push(i);
            assert(out@.map_values(|k: usize| k as int) =~= before.map_values(|k: usize| k as int).push(i as int));
        }
        i = i + 1;
    }
    assert(v.take(i as int) =~= v);
    out
}

/// The arguments that start DSH with this application's profile on `host:port`.
pub fn dsh_serve_args(host: &str, port: u16) -> (r: Vec<String>)
    ensures
        views(r@) == seq!["--profile"@, "dshplusplus"@, "--host"@, host@, "--port"@, decimal(port as nat)],
{
    let mut p = String::new();
    push_decimal(&mut p, port as u64);
    let r = vec![
        String::from_str("--profile"),
        String::from_str("dshplusplus"),
        String::from_str("--host"),
        String::from_str(host),
        String::from_str("--port"),
        p,
    ];
    assert(views(r@) =~= seq!["--profile"@, "dshplusplus"@, "--host"@, host@, "--port"@, decimal(port as nat)]);
    r
}

/// A page served by DSH names DeepSeek Harness.
pub open spec fn dsh_page(body: Seq<char>) -> bool {
    occurs_in(body, "DeepSeek Harness"@) || occurs_in(body, "deepseek-harness"@)
}

/// Whether a response body is a page of DSH.
pub fn is_dsh_page(body: &str) -> (r: bool)
    ensures
        r == dsh_page(body@),
{
    contains(body, "DeepSeek Harness") || contains(body, "deepseek-harness")
}

/// The first non-blank line of a program's output, trimmed (its version).
pub fn first_nonblank_line(text: &str) -> (r: Option<String>)
    ensures
        (match r { Some(s) => Some(s@), None => None }) == (if nonempty_trimmed(split_on(text@, '\n')).len() > 0 {
            Some(nonempty_trimmed(split_on(text@, '\n'))[0])
        } else {
            None
        }),
{
    let mut lines = nonblank_lines(text);
    if lines.len() == 0 {
        None
    } else {
        assert(views(lines@)[0] == lines@[0]@);
        Some(lines.swap_remove(0))
    }
}

/// The message when the DSH port is taken by another program.
pub fn port_taken_message(port: u16) -> (r: String)
    ensures
        r@ == "端口 "@ + decimal(port as nat)
            + " 已被其他程序占用，且不是 DSH。若是上次退出残留的 DSH 进程，请在任务管理器中结束占用该端口的进程后重试"@,
{
    let mut m = String::from_str("端口 ");
    push_decimal(&mut m, port as u64);
    m.append(" 已被其他程序占用，且不是 DSH。若是上次退出残留的 DSH 进程，请在任务管理器中结束占用该端口的进程后重试");
    m
}

/// The message when a DSH already listening is taken over.
pub fn existing_dsh_message(host: &str, port: u16) -> (r: String)
    ensures
        r@ == "已连接现有 DSH · "@ + host@ + ":"@ + decimal(port as nat),
{
    let mut m = String::from_str("已连接现有 DSH · ");
    m.append(host);
    m.append(":");
    push_decimal(&mut m, port as u64);
    m
}

/// The message when DSH did not come up in time: something else answers on its
/// port, or nothing does.
pub fn dsh_timeout_message(port_listening: bool, port: u16) -> (r: String)
    ensures
        r@ == (if port_listening {
            "端口 "@ + decimal(port as nat) + " 已监听，但返回的不是 DSH 页面"@
        } else {
            "DSH 在 60 秒内没有就绪；请查看诊断日志，或停止占用 18760 端口的残留进程后重试"@
        }),
{
    if port_listening {
        let mut m = String::from_str("端口 ");
        push_decimal(&mut m, port as u64);
        m.append(" 已监听，但返回的不是 DSH 页面");
        m
    } else {
        String::from_str("DSH 在 60 秒内没有就绪；请查看诊断日志，或停止占用 18760 端口的残留进程后重试")
    }
}

/// The message of a running DSH started by this application.
pub fn dsh_running_message(pid: u32) -> (r: String)
    ensures
        r@ == "DSH++ Profile · PID "@ + decimal(pid as nat),
{
    let mut m = String::from_str("DSH++ Profile · PID ");
    push_decimal(&mut m, pid as u64);
    m
}

/// The message when no DSH CLI exists at the chosen location.
pub fn cli_not_found_message() -> (r: String)
    ensures
        r@ == "所选位置中未找到 DSH CLI；请选择 DeepSeekHarness 仓库目录、安装目录或 bin.js/dsh.cmd/dsh.exe"@,
{
    String::from_str("所选位置中未找到 DSH CLI；请选择 DeepSeekHarness 仓库目录、安装目录或 bin.js/dsh.cmd/dsh.exe")
}


/// The DSH CLI used: the configured location, when it is not blank and a CLI was
/// resolved there (`resolved`), else the one discovered.
pub fn effective_dsh_cli(configured: &str, resolved: Option<String>, discovered: Option<String>) -> (r: Option<String>)
    ensures
        r == (if crate::text::trim(configured@).len() > 0 && resolved is Some { resolved } else { discovered }),
{
    let t = crate::text::trimmed(configured);
    if !t.as_str().is_empty() {
        if resolved.is_some() {
            return resolved;
        }
    }
    discovered
}

} // verus!
