//! The agent shims: small batch files through which MCA detects and calls DSH
//! as its `deepseek` agent.
use vstd::prelude::*;

verus! {

broadcast use vstd::string::group_string_axioms;

pub open spec fn shim_head() -> Seq<char> {
    "@echo off\nrem DSH++ generated: MCA agent detection shim (recreated on each start)\nif \"%1\"==\"mcp\" goto :mcp\necho %* | findstr /C:\"--profile\" >nul\nif %errorlevel%==0 (\n  "@
}

pub open spec fn shim_middle() -> Seq<char> {
    " %*\n) else (\n  "@
}

pub open spec fn shim_tail() -> Seq<char> {
    " --profile dshplusplus %*\n)\nexit /b %errorlevel%\n\n:mcp\nshift\nset \"MCAEMUDIR=%~dp0mcp-emulation\"\nif \"%1\"==\"list\" (\n  if exist \"%MCAEMUDIR%\\mca-control-center\" (\n    type \"%MCAEMUDIR%\\mca-control-center\"\n  ) else (\n    echo No MCP servers configured.\n  )\n  exit /b 0\n)\nif \"%1\"==\"add\" (\n  if not exist \"%MCAEMUDIR%\" mkdir \"%MCAEMUDIR%\"\n  echo %4: %3 ^(Streamable HTTP^)> \"%MCAEMUDIR%\\%4\"\n  exit /b 0\n)\nif \"%1\"==\"remove\" (\n  if exist \"%MCAEMUDIR%\\%2\" del \"%MCAEMUDIR%\\%2\"\n  exit /b 0\n)\nexit /b 0\n"@
}

/// The `deepseek.cmd` shim: it passes its arguments to `launcher`, adding the
/// `dshplusplus` profile when no `--profile` is given, and emulates the `mcp list`,
/// `mcp add` and `mcp remove` subcommands with marker files.
pub open spec fn agent_shim(launcher: Seq<char>) -> Seq<char> {
    shim_head() + launcher + shim_middle() + launcher + shim_tail()
}

/// The content of the `deepseek.cmd` shim for the command line `launcher`.
pub fn agent_shim_content(launcher: &str) -> (r: String)
    ensures
        r@ == agent_shim(launcher@),
{
    let mut r = String::from_str("@echo off\nrem DSH++ generated: MCA agent detection shim (recreated on each start)\nif \"%1\"==\"mcp\" goto :mcp\necho %* | findstr /C:\"--profile\" >nul\nif %errorlevel%==0 (\n  ");
    r.append(launcher);
    r.append(" %*\n) else (\n  ");
    r.append(launcher);
    r.append(" --profile dshplusplus %*\n)\nexit /b %errorlevel%\n\n:mcp\nshift\nset \"MCAEMUDIR=%~dp0mcp-emulation\"\nif \"%1\"==\"list\" (\n  if exist \"%MCAEMUDIR%\\mca-control-center\" (\n    type \"%MCAEMUDIR%\\mca-control-center\"\n  ) else (\n    echo No MCP servers configured.\n  )\n  exit /b 0\n)\nif \"%1\"==\"add\" (\n  if not exist \"%MCAEMUDIR%\" mkdir \"%MCAEMUDIR%\"\n  echo %4: %3 ^(Streamable HTTP^)> \"%MCAEMUDIR%\\%4\"\n  exit /b 0\n)\nif \"%1\"==\"remove\" (\n  if exist \"%MCAEMUDIR%\\%2\" del \"%MCAEMUDIR%\\%2\"\n  exit /b 0\n)\nexit /b 0\n");
    r
}

/// The `dsh.cmd` shim: runs `launcher` with all arguments.
pub fn dsh_shim_content(launcher: &str) -> (r: String)
    ensures
        r@ == "@echo off\r\n"@ + launcher@ + " %*\r\n"@,
{
    let mut r = String::from_str("@echo off\r\n");
    r.append(launcher);
    r.append(" %*\r\n");
    r
}

/// The command line that starts DSH from a shim: the quoted Node binary and script
/// for a `.js` CLI (none without a Node binary), else the quoted CLI itself.
pub open spec fn shim_launcher_of(node: Option<Seq<char>>, cli: Seq<char>, cli_is_js: bool) -> Option<Seq<char>> {
    if cli_is_js {
        match node {
            Some(n) => Some("\""@ + n + "\" \""@ + cli + "\""@),
            None => None,
        }
    } else {
        Some("\""@ + cli + "\""@)
    }
}

/// The command line that starts DSH from a shim.
pub fn shim_launcher(node: Option<&str>, cli: &str, cli_is_js: bool) -> (r: Option<String>)
    ensures
        (match r { Some(s) => Some(s@), None => None }) == shim_launcher_of(
            match node { Some(n) => Some(n@), None => None },
            cli@,
            cli_is_js,
        ),
{
    if cli_is_js {
        match node {
            Some(n) => {
                let mut r = String::from_str("\"");
                r.append(n);
                r.append("\" \"");
                r.append(cli);
                r.append("\"");
                Some(r)
            },
            None => None,
        }
    } else {
        let mut r = String::from_str("\"");
        r.append(cli);
        r.append("\"");
        Some(r)
    }
}

} // verus!
