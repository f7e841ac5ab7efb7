//! Install and uninstall rules: which shell startup file gets the PATH line,
//! what that line says, how it is removed again, and the scripts that edit
//! the Windows PATH or delete a running executable. Copying files and
//! running commands stay with the caller.

use vstd::prelude::*;

use crate::cli::UninstallArgs;
use crate::text::{
    chars_of, contains_chars, contains_text, lines_of, push_chars, push_dec, push_str, replace_all,
    replace_chars, starts_with, string_of, text_lines, dec,
};

verus! {

/// The marker that identifies the line `fbsy install` adds.
pub open spec fn sentinel() -> Seq<char> {
    "# added by fbsy install"@
}

/// The shells whose startup files are edited.
#[derive(Debug, Clone, Copy, PartialEq, Eq)]
pub enum ShellKind {
    Fish,
    Zsh,
    Bash,
}

/// The shell named by the file name of `$SHELL` (bash for anything else).
pub open spec fn shell_of(name: Seq<char>) -> ShellKind {
    if name == "fish"@ {
        ShellKind::Fish
    } else if name == "zsh"@ {
        ShellKind::Zsh
    } else {
        ShellKind::Bash
    }
}

pub fn shell_kind(name: &str) -> (r: ShellKind)
    ensures
        r == shell_of(name@),
{
    if crate::text::str_eq(name, "fish") {
        ShellKind::Fish
    } else if crate::text::str_eq(name, "zsh") {
        ShellKind::Zsh
    } else {
        ShellKind::Bash
    }
}

/// The startup file of a shell, as path components under the home
/// directory.
pub open spec fn rc_parts(kind: ShellKind) -> Seq<Seq<char>> {
    match kind {
        ShellKind::Fish => seq![".config"@, "fish"@, "config.fish"@],
        ShellKind::Zsh => seq![".zshrc"@],
        ShellKind::Bash => seq![".bashrc"@],
    }
}

pub fn rc_components(kind: ShellKind) -> (r: Vec<&'static str>)
    ensures
        r@.map_values(|p: &str| p@) == rc_parts(kind),
{
    let r: Vec<&'static str> = match kind {
        ShellKind::Fish => vec![".config", "fish", "config.fish"],
        ShellKind::Zsh => vec![".zshrc"],
        ShellKind::Bash => vec![".bashrc"],
    };
    assert(r@.map_values(|p: &str| p@) =~= rc_parts(kind));
    r
}

/// The line that puts `bin_dir` on the PATH, ending with the marker.
pub open spec fn path_line_text(kind: ShellKind, bin_dir: Seq<char>) -> Seq<char> {
    match kind {
        ShellKind::Fish => "fish_add_path "@ + bin_dir + " "@ + sentinel(),
        _ => "export PATH=\""@ + bin_dir + ":$PATH\" "@ + sentinel(),
    }
}

pub fn path_line(kind: ShellKind, bin_dir: &str) -> (r: String)
    ensures
        r@ == path_line_text(kind, bin_dir@),
{
    let mut s = match kind {
        ShellKind::Fish => String::from_str("fish_add_path "),
        _ => String::from_str("export PATH=\""),
    };
    push_str(&mut s, bin_dir);
    match kind {
        ShellKind::Fish => push_str(&mut s, " "),
        _ => push_str(&mut s, ":$PATH\" "),
    }
    push_str(&mut s, "# added by fbsy install");
    s
}

/// What is appended to the startup file: a blank line, then the PATH line.
pub open spec fn appended_text(line: Seq<char>) -> Seq<char> {
    "\n"@ + line + "\n"@
}

pub fn appended(line: &str) -> (r: String)
    ensures
        r@ == appended_text(line@),
{
    let mut s = String::from_str("\n");
    push_str(&mut s, line);
    push_str(&mut s, "\n");
    s
}

/// Once install has appended its PATH line, the startup file holds the
/// marker, so installing again adds nothing and uninstall finds the line.
pub proof fn law_path_line_marked(existing: Seq<char>, kind: ShellKind, bin_dir: Seq<char>)
    ensures
        contains_text(existing + appended_text(path_line_text(kind, bin_dir)), sentinel()),
{
    let line = path_line_text(kind, bin_dir);
    let all = existing + appended_text(line);
    reveal_strlit("# added by fbsy install");
    reveal_strlit("\n");
    let i = existing.len() + 1 + line.len() - sentinel().len();
    assert(line.len() >= sentinel().len());
    assert(all.skip(i).take(sentinel().len() as int) =~= sentinel());
    assert(crate::text::starts_with(all.skip(i), sentinel()));
}

/// Whether a startup file already holds the line (so adding it again is
/// skipped).
pub fn has_marker(content: &str) -> (r: bool)
    ensures
        r == contains_text(content@, sentinel()),
{
    let c = chars_of(content);
    let m = chars_of("# added by fbsy install");
    contains_chars(c.as_slice(), m.as_slice())
}

/// The lines that do not hold the marker, joined with newlines.
pub open spec fn kept_lines(lines: Seq<Seq<char>>) -> Seq<char>
    decreases lines.len(),
{
    if lines.len() == 0 {
        seq![]
    } else {
        let rest = kept_lines(lines.drop_last());
        let l = lines.last();
        if contains_text(l, sentinel()) {
            rest
        } else if kept_count(lines.drop_last()) == 0 {
            l
        } else {
            rest + "\n"@ + l
        }
    }
}

/// How many lines do not hold the marker.
pub open spec fn kept_count(lines: Seq<Seq<char>>) -> nat
    decreases lines.len(),
{
    if lines.len() == 0 {
        0
    } else {
        kept_count(lines.drop_last()) + if contains_text(lines.last(), sentinel()) {
            0nat
        } else {
            1nat
        }
    }
}

proof fn lemma_nothing_kept(lines: Seq<Seq<char>>)
    ensures
        kept_count(lines) == 0 ==> kept_lines(lines) == Seq::<char>::empty(),
    decreases lines.len(),
{
    if lines.len() > 0 {
        lemma_nothing_kept(lines.drop_last());
    }
}

/// The startup file with the added line removed, ending with a newline
/// unless it is empty; `None` when the file holds no such line.
pub open spec fn removal_text(content: Seq<char>) -> Option<Seq<char>> {
    if !contains_text(content, sentinel()) {
        None
    } else {
        let kept = kept_lines(text_lines(content));
        if kept.len() > 0 && kept.last() != '\n' {
            Some(kept + "\n"@)
        } else {
            Some(kept)
        }
    }
}

/// The marker holds no line break, so no occurrence of it can span two
/// lines joined by one.
proof fn lemma_no_marker_joined(a: Seq<char>, b: Seq<char>)
    requires
        !contains_text(a, sentinel()),
        !contains_text(b, sentinel()),
    ensures
        !contains_text(a + "\n"@ + b, sentinel()),
{
    reveal_strlit("# added by fbsy install");
    reveal_strlit("\n");
    let p = sentinel();
    let s = a + "\n"@ + b;
    if contains_text(s, p) {
        let i = choose|i: int| 0 <= i <= s.len() && #[trigger] starts_with(s.skip(i), p);
        assert(s.skip(i).take(p.len() as int) == p);
        if i + p.len() <= a.len() {
            assert(a.skip(i).take(p.len() as int) =~= s.skip(i).take(p.len() as int));
            assert(starts_with(a.skip(i), p));
        } else if i <= a.len() {
            let k = a.len() - i;
            assert(s[a.len() as int] == '\n');
            assert(s.skip(i).take(p.len() as int)[k] == s[a.len() as int]);
            assert(p[k] != '\n');
        } else {
            let j = i - a.len() - 1;
            assert(b.skip(j).take(p.len() as int) =~= s.skip(i).take(p.len() as int));
            assert(starts_with(b.skip(j), p));
        }
    }
}

/// The lines kept after removing the marked ones hold no marker.
proof fn lemma_kept_lines_unmarked(lines: Seq<Seq<char>>)
    ensures
        !contains_text(kept_lines(lines), sentinel()),
    decreases lines.len(),
{
    reveal_strlit("# added by fbsy install");
    if lines.len() > 0 {
        lemma_kept_lines_unmarked(lines.drop_last());
        let rest = kept_lines(lines.drop_last());
        let l = lines.last();
        if !contains_text(l, sentinel()) && kept_count(lines.drop_last()) != 0 {
            lemma_no_marker_joined(rest, l);
        }
    } else {
        assert(!starts_with(Seq::<char>::empty().skip(0), sentinel()));
    }
}

/// Uninstall takes out the line install added: a startup file that holds
/// the marker is rewritten, and what is written back holds it no more.
pub proof fn law_uninstall_removes_marker(content: Seq<char>)
    ensures
        contains_text(content, sentinel()) ==> removal_text(content) is Some,
        removal_text(content) matches Some(t) ==> !contains_text(t, sentinel()),
{
    reveal_strlit("# added by fbsy install");
    reveal_strlit("\n");
    lemma_kept_lines_unmarked(text_lines(content));
    let kept = kept_lines(text_lines(content));
    if kept.len() > 0 && kept.last() != '\n' {
        assert(!starts_with(Seq::<char>::empty().skip(0), sentinel()));
        assert(!contains_text(Seq::<char>::empty(), sentinel()));
        lemma_no_marker_joined(kept, Seq::<char>::empty());
        assert(kept + "\n"@ + Seq::<char>::empty() =~= kept + "\n"@);
    }
}

pub fn without_path_line(content: &str) -> (r: Option<String>)
    ensures
        match r {
            Some(t) => removal_text(content@) == Some(t@),
            None => removal_text(content@) is None,
        },
{
    if !has_marker(content) {
        return None;
    }
    let c = chars_of(content);
    let lines = lines_of(c.as_slice());
    let ghost ls = lines@.map_values(|l: Vec<char>| l@);
    let m = chars_of("# added by fbsy install");
    let mut out: Vec<char> = Vec::new();
    let mut kept: usize = 0;
    let mut i: usize = 0;
    while i < lines.len()
        invariant
            i <= lines.len(),
            ls == lines@.map_values(|l: Vec<char>| l@),
            m@ == sentinel(),
            out@ == kept_lines(ls.take(i as int)),
            kept as nat == kept_count(ls.take(i as int)),
            kept <= i,
        decreases lines.len() - i,
    {
        assert(ls.take(i + 1).drop_last() =~= ls.take(i as int));
        assert(ls.take(i + 1).last() == lines@[i as int]@);
        proof {
            lemma_nothing_kept(ls.take(i as int));
            reveal_strlit("\n");
        }
        if !contains_chars(lines[i].as_slice(), m.as_slice()) {
            if kept > 0 {
                out.push('\n');
            }
            let ghost before = out@;
            let mut k: usize = 0;
            while k < lines[i].len()
                invariant
                    i < lines.len(),
                    k <= lines@[i as int]@.len(),
                    out@ == before + lines@[i as int]@.take(k as int),
                decreases lines@[i as int]@.len() - k,
            {
                out.push(lines[i][k]);
                k += 1;
                assert(out@ =~= before + lines@[i as int]@.take(k as int));
            }
            assert(lines@[i as int]@.take(k as int) =~= lines@[i as int]@);
            kept += 1;
        }
        i += 1;
    }
    assert(ls.take(i as int) =~= ls);
    proof {
        reveal_strlit("\n");
    }
    if out.len() > 0 && out[out.len() - 1] != '\n' {
        out.push('\n');
    }
    Some(string_of(out.as_slice()))
}

/// Whether uninstall deletes the data too: `--full`, or the second choice
/// of the interactive prompt (asked only without `--full` and `--yes`).
pub open spec fn full_delete(args: UninstallArgs, choice: Option<nat>) -> bool {
    args.full || (!args.yes && choice == Some(1nat))
}

pub fn uninstall_is_full(args: &UninstallArgs, choice: Option<usize>) -> (r: bool)
    ensures
        r == full_delete(
            *args,
            match choice {
                Some(c) => Some(c as nat),
                None => None,
            },
        ),
{
    if args.full {
        return true;
    }
    if args.yes {
        return false;
    }
    match choice {
        Some(c) => c == 1,
        None => false,
    }
}

/// Whether uninstall asks which kind of removal to do.
pub fn uninstall_asks(args: &UninstallArgs) -> (r: bool)
    ensures
        r == (!args.full && !args.yes),
{
    !args.full && !args.yes
}

// ── Windows ──────────────────────────────────────────────────────────────────

/// A PowerShell single-quoted literal: quotes doubled.
pub open spec fn ps_literal(path: Seq<char>) -> Seq<char> {
    "'"@ + replace_all(path, "'"@, "''"@) + "'"@
}

pub fn powershell_literal(path: &str) -> (r: String)
    ensures
        r@ == ps_literal(path@),
{
    let c = chars_of(path);
    let q = chars_of("'");
    let qq = chars_of("''");
    let escaped = replace_chars(c.as_slice(), q.as_slice(), qq.as_slice());
    let mut s = String::from_str("'");
    push_chars(&mut s, escaped.as_slice());
    push_str(&mut s, "'");
    s
}

/// The PowerShell script that removes a directory from the user PATH.
pub open spec fn path_removal_text(dir: Seq<char>) -> Seq<char> {
    "$installDir = '"@ + replace_all(dir, "'"@, "''"@)
        + "'; $userPath = [Environment]::GetEnvironmentVariable('Path', 'User'); if ($userPath) { $entries = $userPath -split ';' | Where-Object { $_ -ne '' -and $_ -ne $installDir }; $newPath = $entries -join ';'; [Environment]::SetEnvironmentVariable('Path', $newPath, 'User'); }"@
}

pub fn path_removal_script(dir: &str) -> (r: String)
    ensures
        r@ == path_removal_text(dir@),
{
    let c = chars_of(dir);
    let q = chars_of("'");
    let qq = chars_of("''");
    let escaped = replace_chars(c.as_slice(), q.as_slice(), qq.as_slice());
    let mut s = String::from_str("$installDir = '");
    push_chars(&mut s, escaped.as_slice());
    push_str(
        &mut s,
        "'; $userPath = [Environment]::GetEnvironmentVariable('Path', 'User'); if ($userPath) { $entries = $userPath -split ';' | Where-Object { $_ -ne '' -and $_ -ne $installDir }; $newPath = $entries -join ';'; [Environment]::SetEnvironmentVariable('Path', $newPath, 'User'); }",
    );
    s
}

/// The PowerShell script that deletes the executable once this process
/// (`pid`) has exited, and its directory if that is left empty.
pub open spec fn self_delete_text(pid: u32, literal: Seq<char>) -> Seq<char> {
    "$pidToWait = "@ + dec(pid as nat)
        + "; try { Wait-Process -Id $pidToWait -ErrorAction SilentlyContinue } catch {}; Start-Sleep -Milliseconds 250; Remove-Item -LiteralPath "@
        + literal + " -Force -ErrorAction SilentlyContinue; $dir = Split-Path -LiteralPath "@ + literal
        + "; if ($dir -and (Test-Path -LiteralPath $dir)) { $children = @(Get-ChildItem -LiteralPath $dir -Force -ErrorAction SilentlyContinue); if ($children.Count -eq 0) { Remove-Item -LiteralPath $dir -Force -ErrorAction SilentlyContinue } }"@
}

pub fn self_delete_script(pid: u32, path: &str) -> (r: String)
    ensures
        r@ == self_delete_text(pid, ps_literal(path@)),
{
    let literal = powershell_literal(path);
    let mut s = String::from_str("$pidToWait = ");
    push_dec(&mut s, pid as u64);
    push_str(
        &mut s,
        "; try { Wait-Process -Id $pidToWait -ErrorAction SilentlyContinue } catch {}; Start-Sleep -Milliseconds 250; Remove-Item -LiteralPath ",
    );
    push_str(&mut s, literal.as_str());
    push_str(&mut s, " -Force -ErrorAction SilentlyContinue; $dir = Split-Path -LiteralPath ");
    push_str(&mut s, literal.as_str());
    push_str(
        &mut s,
        "; if ($dir -and (Test-Path -LiteralPath $dir)) { $children = @(Get-ChildItem -LiteralPath $dir -Force -ErrorAction SilentlyContinue); if ($children.Count -eq 0) { Remove-Item -LiteralPath $dir -Force -ErrorAction SilentlyContinue } }",
    );
    s
}

} // verus!
