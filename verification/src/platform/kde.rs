//! KDE: the application entry that authorizes screenshots through KWin, the
//! private-session check that keeps it inside a joined seat, and the KWin
//! presence probe.
use crate::drivers::Probe;
use crate::error::BackendError;
use crate::text::{chars_of, eq_lit, lines, lines_vec, starts_with_lit, string_of};
use vstd::prelude::*;

verus! {

/// One character escaped for a quoted `Exec` argument: `\`, `"`, `` ` ``
/// and `$` get a backslash, `%` is doubled.
pub open spec fn exec_escape_char(c: char) -> Seq<char> {
    if c == '\\' {
        seq!['\\', '\\']
    } else if c == '"' {
        seq!['\\', '"']
    } else if c == '`' {
        seq!['\\', '`']
    } else if c == '$' {
        seq!['\\', '$']
    } else if c == '%' {
        seq!['%', '%']
    } else {
        seq![c]
    }
}

/// One character escaped for a desktop-entry string value.
pub open spec fn desktop_escape_char(c: char) -> Seq<char> {
    if c == '\\' {
        seq!['\\', '\\']
    } else if c == '\n' {
        seq!['\\', 'n']
    } else if c == '\r' {
        seq!['\\', 'r']
    } else if c == '\t' {
        seq!['\\', 't']
    } else {
        seq![c]
    }
}

/// `s` with `esc` applied to every character.
pub open spec fn escaped(s: Seq<char>, esc: spec_fn(char) -> Seq<char>) -> Seq<char>
    decreases s.len(),
{
    if s.len() == 0 {
        Seq::empty()
    } else {
        escaped(s.drop_last(), esc) + esc(s.last())
    }
}

/// The quoted `Exec` command for an executable path.
pub open spec fn exec_command(path: Seq<char>) -> Seq<char> {
    seq!['"'] + escaped(path, |c: char| exec_escape_char(c)) + seq!['"']
}

/// A desktop-entry string value.
pub open spec fn desktop_value(s: Seq<char>) -> Seq<char> {
    escaped(s, |c: char| desktop_escape_char(c))
}

fn push_all(out: &mut Vec<char>, Ghost(s): Ghost<Seq<char>>, a: char, b: Option<char>)
    requires
        s == match b {
            Some(x) => seq![a, x],
            None => seq![a],
        },
    ensures
        final(out)@ == old(out)@ + s,
{
    out.push(a);
    match b {
        Some(x) => out.push(x),
        None => {},
    }
    assert(final(out)@ =~= old(out)@ + s);
}

fn exec_escaped(s: &[char]) -> (r: Vec<char>)
    ensures
        r@ == escaped(s@, |c: char| exec_escape_char(c)),
{
    let mut r: Vec<char> = Vec::new();
    let mut i: usize = 0;
    while i < s.len()
        invariant
            i <= s@.len(),
            r@ == escaped(s@.take(i as int), |c: char| exec_escape_char(c)),
        decreases s@.len() - i,
    {
        let c = s[i];
        proof {
            assert(s@.take(i + 1).drop_last() =~= s@.take(i as int));
        }
        if c == '\\' || c == '"' || c == '`' || c == '$' {
            push_all(&mut r, Ghost(exec_escape_char(c)), '\\', Some(c));
        } else if c == '%' {
            push_all(&mut r, Ghost(exec_escape_char(c)), '%', Some('%'));
        } else {
            push_all(&mut r, Ghost(exec_escape_char(c)), c, None);
        }
        i += 1;
    }
    assert(s@.take(i as int) =~= s@);
    r
}

fn desktop_escaped(s: &[char]) -> (r: Vec<char>)
    ensures
        r@ == desktop_value(s@),
{
    let mut r: Vec<char> = Vec::new();
    let mut i: usize = 0;
    while i < s.len()
        invariant
            i <= s@.len(),
            r@ == desktop_value(s@.take(i as int)),
        decreases s@.len() - i,
    {
        let c = s[i];
        proof {
            assert(s@.take(i + 1).drop_last() =~= s@.take(i as int));
        }
        if c == '\\' {
            push_all(&mut r, Ghost(desktop_escape_char(c)), '\\', Some('\\'));
        } else if c == '\n' {
            push_all(&mut r, Ghost(desktop_escape_char(c)), '\\', Some('n'));
        } else if c == '\r' {
            push_all(&mut r, Ghost(desktop_escape_char(c)), '\\', Some('r'));
        } else if c == '\t' {
            push_all(&mut r, Ghost(desktop_escape_char(c)), '\\', Some('t'));
        } else {
            push_all(&mut r, Ghost(desktop_escape_char(c)), c, None);
        }
        i += 1;
    }
    assert(s@.take(i as int) =~= s@);
    r
}

/// `desktop_string`: a value escaped for a desktop entry.
pub fn desktop_string(value: &str) -> (r: String)
    ensures
        r@ == desktop_value(value@),
{
    let v = chars_of(value);
    let e = desktop_escaped(v.as_slice());
    string_of(e.as_slice())
}

/// One line of the installed entry: `Exec=` runs the quoted executable,
/// `TryExec=` names it, every other template line is kept.
pub open spec fn entry_line(line: Seq<char>, path: Seq<char>) -> Seq<char> {
    if line.len() >= 5 && line.take(5) == "Exec="@ {
        "Exec="@ + desktop_value(exec_command(path))
    } else if line.len() >= 8 && line.take(8) == "TryExec="@ {
        "TryExec="@ + desktop_value(path)
    } else {
        line
    }
}

/// The entry text from the template's lines, each ending in a newline.
pub open spec fn entry_text(ls: Seq<Seq<char>>, path: Seq<char>) -> Seq<char>
    decreases ls.len(),
{
    if ls.len() == 0 {
        Seq::empty()
    } else {
        entry_text(ls.drop_last(), path) + entry_line(ls.last(), path) + "\n"@
    }
}

/// The application entry that registers `executable` (a UTF-8 path; `None`
/// when the path is not UTF-8) from the packaged entry `template`.
pub fn application_entry(executable: Option<&str>, template: &str) -> (r: Result<String, BackendError>)
    ensures
        match executable {
            Some(p) => r matches Ok(s) && s@ == entry_text(lines(template@), p@),
            None => r matches Err(BackendError::Unsupported { reason }) && reason@
                == "KDE application registration requires a UTF-8 executable path"@,
        },
{
    let path = match executable {
        Some(p) => p,
        None => {
            return Err(BackendError::Unsupported {
                reason: String::from_str("KDE application registration requires a UTF-8 executable path"),
            });
        },
    };
    proof {
        reveal_strlit("Exec=");
        reveal_strlit("TryExec=");
    }
    let pc = chars_of(path);
    let mut command: Vec<char> = Vec::new();
    command.push('"');
    let mut inner = exec_escaped(pc.as_slice());
    command.append(&mut inner);
    command.push('"');
    assert(command@ =~= exec_command(path@));
    let exec_value = desktop_escaped(command.as_slice());
    let try_value = desktop_escaped(pc.as_slice());
    let t = chars_of(template);
    let ls = lines_vec(t.as_slice());
    let ghost all = lines(template@);
    let mut entry = String::new();
    let mut i: usize = 0;
    while i < ls.len()
        invariant
            i <= ls@.len(),
            crate::text::views(ls@) == all,
            exec_value@ == desktop_value(exec_command(path@)),
            try_value@ == desktop_value(path@),
            entry@ == entry_text(all.take(i as int), path@),
        decreases ls@.len() - i,
    {
        let line = &ls[i];
        proof {
            reveal_strlit("Exec=");
            reveal_strlit("TryExec=");
            assert(all.take(i + 1).drop_last() =~= all.take(i as int));
            assert(all.take(i + 1).last() == line@);
        }
        if starts_with_lit(line.as_slice(), "Exec=") {
            entry.append("Exec=");
            let v = string_of(exec_value.as_slice());
            entry.append(v.as_str());
        } else if starts_with_lit(line.as_slice(), "TryExec=") {
            entry.append("TryExec=");
            let v = string_of(try_value.as_slice());
            entry.append(v.as_str());
        } else {
            let v = string_of(line.as_slice());
            entry.append(v.as_str());
        }
        entry.append("\n");
        i += 1;
    }
    assert(all.take(i as int) =~= all);
    Ok(entry)
}

/// Whether `data` lies strictly below `runtime`, component by component, for
/// canonical absolute paths.
pub open spec fn strictly_below(data: Seq<char>, runtime: Seq<char>) -> bool {
    &&& data != runtime
    &&& runtime.len() <= data.len()
    &&& data.take(runtime.len() as int) == runtime
    &&& (runtime.len() > 0 && runtime.last() == '/') || data[runtime.len() as int] == '/'
}

/// The private data directory of a joined session: the canonical `data`
/// directory when it lies inside the canonical session runtime directory.
pub fn private_directory(runtime: &str, data: &str) -> (r: Option<String>)
    ensures
        strictly_below(data@, runtime@) ==> (r matches Some(s) && s@ == data@),
        !strictly_below(data@, runtime@) ==> r is None,
{
    let rc = chars_of(runtime);
    let dc = chars_of(data);
    if rc.len() >= dc.len() {
        proof {
            if rc@.len() == dc@.len() {
                assert(dc@.take(rc@.len() as int) =~= dc@);
            }
        }
        return None;
    }
    let head = crate::text::slice_range(dc.as_slice(), 0, rc.len());
    if !crate::text::eq_chars(head.as_slice(), rc.as_slice()) {
        return None;
    }
    let separated = (rc.len() > 0 && rc[rc.len() - 1] == '/') || dc[rc.len()] == '/';
    if !separated {
        return None;
    }
    Some(String::from_str(data))
}

/// The failure of the KDE cache refresh, with what it printed.
pub fn registration_failed(stderr: &str) -> (e: BackendError)
    ensures
        e matches BackendError::ExternalCommandFailed { stderr: m } && m@
            == "KDE application registration failed: "@ + stderr@,
{
    let mut m = String::from_str("KDE application registration failed: ");
    m.append(stderr);
    BackendError::ExternalCommandFailed { stderr: m }
}

/// An I/O failure while registering.
pub fn io(error: &str) -> (e: BackendError)
    ensures
        e matches BackendError::Failed(m) && m@ == "KDE application registration: "@ + error@,
{
    let mut m = String::from_str("KDE application registration: ");
    m.append(error);
    BackendError::Failed(m)
}

/// Whether one of `names` is `org.kde.KWin`.
fn has_kwin(names: &Vec<String>) -> (b: bool)
    ensures
        b == exists|i: int| 0 <= i < names@.len() && #[trigger] names@[i]@ == "org.kde.KWin"@,
{
    let mut i: usize = 0;
    while i < names.len()
        invariant
            i <= names@.len(),
            forall|j: int| 0 <= j < i ==> #[trigger] names@[j]@ != "org.kde.KWin"@,
        decreases names@.len() - i,
    {
        let c = chars_of(names[i].as_str());
        if eq_lit(c.as_slice(), "org.kde.KWin") {
            assert(names@[i as int]@ == "org.kde.KWin"@);
            return true;
        }
        i += 1;
    }
    false
}

/// The KWin probe from the session bus's name list (or the error listing
/// it): KWin is there when `org.kde.KWin` owns a name.
pub fn kwin_probe(id: &'static str, names: Result<Vec<String>, String>) -> (p: Probe)
    ensures
        p.id == id,
        match names {
            Ok(ns) => if exists|i: int| 0 <= i < ns@.len() && #[trigger] ns@[i]@ == "org.kde.KWin"@ {
                p.ok && p.detail@ == "org.kde.KWin on session bus"@
            } else {
                !p.ok && p.detail@ == "org.kde.KWin not on session bus"@
            },
            Err(e) => !p.ok && p.detail@ == "dbus list_names: "@ + e@,
        },
{
    match names {
        Ok(ns) => {
            if has_kwin(&ns) {
                Probe { id, ok: true, detail: String::from_str("org.kde.KWin on session bus") }
            } else {
                Probe { id, ok: false, detail: String::from_str("org.kde.KWin not on session bus") }
            }
        },
        Err(e) => {
            let mut m = String::from_str("dbus list_names: ");
            m.append(e.as_str());
            Probe { id, ok: false, detail: m }
        },
    }
}

} // verus!
