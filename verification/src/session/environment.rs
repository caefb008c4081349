//! A seat's environment: its variable table, and the line format it is
//! shared in (`KEY=value`, blank lines and `#` comments ignored).
use crate::error::BackendError;
use crate::table::{last_assigned, lookup, sorted_keys, TextTable};
use crate::text::{
    chars_of, eq_lit, find_char, lines, lines_vec, lit_then, split_once_char, string_of,
};
use vstd::prelude::*;

verus! {

/// A seat's environment variables.
pub type Environment = TextTable;

/// The variables a seat environment may carry.
pub open spec fn is_session_key(k: Seq<char>) -> bool {
    ||| k == "DISPLAY"@ || k == "XAUTHORITY"@ || k == "WAYLAND_DISPLAY"@
    ||| k == "DBUS_SESSION_BUS_ADDRESS"@ || k == "DBUS_SYSTEM_BUS_ADDRESS"@
    ||| k == "AT_SPI_BUS_ADDRESS"@ || k == "XDG_RUNTIME_DIR"@ || k == "XDG_SESSION_TYPE"@
    ||| k == "XDG_CURRENT_DESKTOP"@ || k == "XDG_CONFIG_HOME"@ || k == "XDG_CACHE_HOME"@
    ||| k == "XDG_DATA_HOME"@ || k == "XDG_DATA_DIRS"@
    ||| k == "QT_LINUX_ACCESSIBILITY_ALWAYS_ON"@ || k == "GTK_A11Y"@
}

fn session_key(k: &[char]) -> (b: bool)
    ensures
        b == is_session_key(k@),
{
    eq_lit(k, "DISPLAY") || eq_lit(k, "XAUTHORITY") || eq_lit(k, "WAYLAND_DISPLAY") || eq_lit(
        k,
        "DBUS_SESSION_BUS_ADDRESS",
    ) || eq_lit(k, "DBUS_SYSTEM_BUS_ADDRESS") || eq_lit(k, "AT_SPI_BUS_ADDRESS") || eq_lit(
        k,
        "XDG_RUNTIME_DIR",
    ) || eq_lit(k, "XDG_SESSION_TYPE") || eq_lit(k, "XDG_CURRENT_DESKTOP") || eq_lit(
        k,
        "XDG_CONFIG_HOME",
    ) || eq_lit(k, "XDG_CACHE_HOME") || eq_lit(k, "XDG_DATA_HOME") || eq_lit(k, "XDG_DATA_DIRS")
        || eq_lit(k, "QT_LINUX_ACCESSIBILITY_ALWAYS_ON") || eq_lit(k, "GTK_A11Y")
}

/// What one line of an environment file says: nothing (blank or `#`
/// comment), an assignment, or why it is refused.
pub open spec fn session_line(l: Seq<char>) -> Option<Result<(Seq<char>, Seq<char>), Seq<char>>> {
    if l.len() == 0 || l[0] == '#' {
        None
    } else {
        match find_char(l, '=') {
            None => Some(Err("Malformed session environment"@)),
            Some(i) => if is_session_key(l.take(i)) {
                Some(Ok((l.take(i), l.skip(i + 1))))
            } else {
                Some(Err("Unexpected session variable "@ + l.take(i)))
            },
        }
    }
}

/// The assignments of a sequence of lines, in order, or the refusal of the
/// first line that is refused.
pub open spec fn session_assignments(ls: Seq<Seq<char>>) -> Result<Seq<(Seq<char>, Seq<char>)>, Seq<char>>
    decreases ls.len(),
{
    if ls.len() == 0 {
        Ok(Seq::empty())
    } else {
        match session_assignments(ls.drop_last()) {
            Err(m) => Err(m),
            Ok(a) => match session_line(ls.last()) {
                None => Ok(a),
                Some(Ok(p)) => Ok(a.push(p)),
                Some(Err(m)) => Err(m),
            },
        }
    }
}

/// A refused line refuses every longer text that begins with it.
pub proof fn lemma_refusal_extends(ls: Seq<Seq<char>>, n: int)
    requires
        0 <= n <= ls.len(),
        session_assignments(ls.take(n)) is Err,
    ensures
        session_assignments(ls) == session_assignments(ls.take(n)),
    decreases ls.len(),
{
    if n < ls.len() {
        assert(ls.drop_last().take(n) =~= ls.take(n));
        lemma_refusal_extends(ls.drop_last(), n);
    } else {
        assert(ls.take(n) =~= ls);
    }
}

/// Reads an environment file's text: each `KEY=value` line sets a session
/// variable (a later line wins); a line without `=`, or with a key that is not
/// a session variable, refuses the whole file.
pub fn parse_environment(text: &str) -> (r: Result<Environment, BackendError>)
    ensures
        match session_assignments(lines(text@)) {
            Ok(a) => r matches Ok(env) && sorted_keys(env@) && forall|k: Seq<char>|
                #[trigger] lookup(env@, k) == last_assigned(a, k),
            Err(m) => r matches Err(BackendError::Failed(e)) && e@ == m,
        },
{
    let chars = chars_of(text);
    let ls = lines_vec(chars.as_slice());
    let ghost all = lines(text@);
    let mut env = Environment::new();
    let mut i: usize = 0;
    let ghost mut done: Seq<(Seq<char>, Seq<char>)> = Seq::empty();
    while i < ls.len()
        invariant
            i <= ls@.len(),
            crate::text::views(ls@) == all,
            all == lines(text@),
            session_assignments(all.take(i as int)) == Ok::<Seq<(Seq<char>, Seq<char>)>, Seq<char>>(done),
            sorted_keys(env@),
            forall|k: Seq<char>| #[trigger] lookup(env@, k) == last_assigned(done, k),
        decreases ls@.len() - i,
    {
        let line = &ls[i];
        proof {
            assert(line@ == all[i as int]);
            assert(all.take(i + 1).drop_last() =~= all.take(i as int));
            assert(all.take(i + 1).last() == line@);
        }
        if line.len() == 0 || line[0] == '#' {
        } else {
            match split_once_char(line.as_slice(), '=') {
                None => {
                    proof {
                        reveal_strlit("Malformed session environment");
                        assert(session_line(line@) == Some(Err::<(Seq<char>, Seq<char>), Seq<char>>("Malformed session environment"@)));
                        assert(session_assignments(all.take(i + 1)) == Err::<Seq<(Seq<char>, Seq<char>)>, Seq<char>>("Malformed session environment"@));
                        lemma_refusal_extends(all, i + 1);
                    }
                    return Err(BackendError::Failed(String::from_str("Malformed session environment")));
                },
                Some((key, value)) => {
                    if !session_key(key.as_slice()) {
                        proof {
                            let ghost m = "Unexpected session variable "@ + key@;
                            assert(session_line(line@) == Some(Err::<(Seq<char>, Seq<char>), Seq<char>>(m)));
                            assert(session_assignments(all.take(i + 1)) == Err::<Seq<(Seq<char>, Seq<char>)>, Seq<char>>(m));
                            lemma_refusal_extends(all, i + 1);
                        }
                        return Err(BackendError::Failed(lit_then("Unexpected session variable ", key.as_slice())));
                    }
                    let ghost kv = key@;
                    let ghost vv = value@;
                    let ghost before = done;
                    env.insert(string_of(key.as_slice()), string_of(value.as_slice()));
                    proof {
                        done = before.push((kv, vv));
                        assert forall|k: Seq<char>| #[trigger] lookup(env@, k) == last_assigned(done, k) by {
                            assert(done.drop_last() =~= before);
                        }
                    }
                },
            }
        }
        i += 1;
    }
    proof {
        assert(all.take(i as int) =~= all);
    }
    env.ordered_view();
    Ok(env)
}

/// A seat can be joined only when its environment names both its session
/// bus and its runtime directory.
pub fn check_joinable(env: &Environment) -> (r: Result<(), BackendError>)
    ensures
        (lookup(env@, "DBUS_SESSION_BUS_ADDRESS"@) is Some && lookup(env@, "XDG_RUNTIME_DIR"@) is Some)
            ==> r is Ok,
        !(lookup(env@, "DBUS_SESSION_BUS_ADDRESS"@) is Some && lookup(env@, "XDG_RUNTIME_DIR"@) is Some)
            ==> (r matches Err(BackendError::Failed(m))
            && m@ == "Session requires DBUS_SESSION_BUS_ADDRESS and XDG_RUNTIME_DIR"@),
{
    if !env.contains_key("DBUS_SESSION_BUS_ADDRESS") || !env.contains_key("XDG_RUNTIME_DIR") {
        return Err(BackendError::Failed(String::from_str("Session requires DBUS_SESSION_BUS_ADDRESS and XDG_RUNTIME_DIR")));
    }
    Ok(())
}


} // verus!
