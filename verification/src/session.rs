//! Desktop session entries and the manager that answers lookups.
//!
//! Reading the session directories and their desktop files is I/O and
//! stays with the caller, who hands the loaded entries to
//! [`SessionManager::new`]; the lookups over them are verified here.

use vstd::prelude::*;

use crate::text::chars_le;
use crate::text::lemma_chars_le_total;
use crate::text::lemma_chars_le_trans;
use crate::text::str_eq;
use crate::text::str_le;

verus! {

use vstd::string::StrSliceExecFns;

/// Whether a desktop entry may be offered as a session.  Each argument
/// models a key of the entry's desktop file, `None` where the key is
/// absent or unreadable; `try_exec_found` is `None` when the entry
/// names no `TryExec` program, and otherwise says whether the program
/// was found.  An entry is usable unless it is marked `NoDisplay` or
/// `Hidden`, or its `TryExec` program is missing.
pub fn session_entry_usable(
    no_display: Option<bool>,
    hidden: Option<bool>,
    try_exec_found: Option<bool>,
) -> (r: bool)
    ensures
        r == (no_display != Some(true) && hidden != Some(true) && try_exec_found != Some(false)),
{
    let shown = match no_display {
        Some(b) => !b,
        None => true,
    };
    let visible = match hidden {
        Some(b) => !b,
        None => true,
    };
    let runnable = match try_exec_found {
        Some(b) => b,
        None => true,
    };
    shown && visible && runnable
}

/// A file name with every trailing `.desktop` suffix removed: the key
/// a session entry is looked up by.
pub open spec fn strip_desktop(s: Seq<char>) -> Seq<char>
    decreases s.len(),
{
    if s.len() >= 8 && s.skip(s.len() - 8) == ".desktop"@ {
        strip_desktop(s.take(s.len() - 8))
    } else {
        s
    }
}

/// Whether the vector ends in `.desktop`.
fn ends_with_desktop(v: &Vec<char>) -> (r: bool)
    ensures
        r == (v@.len() >= 8 && v@.skip(v@.len() - 8) == ".desktop"@),
{
    proof {
        reveal_strlit(".desktop");
    }
    let suffix = ".desktop";
    let n = v.len();
    if n < 8 {
        return false;
    }
    let mut k: usize = 0;
    while k < 8
        invariant
            k <= 8,
            8 <= n == v@.len(),
            suffix@ == ".desktop"@,
            suffix@.len() == 8,
            forall|m: int| 0 <= m < k ==> v@[n - 8 + m] == suffix@[m],
        decreases 8 - k,
    {
        if v[n - 8 + k] != suffix.get_char(k) {
            proof {
                assert(v@.skip(n as int - 8)[k as int] == v@[n - 8 + k]);
            }
            return false;
        }
        k = k + 1;
    }
    proof {
        assert(v@.skip(n as int - 8) =~= ".desktop"@);
    }
    true
}

/// The session key a desktop file's name yields.
pub fn session_key(file_name: &str) -> (r: String)
    ensures
        r@ == strip_desktop(file_name@),
{
    let mut v = crate::json::str_chars(file_name);
    loop
        invariant
            strip_desktop(file_name@) == strip_desktop(v@),
        ensures
            strip_desktop(file_name@) == strip_desktop(v@),
            !(v@.len() >= 8 && v@.skip(v@.len() - 8) == ".desktop"@),
        decreases v@.len(),
    {
        if !ends_with_desktop(&v) {
            break;
        }
        let n = v.len();
        v.truncate(n - 8);
    }
    crate::json::chars_to_string(&v)
}

/// The mathematical shape of a [`Session`].
pub struct SessionView {
    pub key: Seq<char>,
    pub type_: Seq<char>,
    pub name: Seq<char>,
    pub comment: Seq<char>,
    pub command: Seq<char>,
}

/// One installed desktop session: a desktop file's name (the key), the
/// kind of session it starts, and what to run.  (The desktop file calls
/// the command line `Exec`; that word is reserved here, so the field is
/// `command`.)
pub struct Session {
    key: String,
    type_: String,
    name: String,
    comment: String,
    command: String,
}

impl View for Session {
    type V = SessionView;

    closed spec fn view(&self) -> SessionView {
        SessionView {
            key: self.key@,
            type_: self.type_@,
            name: self.name@,
            comment: self.comment@,
            command: self.command@,
        }
    }
}

impl Session {
    /// A session entry from its parts.
    pub fn new(key: String, type_: String, name: String, comment: String, command: String) -> (r:
        Session)
        ensures
            r@ == (SessionView {
                key: key@,
                type_: type_@,
                name: name@,
                comment: comment@,
                command: command@,
            }),
    {
        Session { key, type_, name, comment, command }
    }

    /// The desktop file's name, without its extension.
    pub fn key(&self) -> (r: &str)
        ensures
            r@ == self@.key,
    {
        self.key.as_str()
    }

    /// The kind of session the entry starts.
    pub fn type_(&self) -> (r: &str)
        ensures
            r@ == self@.type_,
    {
        self.type_.as_str()
    }

    /// The entry's display name.
    pub fn name(&self) -> (r: &str)
        ensures
            r@ == self@.name,
    {
        self.name.as_str()
    }

    /// The entry's comment, possibly empty.
    pub fn comment(&self) -> (r: &str)
        ensures
            r@ == self@.comment,
    {
        self.comment.as_str()
    }

    /// The command line the entry runs.
    pub fn command(&self) -> (r: &str)
        ensures
            r@ == self@.command,
    {
        self.command.as_str()
    }
}

/// The sessions available for login, in the order the caller loaded
/// them.
pub struct SessionManager {
    sessions: Vec<Session>,
}

impl View for SessionManager {
    type V = Seq<SessionView>;

    closed spec fn view(&self) -> Seq<SessionView> {
        self.sessions.deep_view()
    }
}

impl DeepView for Session {
    type V = SessionView;

    open spec fn deep_view(&self) -> SessionView {
        self.view()
    }
}

impl SessionManager {
    /// A manager over the loaded entries.
    pub fn new(sessions: Vec<Session>) -> (r: SessionManager)
        ensures
            r@ == sessions.deep_view(),
    {
        SessionManager { sessions }
    }

    /// All entries, sorted by key; entries sharing a key keep the
    /// order given at construction.
    pub fn sessions(&self) -> (r: Vec<&Session>)
        ensures
            r.deep_view().to_multiset() == self@.to_multiset(),
            forall|i: int, j: int|
                0 <= i < j < r.deep_view().len() ==> chars_le(
                    r.deep_view()[i].key,
                    r.deep_view()[j].key,
                ),
    {
        broadcast use vstd::seq_lib::group_to_multiset_ensures;

        let mut out: Vec<&Session> = Vec::new();
        let mut k: usize = 0;
        proof {
            assert(self@.take(0).to_multiset() =~= out.deep_view().to_multiset());
        }
        while k < self.sessions.len()
            invariant
                k <= self.sessions@.len(),
                self@.len() == self.sessions@.len(),
                out.deep_view().len() == k,
                out.deep_view().to_multiset() == self@.take(k as int).to_multiset(),
                forall|i: int, j: int|
                    0 <= i < j < out.deep_view().len() ==> chars_le(
                        out.deep_view()[i].key,
                        out.deep_view()[j].key,
                    ),
            decreases self.sessions@.len() - k,
        {
            let s: &Session = &self.sessions[k];
            let ghost sv = s@;
            proof {
                assert(self.sessions@[k as int].deep_view() == self.sessions@[k as int]@);
                assert(sv == self@[k as int]);
            }
            let mut p: usize = 0;
            loop
                invariant
                    p <= out@.len(),
                    out.deep_view().len() == out@.len(),
                    sv == s@,
                    forall|i: int| 0 <= i < p ==> chars_le(out.deep_view()[i].key, sv.key),
                ensures
                    p <= out@.len(),
                    forall|i: int| 0 <= i < p ==> chars_le(out.deep_view()[i].key, sv.key),
                    p == out@.len() || !chars_le(out.deep_view()[p as int].key, sv.key),
                decreases out@.len() - p,
            {
                if p == out.len() {
                    break ;
                }
                let e: &Session = out[p];
                proof {
                    assert(e == out@[p as int]);
                    assert(e@ == out.deep_view()[p as int]);
                }
                let ka = e.key();
                let kb = s.key();
                proof {
                    assert(ka@ == e@.key);
                    assert(kb@ == sv.key);
                }
                if !str_le(ka, kb) {
                    break ;
                }
                proof {
                    assert(chars_le(out.deep_view()[p as int].key, sv.key));
                }
                p = p + 1;
            }
            let ghost odv = out.deep_view();
            out.insert(p, s);
            proof {
                assert(out.deep_view() =~~= odv.insert(p as int, sv));
                vstd::seq_lib::to_multiset_insert(odv, p as int, sv);
                assert(self@.take(k as int + 1) =~= self@.take(k as int).push(self@[k as int]));
                vstd::seq_lib::to_multiset_build(self@.take(k as int), self@[k as int]);
                assert(out.deep_view().to_multiset() =~= self@.take(k as int + 1).to_multiset());
                let ndv = out.deep_view();
                assert forall|i: int, j: int|
                    0 <= i < j < ndv.len() implies chars_le(ndv[i].key, ndv[j].key) by {
                    if j < p {
                        assert(ndv[i] == odv[i] && ndv[j] == odv[j]);
                    } else if i < p && j == p {
                        assert(ndv[i] == odv[i] && ndv[j] == sv);
                    } else if i < p && j > p {
                        assert(ndv[i] == odv[i] && ndv[j] == odv[j - 1]);
                        if p < j - 1 {
                            lemma_chars_le_total(odv[p as int].key, sv.key);
                            lemma_chars_le_trans(odv[i].key, odv[p as int].key, odv[j - 1].key);
                        }
                    } else if i == p {
                        assert(ndv[i] == sv && ndv[j] == odv[j - 1]);
                        lemma_chars_le_total(odv[p as int].key, sv.key);
                        if p < j - 1 {
                            lemma_chars_le_trans(sv.key, odv[p as int].key, odv[j - 1].key);
                        }
                    } else {
                        assert(ndv[i] == odv[i - 1] && ndv[j] == odv[j - 1]);
                    }
                }
            }
            k = k + 1;
        }
        proof {
            assert(self@.take(self@.len() as int) =~= self@);
        }
        out
    }

    /// The first entry under the given key, if any.
    pub fn session(&self, key: &str) -> (r: Option<&Session>)
        ensures
            (match r {
                Some(s) => exists|i: int|
                    0 <= i < self@.len() && self@[i].key == key@ && s@ == self@[i],
                None => forall|i: int| 0 <= i < self@.len() ==> self@[i].key != key@,
            }),
    {
        let mut i: usize = 0;
        while i < self.sessions.len()
            invariant
                i <= self.sessions@.len(),
                self@.len() == self.sessions@.len(),
                forall|j: int| 0 <= j < i ==> self@[j].key != key@,
            decreases self.sessions@.len() - i,
        {
            proof {
                assert(self@[i as int] == self.sessions@[i as int]@);
            }
            if str_eq(self.sessions[i].key(), key) {
                return Some(&self.sessions[i]);
            }
            i = i + 1;
        }
        None
    }
}

} // verus!
