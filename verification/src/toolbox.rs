//! What Terms reads about the host's users and processes: the login shell of
//! a user from the passwd database, and the `/proc` files of a process.
use vstd::prelude::*;
use crate::text::{
    chars_of, decimal, i32_to_string, lemma_decimal_injective, lines, lines_of, push_decimal, signed_decimal, split, split_fields,
    string_of, trim, trim_str, u32_to_string, views,
};

verus! {

/// Why a host lookup failed.
#[derive(Debug)]
#[non_exhaustive]
pub enum ToolboxError {
    /// Reading a file failed.
    IoError(std::io::Error),
    /// The data read did not hold what was looked for; the text says what.
    Unknown(String),
}

/// The message of a lookup that failed, when it is one the library made.
pub open spec fn unknown_message(r: Result<String, ToolboxError>) -> Option<Seq<char>> {
    match r {
        Err(ToolboxError::Unknown(msg)) => Some(msg@),
        _ => None,
    }
}

/// Whether a passwd line belongs to the user `uid`: its fourth `':'`-separated
/// field is `uid` written in decimal.
pub open spec fn passwd_line_has_uid(line: Seq<char>, uid: u32) -> bool {
    let fields = split(line, ':');
    fields.len() > 3 && fields[3] == decimal(uid as nat)
}

/// What `shell_from_passwd_line` gives for `line`: the seventh field,
/// trimmed, or the message for a line with fewer than seven fields.
pub open spec fn passwd_shell(line: Seq<char>) -> Result<Seq<char>, Seq<char>> {
    let fields = split(line, ':');
    if fields.len() < 7 {
        Err("Could not parse user line from passwd line "@ + line)
    } else {
        Ok(trim(fields[6]))
    }
}

/// Whether `r` is the outcome that `expected` describes.
pub open spec fn shell_result_is(r: Result<String, ToolboxError>, expected: Result<Seq<char>, Seq<char>>) -> bool {
    match expected {
        Ok(shell) => r is Ok && r->Ok_0@ == shell,
        Err(msg) => unknown_message(r) == Some(msg),
    }
}

/// The first index `i` of `ls` at which `passwd_line_has_uid` holds.
pub open spec fn is_first_line_of(ls: Seq<Seq<char>>, uid: u32, i: int) -> bool {
    &&& 0 <= i < ls.len()
    &&& passwd_line_has_uid(ls[i], uid)
    &&& forall|j: int| 0 <= j < i ==> !passwd_line_has_uid(#[trigger] ls[j], uid)
}

/// What `user_shell` finds for `uid` in passwd text `passwd`: the shell of
/// the first line of the user, or a message when no line is the user's.
pub open spec fn passwd_user_shell(passwd: Seq<char>, uid: u32) -> Result<Seq<char>, Seq<char>> {
    let ls = lines(passwd);
    if exists|i: int| is_first_line_of(ls, uid, i) {
        passwd_shell(ls[choose|i: int| is_first_line_of(ls, uid, i)])
    } else {
        Err("User "@ + decimal(uid as nat) + " not found in passwd file"@)
    }
}

/// A string with the characters of `s`.
fn owned(s: &str) -> (r: String)
    ensures
        r@ == s@,
{
    s.to_owned()
}

/// `a` followed by `b`.
fn concat(a: String, b: &str) -> (r: String)
    ensures
        r@ == a@ + b@,
{
    let mut a = a;
    a.append(b);
    a
}

fn fields_has_uid(fields: &Vec<Vec<char>>, uid_text: &Vec<char>) -> (r: bool)
    ensures
        r == (fields@.len() > 3 && fields@[3]@ == uid_text@),
{
    if fields.len() <= 3 {
        return false;
    }
    let f = &fields[3];
    proof { assert(f@ == fields@[3]@); }
    if f.len() != uid_text.len() {
        return false;
    }
    let mut i: usize = 0;
    while i < f.len()
        invariant
            f.len() == uid_text.len(),
            fields@.len() > 3,
            f@ == fields@[3]@,
            i <= f.len(),
            forall|j: int| 0 <= j < i ==> f@[j] == uid_text@[j],
        decreases f.len() - i,
    {
        if f[i] != uid_text[i] {
            proof {
                assert(f@[i as int] != uid_text@[i as int]);
                assert(f@ != uid_text@);
            }
            return false;
        }
        i += 1;
    }
    proof { assert(f@ == uid_text@); }
    true
}

/// Whether the passwd line `line` belongs to the user whose uid is written
/// `uid_text`.
fn line_has_uid(line: &Vec<char>, uid_text: &Vec<char>) -> (r: bool)
    ensures
        r == (split(line@, ':').len() > 3 && split(line@, ':')[3] == uid_text@),
{
    let fields = split_fields(line, ':');
    proof {
        if fields@.len() > 3 {
            assert(views(fields@)[3] == fields@[3]@);
        }
    }
    fields_has_uid(&fields, uid_text)
}

fn decimal_u32(n: u32) -> (v: Vec<char>)
    ensures
        v@ == decimal(n as nat),
{
    let mut v: Vec<char> = Vec::new();
    push_decimal(&mut v, n as u64);
    proof { assert(Seq::<char>::empty() + decimal(n as nat) == decimal(n as nat)); }
    v
}

/// A filter over the lines of the passwd file that keeps the lines of the
/// user `uid`; a line that could not be read is never the user's.
pub fn passwd_line_filter(uid: u32) -> (f: impl Fn(&Result<String, std::io::Error>) -> bool)
    ensures
        forall|line: &Result<String, std::io::Error>| #[trigger] f.requires((line,)),
        forall|line: &Result<String, std::io::Error>, r: bool|
            f.ensures((line,), r) ==> r == (line is Ok && passwd_line_has_uid(line->Ok_0@, uid)),
{
    let uid_text = decimal_u32(uid);
    move |line: &Result<String, std::io::Error>| -> (r: bool)
        ensures
            r == (line is Ok && passwd_line_has_uid(line->Ok_0@, uid)),
    {
        match line {
            Ok(entry) => {
                let chars = chars_of(entry.as_str());
                line_has_uid(&chars, &uid_text)
            },
            Err(_) => false,
        }
    }
}

/// The login shell on a passwd line: its seventh `':'`-separated field,
/// trimmed. A line with fewer than seven fields is an `Unknown` error.
pub fn shell_from_passwd_line(passwd_line: &str) -> (r: Result<String, ToolboxError>)
    ensures
        shell_result_is(r, passwd_shell(passwd_line@)),
{
    let chars = chars_of(passwd_line);
    let parts = split_fields(&chars, ':');
    if parts.len() < 7 {
        let msg = concat(owned("Could not parse user line from passwd line "), passwd_line);
        return Err(ToolboxError::Unknown(msg));
    }
    proof { assert(views(parts@)[6] == parts@[6]@); }
    let field = string_of(&parts[6]);
    Ok(trim_str(field.as_str()))
}

/// The login shell of the user `uid` in the text of a passwd file: the shell
/// of the first line of that user, or an `Unknown` error when there is none.
pub fn user_shell_in(passwd: &str, uid: u32) -> (r: Result<String, ToolboxError>)
    ensures
        shell_result_is(r, passwd_user_shell(passwd@, uid)),
        r matches Ok(sh) ==> exists|i: int|
            0 <= i < lines(passwd@).len() && #[trigger] split(lines(passwd@)[i], ':').len() > 6 && split(
                lines(passwd@)[i],
                ':',
            )[3] == decimal(uid as nat) && sh@ == trim(split(lines(passwd@)[i], ':')[6]),
{
    let chars = chars_of(passwd);
    let ls = lines_of(&chars);
    let uid_text = decimal_u32(uid);
    let ghost lv = views(ls@);
    let mut i: usize = 0;
    while i < ls.len()
        invariant
            i <= ls.len(),
            lv == views(ls@),
            lv == lines(passwd@),
            uid_text@ == decimal(uid as nat),
            forall|j: int| 0 <= j < i ==> !passwd_line_has_uid(#[trigger] lv[j], uid),
        decreases ls.len() - i,
    {
        proof { assert(lv[i as int] == ls@[i as int]@); }
        if line_has_uid(&ls[i], &uid_text) {
            proof {
                assert(is_first_line_of(lv, uid, i as int));
                let k: int = choose|k: int| is_first_line_of(lv, uid, k);
                if k < i {
                    assert(false);
                } else if k > i {
                    assert(!passwd_line_has_uid(lv[i as int], uid));
                }
            }
            let line = string_of(&ls[i]);
            return shell_from_passwd_line(line.as_str());
        }
        i += 1;
    }
    proof {
        assert(!exists|k: int| is_first_line_of(lv, uid, k));
    }
    let msg = concat(concat(owned("User "), u32_to_string(uid).as_str()), " not found in passwd file");
    Err(ToolboxError::Unknown(msg))
}

/// The path `/proc/<pid><suffix>`, with `pid` in decimal.
pub open spec fn proc_file_path(pid: i32, suffix: Seq<char>) -> Seq<char> {
    "/proc/"@ + signed_decimal(pid as int) + suffix
}

/// `/proc/<pid>/stat`, the file that `process_status` and `process_owner` read.
pub fn process_stat_path(pid: i32) -> (r: String)
    ensures
        r@ == proc_file_path(pid, "/stat"@),
{
    concat(concat(owned("/proc/"), i32_to_string(pid).as_str()), "/stat")
}

/// `/proc/<pid>/cmdline`, the file that `process_cmdline` reads.
pub fn process_cmdline_path(pid: i32) -> (r: String)
    ensures
        r@ == proc_file_path(pid, "/cmdline"@),
{
    concat(concat(owned("/proc/"), i32_to_string(pid).as_str()), "/cmdline")
}

/// The home directory when one is known, `/` otherwise.
pub fn home_directory_or_root(home: Option<String>) -> (r: String)
    ensures
        home matches Some(h) ==> r@ == h@,
        home is None ==> r@ == "/"@,
{
    match home {
        Some(h) => h,
        None => owned("/"),
    }
}


/// A passwd line belongs to one user at most: two uids whose lines are the
/// same line are the same uid (a field `1` is not the line of uid `1000`).
pub proof fn lemma_passwd_line_has_one_uid(line: Seq<char>, a: u32, b: u32)
    requires
        passwd_line_has_uid(line, a),
        passwd_line_has_uid(line, b),
    ensures
        a == b,
{
    lemma_decimal_injective(a as nat, b as nat);
}

/// The shell found for a user comes from the first line of that user: its
/// fourth field is the user's uid in decimal, no earlier line's is, and the
/// shell is its seventh field, trimmed. With no line of the user the lookup
/// fails.
pub proof fn lemma_user_shell_from_own_line(passwd: Seq<char>, uid: u32)
    ensures
        passwd_user_shell(passwd, uid) matches Ok(sh) ==> exists|i: int|
            0 <= i < lines(passwd).len() && #[trigger] split(lines(passwd)[i], ':').len() > 6 && split(
                lines(passwd)[i],
                ':',
            )[3] == decimal(uid as nat) && sh == trim(split(lines(passwd)[i], ':')[6]) && forall|j: int|
                0 <= j < i ==> !(split(#[trigger] lines(passwd)[j], ':').len() > 3 && split(lines(passwd)[j], ':')[3]
                    == decimal(uid as nat)),
        (forall|j: int|
            0 <= j < lines(passwd).len() ==> !(split(#[trigger] lines(passwd)[j], ':').len() > 3 && split(
                lines(passwd)[j],
                ':',
            )[3] == decimal(uid as nat))) ==> passwd_user_shell(passwd, uid) is Err,
{
    let ls = lines(passwd);
    if passwd_user_shell(passwd, uid) is Ok {
        let i = choose|i: int| is_first_line_of(ls, uid, i);
        assert(split(ls[i], ':').len() > 6);
        assert forall|j: int| 0 <= j < i implies !(split(#[trigger] ls[j], ':').len() > 3 && split(ls[j], ':')[3]
            == decimal(uid as nat)) by {
            assert(!passwd_line_has_uid(ls[j], uid));
        }
    }
    if forall|j: int|
        0 <= j < ls.len() ==> !(split(#[trigger] ls[j], ':').len() > 3 && split(ls[j], ':')[3] == decimal(uid as nat)) {
        if exists|i: int| is_first_line_of(ls, uid, i) {
            let i = choose|i: int| is_first_line_of(ls, uid, i);
            assert(passwd_line_has_uid(ls[i], uid));
        }
    }
}

} // verus!
