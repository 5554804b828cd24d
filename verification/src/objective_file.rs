//! Objectives too long for their row.
//!
//! Such an objective is kept in a file named after its thread, and the row
//! holds a marker that names the file.

use crate::text;
use crate::types::MAX_OBJECTIVE_LEN;
use vstd::prelude::*;
use vstd::string::*;

verus! {

/// The most characters that an objective may have in its row.
pub const OBJECTIVE_INLINE_LIMIT_CHARS: usize = 4000;

/// The most characters that an objective may have in a file.
pub const MAX_FILE_OBJECTIVE_CHARS: usize = 1_000_000;

/// What a marker begins with.
pub const INLINE_MARKER_PREFIX: &'static str = "@file:";

/// Whether an objective has to be kept in a file.
pub open spec fn too_long_for_row(objective: Seq<char>) -> bool {
    objective.len() > OBJECTIVE_INLINE_LIMIT_CHARS || text::byte_len(objective) > MAX_OBJECTIVE_LEN
}

/// `c` if it may stand in a file name, an underscore otherwise.
pub open spec fn safe_char(c: char) -> char {
    if 'a' <= c <= 'z' || 'A' <= c <= 'Z' || '0' <= c <= '9' || c == '-' || c == '_' || c == '.' {
        c
    } else {
        '_'
    }
}

/// The name of the file for a thread.
pub open spec fn file_name(thread_id: Seq<char>) -> Seq<char> {
    thread_id.map_values(|c: char| safe_char(c)) + ".md"@
}

/// The marker for a thread's file.
pub open spec fn marker(thread_id: Seq<char>) -> Seq<char> {
    "@file:"@ + file_name(thread_id)
}

/// Whether an objective is a marker.
pub open spec fn is_marker(objective: Seq<char>) -> bool {
    "@file:"@.is_prefix_of(objective)
}

/// The file that a marker names.
pub open spec fn marked_file(objective: Seq<char>) -> Seq<char> {
    objective.skip("@file:"@.len() as int)
}

/// Whether an objective has more characters than a row takes.
pub fn objective_exceeds_limit(objective: &str) -> (r: bool)
    ensures
        r == (objective@.len() > OBJECTIVE_INLINE_LIMIT_CHARS),
{
    objective.unicode_len() > OBJECTIVE_INLINE_LIMIT_CHARS
}

/// Whether an objective has to be kept in a file: too many characters, or too
/// many bytes.
pub fn needs_file_backing(objective: &str) -> (r: bool)
    ensures
        r == too_long_for_row(objective@),
{
    objective_exceeds_limit(objective) || text::bytes_in(objective) > MAX_OBJECTIVE_LEN
}

/// The name of the file for a thread: its id, with every character that is not
/// a letter, a digit, `-`, `_` or `.` replaced by an underscore.
pub fn file_name_for(thread_id: &str) -> (r: String)
    ensures
        r@ == file_name(thread_id@),
{
    let mut r: String = String::new();
    for c in it: thread_id.chars()
        invariant
            r@ == thread_id@.take(it.index() as int).map_values(|c: char| safe_char(c)),
            it.seq() == thread_id@,
    {
        let ghost before = thread_id@.take(it.index() as int);
        assert(thread_id@.take(it.index() as int + 1) == before.push(c));
        assert(before.push(c).map_values(|c: char| safe_char(c)) == before.map_values(
            |c: char| safe_char(c),
        ).push(safe_char(c)));
        if ('a' <= c && c <= 'z') || ('A' <= c && c <= 'Z') || ('0' <= c && c <= '9') || c == '-' || c
            == '_' || c == '.' {
            r.push(c);
        } else {
            r.push('_');
        }
    }
    assert(thread_id@.take(thread_id@.len() as int) == thread_id@);
    r.append(".md");
    r
}

/// The marker for a thread's file.
pub fn marker_for(thread_id: &str) -> (r: String)
    ensures
        r@ == marker(thread_id@),
{
    let mut r: String = INLINE_MARKER_PREFIX.to_owned();
    r.append(file_name_for(thread_id).as_str());
    r
}

/// Whether an objective is a marker.
pub fn is_file_backed(objective: &str) -> (r: bool)
    ensures
        r == is_marker(objective@),
{
    text::starts_with(objective, INLINE_MARKER_PREFIX)
}

/// The file that a marker names; `None` for any other text.
pub fn marker_file_name(objective: &str) -> (r: Option<&str>)
    ensures
        match r {
            Some(name) => is_marker(objective@) && name@ == marked_file(objective@),
            None => !is_marker(objective@),
        },
{
    text::strip_prefix(objective, INLINE_MARKER_PREFIX)
}

/// A thread's marker is a marker, and names the thread's file.
pub proof fn law_marker_names_file(thread_id: Seq<char>)
    ensures
        is_marker(marker(thread_id)),
        marked_file(marker(thread_id)) == file_name(thread_id),
{
    assert(marker(thread_id).subrange(0, "@file:"@.len() as int) == "@file:"@);
    assert(marked_file(marker(thread_id)) =~= file_name(thread_id));
}

/// A file name holds no character that separates directories: only letters,
/// digits, `-`, `_` and `.`, so every file lies directly in its directory.
pub proof fn law_file_name_is_flat(thread_id: Seq<char>)
    ensures
        forall|i: int|
            0 <= i < file_name(thread_id).len() ==> safe_char(#[trigger] file_name(thread_id)[i])
                == file_name(thread_id)[i],
        file_name(thread_id).len() == thread_id.len() + 3,
{
    reveal_strlit(".md");
}

/// The path of `name` below a directory.
pub open spec fn joined(dir: Seq<char>, name: Seq<char>) -> Seq<char> {
    if dir.len() == 0 || dir.last() == '/' {
        dir + name
    } else {
        dir + "/"@ + name
    }
}

/// The path of a thread's file: its name below the directory.
pub open spec fn path_text(dir: Seq<char>, thread_id: Seq<char>) -> Seq<char> {
    joined(dir, file_name(thread_id))
}

/// The path of a thread's file: its name below the directory.
pub fn file_path(dir: &str, thread_id: &str) -> (r: String)
    ensures
        r@ == path_text(dir@, thread_id@),
{
    let mut r: String = dir.to_owned();
    let n: usize = dir.unicode_len();
    if n > 0 && dir.get_char(n - 1) != '/' {
        r.append("/");
    }
    let name: String = file_name_for(thread_id);
    r.append(name.as_str());
    r
}

/// How many characters of a path stand for the root, or for the directory that one
/// is in: a leading `/`, or a leading `.` that is a part of its own.
pub open spec fn start_of(path: Seq<char>) -> nat {
    if path.len() > 0 && (path[0] == '/' || path[0] == '.' && (path.len() == 1 || path[1] == '/')) {
        1
    } else {
        0
    }
}

/// Where the last part of a path begins whose parts begin at `start`: behind the
/// last `/`.
pub open spec fn part_start(path: Seq<char>, start: nat) -> int
    decreases path.len(),
{
    if path.len() <= start || path.last() == '/' {
        path.len() as int
    } else {
        part_start(path.drop_last(), start)
    }
}

/// The last part of a path.
pub open spec fn last_part(path: Seq<char>, start: nat) -> Seq<char> {
    path.skip(part_start(path, start))
}

/// A path without its last part and the `/` before it.
pub open spec fn without_last(path: Seq<char>, start: nat) -> Seq<char> {
    let i = part_start(path, start);
    path.take(
        if i > start {
            i - 1
        } else {
            i
        },
    )
}

/// A path without the parts at its end that mean nothing: empty ones and `.`.
pub open spec fn tidy(path: Seq<char>, start: nat) -> Seq<char>
    decreases path.len(),
    via tidy_ends
{
    if path.len() > start && (last_part(path, start).len() == 0 || last_part(path, start) == "."@) {
        tidy(without_last(path, start), start)
    } else {
        path
    }
}

#[via_fn]
proof fn tidy_ends(path: Seq<char>, start: nat) {
    if path.len() > start {
        lemma_part_start(path, start);
    }
}

/// The last part lies in the path.
proof fn lemma_part_start(path: Seq<char>, start: nat)
    requires
        start < path.len(),
    ensures
        start <= part_start(path, start) <= path.len(),
    decreases path.len(),
{
    if path.last() != '/' {
        if path.len() - 1 > start {
            lemma_part_start(path.drop_last(), start);
        } else {
            assert(part_start(path.drop_last(), start) == path.len() - 1);
        }
    }
}

/// Where the objective files go for a database in a directory named `tasks`: to
/// `goals` beside that directory. For a database anywhere else there is no place.
/// Paths are read part by part: several `/` are one, and `.` is no part but at the
/// beginning.
pub open spec fn goals_dir_of(db_path: Seq<char>) -> Option<Seq<char>> {
    let start = start_of(db_path);
    let file = tidy(db_path, start);
    let dir = tidy(without_last(file, start), start);
    if file.len() > start && dir.len() > start && last_part(dir, start) == "tasks"@ {
        Some(joined(tidy(without_last(dir, start), start), "goals"@))
    } else {
        None
    }
}

/// Where the last part begins of the path in the first `n` characters.
fn part_start_in(v: &Vec<char>, n: usize, start: usize) -> (r: usize)
    requires
        start <= n <= v@.len(),
    ensures
        r == part_start(v@.take(n as int), start as nat),
        start <= r <= n,
{
    let mut r: usize = n;
    while r > start && v[r - 1] != '/'
        invariant
            start <= r <= n <= v@.len(),
            part_start(v@.take(n as int), start as nat) == part_start(
                v@.take(r as int),
                start as nat,
            ),
        decreases r,
    {
        assert(v@.take(r as int).drop_last() =~= v@.take(r - 1));
        r -= 1;
    }
    r
}

/// How much of the path in the first `n` characters comes before its last part and
/// the `/` before it.
fn without_last_in(v: &Vec<char>, n: usize, start: usize) -> (r: usize)
    requires
        start <= n <= v@.len(),
    ensures
        v@.take(r as int) == without_last(v@.take(n as int), start as nat),
        start <= r <= n,
        n > start ==> r < n,
{
    let i: usize = part_start_in(v, n, start);
    let r: usize = if i > start {
        i - 1
    } else {
        i
    };
    assert(v@.take(r as int) =~= without_last(v@.take(n as int), start as nat));
    r
}

/// Whether the last part of the path in the first `n` characters is `name`.
fn ends_in_part(v: &Vec<char>, n: usize, start: usize, name: &str) -> (r: bool)
    requires
        start <= n <= v@.len(),
    ensures
        r == (last_part(v@.take(n as int), start as nat) == name@),
{
    let i: usize = part_start_in(v, n, start);
    let ghost part = last_part(v@.take(n as int), start as nat);
    assert(part =~= v@.subrange(i as int, n as int));
    if name.unicode_len() != n - i {
        return false;
    }
    let mut k: usize = 0;
    while k < n - i
        invariant
            i <= n <= v@.len(),
            part == v@.subrange(i as int, n as int),
            part == last_part(v@.take(n as int), start as nat),
            name@.len() == n - i,
            k <= n - i,
            forall|j: int| 0 <= j < k ==> part[j] == name@[j],
        decreases n - i - k,
    {
        if v[i + k] != name.get_char(k) {
            assert(part[k as int] != name@[k as int]);
            return false;
        }
        k += 1;
    }
    assert(part =~= name@);
    true
}

/// How much of the path in the first `n` characters is left when it is tidied.
fn tidy_in(v: &Vec<char>, n: usize, start: usize) -> (r: usize)
    requires
        start <= n <= v@.len(),
    ensures
        v@.take(r as int) == tidy(v@.take(n as int), start as nat),
        start <= r <= n,
{
    let mut r: usize = n;
    while r > start && (part_start_in(v, r, start) == r || ends_in_part(v, r, start, "."))
        invariant
            start <= r <= n <= v@.len(),
            tidy(v@.take(n as int), start as nat) == tidy(v@.take(r as int), start as nat),
        decreases r,
    {
        r = without_last_in(v, r, start);
    }
    r
}

/// Where the objective files go for the database at `db_path`.
pub fn goals_dir_for(db_path: &str) -> (r: Option<String>)
    ensures
        text::opt_text(r) == goals_dir_of(db_path@),
{
    let v: Vec<char> = text::chars_of(db_path);
    let n: usize = v.len();
    assert(v@.take(n as int) =~= db_path@);
    let start: usize = if n > 0 && (v[0] == '/' || v[0] == '.' && (n == 1 || v[1] == '/')) {
        1
    } else {
        0
    };
    let file: usize = tidy_in(&v, n, start);
    if file <= start {
        return None;
    }
    let dir: usize = tidy_in(&v, without_last_in(&v, file, start), start);
    if dir <= start || !ends_in_part(&v, dir, start, "tasks") {
        return None;
    }
    let home: usize = tidy_in(&v, without_last_in(&v, dir, start), start);
    let mut out: String = text::take_chars(db_path, home).to_owned();
    assert(out@ =~= db_path@.take(home as int));
    if home > 0 && v[home - 1] != '/' {
        out.append("/");
    }
    out.append("goals");
    Some(out)
}

/// For a database in the directory `tasks` of any directory, the objective files go
/// to `goals` in the same directory.
pub proof fn law_goals_lie_beside_tasks(home: Seq<char>, name: Seq<char>)
    requires
        tidy(home, start_of(home)) == home,
        name.len() > 0,
        !name.contains('/'),
        name != "."@,
    ensures
        goals_dir_of(joined(joined(home, "tasks"@), name)) == Some(joined(home, "goals"@)),
{
    reveal_strlit("tasks");
    reveal_strlit("/");
    reveal_strlit(".");
    let start = start_of(home);
    let dir = joined(home, "tasks"@);
    let file = joined(dir, name);
    assert(home.len() > 0 && home.last() == '/' ==> home.len() == start) by {
        if home.len() > start && home.last() == '/' {
            lemma_shorter(home, start);
            assert(last_part(home, start).len() == 0);
            assert(tidy(home, start) == tidy(without_last(home, start), start));
        }
    }
    assert(dir.last() == 's');
    assert(start_of(file) == start);
    lemma_joined(home, "tasks"@, start);
    lemma_joined(dir, name, start);
}

/// Tidying a path makes it no longer, and leaving out its last part makes it
/// shorter.
proof fn lemma_shorter(path: Seq<char>, start: nat)
    requires
        start < path.len(),
    ensures
        start <= without_last(path, start).len() < path.len(),
        tidy(without_last(path, start), start).len() < path.len(),
    decreases path.len(),
{
    lemma_part_start(path, start);
    let before = without_last(path, start);
    if before.len() > start {
        lemma_shorter(before, start);
    }
}

/// The last part of a joined path is what was joined.
proof fn lemma_joined(dir: Seq<char>, name: Seq<char>, start: nat)
    requires
        start <= dir.len(),
        dir.len() > 0 && dir.last() == '/' ==> dir.len() == start,
        name.len() > 0,
        !name.contains('/'),
    ensures
        last_part(joined(dir, name), start) == name,
        without_last(joined(dir, name), start) == dir,
        joined(dir, name).len() > start,
{
    reveal_strlit("/");
    let head = if dir.len() == 0 || dir.last() == '/' {
        dir
    } else {
        dir + "/"@
    };
    let path = joined(dir, name);
    assert(path =~= head + name);
    lemma_behind_slash(head, name, start);
    assert(last_part(path, start) =~= name);
    assert(without_last(path, start) =~= dir);
}

/// A text without a `/` is the last part behind one.
proof fn lemma_behind_slash(head: Seq<char>, name: Seq<char>, start: nat)
    requires
        start <= head.len(),
        head.len() == start || head.last() == '/',
        !name.contains('/'),
    ensures
        part_start(head + name, start) == head.len(),
    decreases name.len(),
{
    if name.len() == 0 {
        assert(head + name =~= head);
    } else {
        let fewer = name.drop_last();
        assert forall|i: int| 0 <= i < fewer.len() implies fewer[i] != '/' by {
            assert(fewer[i] == name[i]);
        }
        lemma_behind_slash(head, fewer, start);
        assert((head + name).drop_last() =~= head + fewer);
        assert((head + name).last() == name[name.len() - 1]);
    }
}

/// The name of a thread's file is its id, character by character, with an underscore for
/// each that is not a letter, a digit, `-`, `_` or `.`, and `.md` behind it.
pub proof fn law_file_name_by_character(thread_id: Seq<char>, i: int)
    requires
        0 <= i < thread_id.len(),
    ensures
        ({
            let c = thread_id[i];
            let plain = 'a' <= c <= 'z' || 'A' <= c <= 'Z' || '0' <= c <= '9' || c == '-' || c == '_'
                || c == '.';
            &&& plain ==> file_name(thread_id)[i] == c
            &&& !plain ==> file_name(thread_id)[i] == '_'
            &&& file_name(thread_id).skip(thread_id.len() as int) == ".md"@
        }),
{
    assert(file_name(thread_id).skip(thread_id.len() as int) =~= ".md"@);
}

/// An objective goes to a file when it has more than 4000 characters or more than 4000
/// bytes.
pub proof fn law_long_objectives(objective: Seq<char>)
    ensures
        too_long_for_row(objective) <==> objective.len() > 4000 || text::byte_len(objective) > 4000,
{
}

/// A marker is what begins with `@file:`, and names what stands behind that.
pub proof fn law_markers(name: Seq<char>, objective: Seq<char>)
    ensures
        is_marker("@file:"@ + name),
        marked_file("@file:"@ + name) == name,
        is_marker(objective) ==> objective.len() >= 6 && objective[0] == '@',
{
    reveal_strlit("@file:");
    assert(("@file:"@ + name).subrange(0, "@file:"@.len() as int) =~= "@file:"@);
    assert(marked_file("@file:"@ + name) =~= name);
    if is_marker(objective) {
        assert(objective.subrange(0, "@file:"@.len() as int)[0] == objective[0]);
    }
}

/// A path below a directory has one `/` between them, which a directory may bring along.
pub proof fn law_joining_paths(dir: Seq<char>, name: Seq<char>)
    ensures
        dir.len() == 0 ==> joined(dir, name) == name,
        dir.len() > 0 && dir.last() != '/' ==> joined(dir, name) == dir + "/"@ + name,
        joined(dir.push('/'), name) == dir.push('/') + name,
{
    if dir.len() == 0 {
        assert(dir + name =~= name);
    }
}

} // verus!
