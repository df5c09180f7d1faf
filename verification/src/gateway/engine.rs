//! The databases under a data directory: their names, files and connections.
use vstd::prelude::*;

use crate::error::{Result, SyncError};
use crate::proto::{DatabaseInfo, ExecuteResponse};
use crate::sort;
use crate::sort::Ranked;
use crate::text;

verus! {

/// The database manager of a data directory.
#[derive(Debug)]
pub struct DatabaseEngine {
    data_dir: String,
}

/// Whether a relative path stays below where it starts: it is not absolute, does
/// not begin at the current directory and never goes up.
pub open spec fn stays_below(path: Seq<char>) -> bool {
    let parts = text::pieces(path, '/');
    &&& path.len() > 0 && path[0] != '/'
    &&& parts[0] != "."@
    &&& forall|i: int| 0 <= i < parts.len() ==> #[trigger] parts[i] != ".."@
}

/// A path below a directory.
pub open spec fn joined(dir: Seq<char>, path: Seq<char>) -> Seq<char> {
    if dir.len() == 0 || dir.last() == '/' {
        dir + path
    } else {
        dir + seq!['/'] + path
    }
}

/// What speaks against a database name.
pub open spec fn name_refusal(name: Seq<char>) -> Option<Seq<char>> {
    let t = text::trimmed(name);
    if t.len() == 0 {
        Some("database name cannot be empty"@)
    } else if !stays_below(t) {
        Some("invalid database name '"@ + t + "': path traversal not permitted"@)
    } else {
        None
    }
}

fn stay_below(path: &str) -> (r: bool)
    requires
        path@.len() > 0,
    ensures
        r == stays_below(path@),
{
    let v: Vec<char> = text::chars_of(path);
    if v[0] == '/' {
        return false;
    }
    let parts: Vec<String> = text::split_all(path, '/');
    proof {
        reveal_strlit(".");
        reveal_strlit("..");
    }
    assert(text::views(parts@).len() == text::pieces(path@, '/').len());
    assert(text::pieces(path@, '/').len() > 0);
    assert(text::views(parts@)[0] == parts@[0]@);
    if parts[0] == ".".to_owned() {
        return false;
    }
    let up: String = "..".to_owned();
    let mut i: usize = 0;
    while i < parts.len()
        invariant
            i <= parts@.len(),
            up@ == ".."@,
            text::views(parts@) == text::pieces(path@, '/'),
            forall|j: int| 0 <= j < i ==> #[trigger] text::pieces(path@, '/')[j] != ".."@,
        decreases parts@.len() - i,
    {
        assert(text::views(parts@)[i as int] == parts@[i as int]@);
        if parts[i] == up {
            return false;
        }
        i = i + 1;
    }
    true
}

/// The files of the database at `path`: itself, and what SQLite may have put beside
/// it.
pub open spec fn files_of(path: Seq<char>) -> Seq<Seq<char>> {
    seq![path, path + "-wal"@, path + "-shm"@, path + "-journal"@]
}

impl DatabaseEngine {
    /// The data directory.
    pub closed spec fn root(self) -> Seq<char> {
        self.data_dir@
    }

    /// The database manager of a data directory.
    pub fn new(data_dir: &str) -> (r: DatabaseEngine)
        ensures
            r.root() == data_dir@,
    {
        DatabaseEngine { data_dir: data_dir.to_owned() }
    }

    /// The data directory.
    pub fn data_dir(&self) -> (r: &str)
        ensures
            r@ == self.root(),
    {
        self.data_dir.as_str()
    }

    /// The file of a database, with a name that is valid.
    pub fn resolve_db_path(&self, db_name: &str) -> (r: Result<String>)
        ensures
            match r {
                Ok(path) => name_refusal(db_name@) is None && path@ == joined(
                    self.root(),
                    text::trimmed(db_name@),
                ),
                Err(e) => name_refusal(db_name@) is Some && e.is_protocol(
                    name_refusal(db_name@)->0,
                ),
            },
    {
        let trimmed: String = text::trim(db_name);
        if trimmed.as_str().is_empty() {
            return Err(SyncError::protocol("database name cannot be empty"));
        }
        if !stay_below(trimmed.as_str()) {
            let mut m: String = "invalid database name '".to_owned();
            m.append(trimmed.as_str());
            m.append("': path traversal not permitted");
            return Err(SyncError::Protocol(m));
        }
        let mut path: String = self.data_dir.clone();
        let v: Vec<char> = text::chars_of(self.data_dir.as_str());
        if v.len() > 0 && v[v.len() - 1] != '/' {
            path.push('/');
            assert(path@ == self.root() + seq!['/']);
        }
        path.append(trimmed.as_str());
        Ok(path)
    }

    /// The name under which writers of a database exclude each other.
    pub fn lock_key(&self, db_name: &str) -> (r: String)
        ensures
            r@ == text::trimmed(db_name@),
    {
        text::trim(db_name)
    }

    /// The files of a database: itself, and what SQLite may have put beside it.
    pub fn database_files(&self, db_name: &str) -> (r: Result<Vec<String>>)
        ensures
            match r {
                Ok(files) => {
                    let path = joined(self.root(), text::trimmed(db_name@));
                    &&& name_refusal(db_name@) is None
                    &&& text::views(files@) == seq![
                        path,
                        path + "-wal"@,
                        path + "-shm"@,
                        path + "-journal"@,
                    ]
                    &&& text::views(files@) == files_of(path)
                },
                Err(e) => name_refusal(db_name@) is Some && e.is_protocol(
                    name_refusal(db_name@)->0,
                ),
            },
    {
        let path: String = match self.resolve_db_path(db_name) {
            Err(e) => {
                return Err(e);
            },
            Ok(path) => path,
        };
        let mut wal: String = path.clone();
        wal.append("-wal");
        let mut shm: String = path.clone();
        shm.append("-shm");
        let mut journal: String = path.clone();
        journal.append("-journal");
        let mut files: Vec<String> = Vec::new();
        files.push(path);
        files.push(wal);
        files.push(shm);
        files.push(journal);
        assert(text::views(files@) =~= seq![path@, wal@, shm@, journal@]);
        Ok(files)
    }
}

/// Two names share a lock exactly if they give the same path, and are then
/// accepted or refused alike.
pub proof fn law_one_lock_per_path(dir: Seq<char>, a: Seq<char>, b: Seq<char>)
    ensures
        joined(dir, text::trimmed(a)) == joined(dir, text::trimmed(b)) <==> text::trimmed(a)
            == text::trimmed(b),
        text::trimmed(a) == text::trimmed(b) ==> name_refusal(a) == name_refusal(b),
{
    let x = text::trimmed(a);
    let y = text::trimmed(b);
    let head = if dir.len() == 0 || dir.last() == '/' {
        dir
    } else {
        dir + seq!['/']
    };
    assert(joined(dir, x) == head + x);
    assert(joined(dir, y) == head + y);
    assert((head + x).skip(head.len() as int) == x);
    assert((head + y).skip(head.len() as int) == y);
}

/// The statements that set up a connection.
pub open spec fn setup_texts(read_only: bool) -> Seq<Seq<char>> {
    if read_only {
        Seq::empty()
    } else {
        seq![
            "PRAGMA journal_mode=WAL;"@,
            "PRAGMA synchronous=NORMAL;"@,
            "PRAGMA busy_timeout=5000;"@,
        ]
    }
}

/// The statements that set up a connection: write-ahead logging and sane
/// defaults for concurrent access, where it can write.
pub fn setup_statements(read_only: bool) -> (r: Vec<String>)
    ensures
        text::views(r@) == setup_texts(read_only),
{
    let mut out: Vec<String> = Vec::new();
    if !read_only {
        out.push("PRAGMA journal_mode=WAL;".to_owned());
        out.push("PRAGMA synchronous=NORMAL;".to_owned());
        out.push("PRAGMA busy_timeout=5000;".to_owned());
    }
    assert(text::views(out@) =~= setup_texts(read_only));
    out
}

/// The response to a write.
pub fn execute_response(
    rows_affected: u64,
    last_insert_rowid: i64,
    execution_time_us: u64,
    generation: u64,
) -> (r: ExecuteResponse)
    ensures
        r == (ExecuteResponse { rows_affected, last_insert_rowid, execution_time_us, generation }),
{
    ExecuteResponse { rows_affected, last_insert_rowid, execution_time_us, generation }
}

// ---------------------------------------------------------------------------
// Listing
// ---------------------------------------------------------------------------

/// Whether a file of the data directory belongs to another one.
pub open spec fn is_sidecar_name(file_name: Seq<char>) -> bool {
    "-wal"@.is_suffix_of(file_name) || "-shm"@.is_suffix_of(file_name) || "-journal"@.is_suffix_of(
        file_name,
    )
}

/// Whether a file of the data directory belongs to another one.
pub fn is_sidecar(file_name: &str) -> (r: bool)
    ensures
        r == is_sidecar_name(file_name@),
{
    text::ends_with(file_name, "-wal") || text::ends_with(file_name, "-shm") || text::ends_with(
        file_name,
        "-journal",
    )
}

/// The entry of a database in a listing.
pub fn database_info(name: String, page_size: u32, page_count: u32, file_size_bytes: u64) -> (r:
    DatabaseInfo)
    ensures
        r.name == name,
        r.page_size == page_size,
        r.page_count == page_count,
        r.file_size_bytes == file_size_bytes,
        r.journal_mode@ == "wal"@,
{
    DatabaseInfo {
        name,
        page_size,
        page_count,
        file_size_bytes,
        journal_mode: "wal".to_owned(),
    }
}

/// Whether `a` comes before `b` character by character, a text before its
/// extensions.
pub open spec fn text_less(a: Seq<char>, b: Seq<char>) -> bool
    decreases a.len(),
{
    if b.len() == 0 {
        false
    } else if a.len() == 0 {
        true
    } else if a[0] != b[0] {
        a[0] < b[0]
    } else {
        text_less(a.skip(1), b.skip(1))
    }
}

proof fn lemma_text_less_trans(a: Seq<char>, b: Seq<char>, c: Seq<char>)
    requires
        !text_less(b, a),
        !text_less(c, b),
    ensures
        !text_less(c, a),
    decreases a.len(),
{
    if a.len() > 0 && b.len() > 0 && c.len() > 0 {
        if a[0] == b[0] && b[0] == c[0] {
            lemma_text_less_trans(a.skip(1), b.skip(1), c.skip(1));
        }
    }
}

proof fn lemma_text_less_asymmetric(a: Seq<char>, b: Seq<char>)
    requires
        text_less(a, b),
    ensures
        !text_less(b, a),
    decreases a.len(),
{
    if a.len() > 0 && b.len() > 0 && a[0] == b[0] {
        lemma_text_less_asymmetric(a.skip(1), b.skip(1));
    }
}

fn less(a: &str, b: &str) -> (r: bool)
    ensures
        r == text_less(a@, b@),
{
    let v: Vec<char> = text::chars_of(a);
    let w: Vec<char> = text::chars_of(b);
    let mut i: usize = 0;
    assert(v@.skip(0) == v@);
    assert(w@.skip(0) == w@);
    while i < v.len() && i < w.len()
        invariant
            i <= v@.len(),
            i <= w@.len(),
            v@ == a@,
            w@ == b@,
            text_less(v@, w@) == text_less(v@.skip(i as int), w@.skip(i as int)),
        decreases v@.len() - i,
    {
        if v[i] != w[i] {
            return v[i] < w[i];
        }
        assert(v@.skip(i as int).skip(1) == v@.skip(i + 1));
        assert(w@.skip(i as int).skip(1) == w@.skip(i + 1));
        i = i + 1;
    }
    i < w.len()
}

impl Ranked for DatabaseInfo {
    type Key = Seq<char>;

    open spec fn key(&self) -> Seq<char> {
        self.name@
    }

    open spec fn precedes(a: Seq<char>, b: Seq<char>) -> bool {
        text_less(a, b)
    }

    proof fn order(a: Seq<char>, b: Seq<char>, c: Seq<char>) {
        if text_less(a, b) {
            lemma_text_less_asymmetric(a, b);
        }
        if !text_less(b, a) && !text_less(c, b) {
            lemma_text_less_trans(a, b, c);
        }
    }

    fn goes_before(&self, other: &DatabaseInfo) -> (r: bool) {
        less(self.name.as_str(), other.name.as_str())
    }
}

/// Databases in the order of their names.
pub open spec fn in_name_order(list: Seq<DatabaseInfo>) -> bool {
    sort::in_order(list)
}

/// The databases of a listing with this name, in the order in which they came.
pub open spec fn named(list: Seq<DatabaseInfo>, name: Seq<char>) -> Seq<DatabaseInfo> {
    sort::with_key(list, name)
}

/// The databases of a listing in the order of their names.
pub fn sort_databases(list: Vec<DatabaseInfo>) -> (r: Vec<DatabaseInfo>)
    ensures
        in_name_order(r@),
        r@.len() == list@.len(),
        forall|name: Seq<char>| #[trigger] named(r@, name) == named(list@, name),
{
    let r: Vec<DatabaseInfo> = sort::sort_stably(list);
    assert forall|name: Seq<char>| #[trigger] named(r@, name) == named(list@, name) by {
        assert(sort::with_key(r@, name) == sort::with_key(list@, name));
    }
    r
}

/// A path stays below where it starts exactly if it is made of parts with a slash
/// between any two of which the first is neither empty nor the current directory, and
/// none is the directory above.
pub proof fn law_paths_that_stay_below(parts: Seq<Seq<char>>)
    requires
        parts.len() > 0,
        forall|k: int| 0 <= k < parts.len() ==> !(#[trigger] parts[k]).contains('/'),
    ensures
        stays_below(text::joined_with(parts, '/')) <==> {
            &&& parts[0].len() > 0
            &&& parts[0] != "."@
            &&& forall|k: int| 0 <= k < parts.len() ==> (#[trigger] parts[k]) != ".."@
        },
{
    let path = text::joined_with(parts, '/');
    text::law_joined_text_splits_again(parts, '/');
    if parts[0].len() > 0 {
        assert(path[0] == parts[0][0]);
        assert(!parts[0].contains('/'));
    } else if parts.len() > 1 {
        assert(path[0] == '/');
    }
}

/// A name is refused exactly if nothing is left of it without the white space around
/// it, or if what is left does not stay below the data directory.
pub proof fn law_names_are_refused_outside_the_directory(
    pre: Seq<char>,
    name: Seq<char>,
    post: Seq<char>,
)
    requires
        text::all_spaces(pre),
        text::all_spaces(post),
        name.len() > 0 ==> !text::is_space(name[0]) && !text::is_space(name.last()),
    ensures
        name_refusal(pre + name + post) is None <==> name.len() > 0 && stays_below(name),
        name.len() == 0 ==> name_refusal(pre + name + post) == Some(
            "database name cannot be empty"@,
        ),
{
    text::law_trimming_takes_the_surrounding_space(pre, name, post);
}

/// A file name without a slash is a database name, but for the two directory names.
pub proof fn law_plain_names_are_accepted(name: Seq<char>)
    requires
        name.len() > 0,
        !text::is_space(name[0]),
        !text::is_space(name.last()),
        !name.contains('/'),
    ensures
        name_refusal(name) is None <==> name != "."@ && name != ".."@,
{
    law_paths_that_stay_below(seq![name]);
    assert(text::joined_with(seq![name], '/') == name);
    text::lemma_trimmed_fixpoint(name);
    assert(seq![name][0] == name);
}

/// A path below a directory is the directory, one slash, and the path.
pub proof fn law_joined_path_has_one_slash(dir: Seq<char>, path: Seq<char>)
    ensures
        dir.len() > 0 && dir.last() != '/' ==> joined(dir, path) == dir + seq!['/'] + path
            && joined(dir + seq!['/'], path) == dir + seq!['/'] + path,
        joined(Seq::empty(), path) == path,
        dir.is_prefix_of(joined(dir, path)),
        path.is_suffix_of(joined(dir, path)),
{
    assert((dir + seq!['/']).last() == '/');
    assert(Seq::<char>::empty() + path =~= path);
    let all = joined(dir, path);
    assert(all.skip(all.len() - path.len()) =~= path);
    assert(path.is_suffix_of(all));
    assert(dir.is_prefix_of(all));
}

/// What SQLite puts beside a database is not listed; a file without a hyphen is.
pub proof fn law_sidecars_are_told_by_their_ending(base: Seq<char>)
    ensures
        is_sidecar_name(base + "-wal"@),
        is_sidecar_name(base + "-shm"@),
        is_sidecar_name(base + "-journal"@),
        !base.contains('-') ==> !is_sidecar_name(base),
        !is_sidecar_name(base + ".db"@),
{
    reveal_strlit("-wal");
    reveal_strlit("-shm");
    reveal_strlit("-journal");
    reveal_strlit(".db");
    let w = base + "-wal"@;
    let s = base + "-shm"@;
    let j = base + "-journal"@;
    assert(w.skip(base.len() as int) =~= "-wal"@);
    assert(s.skip(base.len() as int) =~= "-shm"@);
    assert(j.skip(base.len() as int) =~= "-journal"@);
    assert("-wal"@.is_suffix_of(w));
    assert("-shm"@.is_suffix_of(s));
    assert("-journal"@.is_suffix_of(j));
    if !base.contains('-') {
        if "-wal"@.is_suffix_of(base) {
            assert(base[base.len() - 4] == "-wal"@[0]);
        }
        if "-shm"@.is_suffix_of(base) {
            assert(base[base.len() - 4] == "-shm"@[0]);
        }
        if "-journal"@.is_suffix_of(base) {
            assert(base[base.len() - 8] == "-journal"@[0]);
        }
    }
    let d = base + ".db"@;
    assert(d.last() == 'b');
    assert("-wal"@.last() == 'l' && "-shm"@.last() == 'm' && "-journal"@.last() == 'l');
    if "-wal"@.is_suffix_of(d) {
        assert(d[d.len() - 1] == "-wal"@[3]);
    }
    if "-shm"@.is_suffix_of(d) {
        assert(d[d.len() - 1] == "-shm"@[3]);
    }
    if "-journal"@.is_suffix_of(d) {
        assert(d[d.len() - 1] == "-journal"@[7]);
    }
}

/// Texts are ordered by the first character in which they differ, and a text comes
/// before its extensions.
pub proof fn law_texts_are_ordered_by_their_first_difference(
    p: Seq<char>,
    x: char,
    y: char,
    s: Seq<char>,
    t: Seq<char>,
)
    ensures
        x != y ==> (text_less(p + seq![x] + s, p + seq![y] + t) <==> x < y),
        text_less(p, p + seq![x] + s),
        !text_less(p + seq![x] + s, p),
        !text_less(p, p),
    decreases p.len(),
{
    let a = p + seq![x] + s;
    let b = p + seq![y] + t;
    if p.len() > 0 {
        let q = p.skip(1);
        law_texts_are_ordered_by_their_first_difference(q, x, y, s, t);
        assert(a[0] == p[0] && b[0] == p[0]);
        assert(a.skip(1) =~= q + seq![x] + s);
        assert(b.skip(1) =~= q + seq![y] + t);
    } else {
        assert(a[0] == x && b[0] == y);
    }
}

/// A connection that can write logs ahead and waits for a lock; one that only reads
/// is left as it is.
pub proof fn law_writing_connections_are_set_up()
    ensures
        setup_texts(true).len() == 0,
        setup_texts(false).contains("PRAGMA journal_mode=WAL;"@),
        setup_texts(false).contains("PRAGMA synchronous=NORMAL;"@),
        setup_texts(false).contains("PRAGMA busy_timeout=5000;"@),
        setup_texts(false).len() == 3,
{
    assert(setup_texts(false)[0] == "PRAGMA journal_mode=WAL;"@);
    assert(setup_texts(false)[1] == "PRAGMA synchronous=NORMAL;"@);
    assert(setup_texts(false)[2] == "PRAGMA busy_timeout=5000;"@);
}

proof fn lemma_text_less_total(a: Seq<char>, b: Seq<char>)
    ensures
        a == b || text_less(a, b) || text_less(b, a),
    decreases a.len(),
{
    if a.len() > 0 && b.len() > 0 && a[0] == b[0] {
        lemma_text_less_total(a.skip(1), b.skip(1));
        if a.skip(1) == b.skip(1) {
            assert(a =~= seq![a[0]] + a.skip(1));
            assert(b =~= seq![b[0]] + b.skip(1));
        }
    } else if a.len() == 0 && b.len() == 0 {
        assert(a =~= b);
    }
}

/// In a listing every name comes before the other names behind it.
pub proof fn law_listing_is_in_the_order_of_names(list: Seq<DatabaseInfo>, i: int, j: int)
    requires
        in_name_order(list),
        0 <= i < j < list.len(),
        list[i].name@ != list[j].name@,
    ensures
        text_less(list[i].name@, list[j].name@),
{
    sort::law_sorted_items_stand_in_order(list, i, j);
    lemma_text_less_total(list[i].name@, list[j].name@);
}

/// The databases with a name are those of the listing that have it.
pub proof fn law_named_databases_have_the_name(list: Seq<DatabaseInfo>, name: Seq<char>)
    ensures
        named(list, name) == list.filter(|d: DatabaseInfo| d.name@ == name),
    decreases list.len(),
{
    reveal(Seq::filter);
    if list.len() > 0 {
        law_named_databases_have_the_name(list.drop_last(), name);
    }
}

/// The files of a database are its own and the sidecars of its name, all different.
pub proof fn law_files_are_the_database_and_its_sidecars(path: Seq<char>)
    ensures
        files_of(path).len() == 4,
        files_of(path)[0] == path,
        forall|i: int|
            1 <= i < 4 ==> is_sidecar_name(#[trigger] files_of(path)[i]) && path.is_prefix_of(
                files_of(path)[i],
            ),
        files_of(path).contains(path + "-wal"@),
        files_of(path).contains(path + "-shm"@),
        files_of(path).contains(path + "-journal"@),
        files_of(path).no_duplicates(),
{
    reveal_strlit("-wal");
    reveal_strlit("-shm");
    reveal_strlit("-journal");
    law_sidecars_are_told_by_their_ending(path);
    let all = files_of(path);
    let n = path.len() as int;
    assert(all[1] == path + "-wal"@ && all[2] == path + "-shm"@ && all[3] == path + "-journal"@);
    assert(all[1][n + 1] == 'w' && all[2][n + 1] == 's');
    assert(all[1].len() == n + 4 && all[2].len() == n + 4 && all[3].len() == n + 8);
    assert(path.is_prefix_of(all[1]) && path.is_prefix_of(all[2]) && path.is_prefix_of(all[3]));
}

} // verus!
