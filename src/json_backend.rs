//! Naming of the files of the JSON file backend.
use vstd::prelude::*;
use crate::backend::{InstanceId, SnapshotId};
use crate::error::ErrorCode;

verus! {

/// The decimal digits.
pub open spec fn digit_chars() -> Seq<char> {
    seq!['0', '1', '2', '3', '4', '5', '6', '7', '8', '9']
}

/// The decimal text of `n`.
pub open spec fn decimal(n: nat) -> Seq<char>
    decreases n,
{
    if n < 10 {
        seq![digit_chars()[n as int]]
    } else {
        decimal(n / 10).push(digit_chars()[(n % 10) as int])
    }
}

/// `kvs_<instance>_<snapshot>.json`
pub open spec fn kvs_name(instance: nat, snapshot: nat) -> Seq<char> {
    "kvs_"@ + decimal(instance) + "_"@ + decimal(snapshot) + ".json"@
}

/// `kvs_<instance>_<snapshot>.hash`
pub open spec fn hash_name(instance: nat, snapshot: nat) -> Seq<char> {
    "kvs_"@ + decimal(instance) + "_"@ + decimal(snapshot) + ".hash"@
}

/// `kvs_<instance>_default.json`
pub open spec fn defaults_name(instance: nat) -> Seq<char> {
    "kvs_"@ + decimal(instance) + "_default.json"@
}

/// `name` inside directory `dir`: the name alone for an empty directory,
/// else joined with one `/`.
pub open spec fn join(dir: Seq<char>, name: Seq<char>) -> Seq<char> {
    if dir.len() == 0 {
        name
    } else if dir.last() == '/' {
        dir + name
    } else {
        dir + "/"@ + name
    }
}

/// Index of the last `c` in `s`, or -1.
pub open spec fn last_index_of(s: Seq<char>, c: char) -> int
    decreases s.len(),
{
    if s.len() == 0 {
        -1
    } else if s.last() == c {
        s.len() - 1
    } else {
        last_index_of(s.drop_last(), c)
    }
}

/// A path without its trailing separators and trailing `.` components,
/// which do not change the file name; a lone `/` stays.
pub open spec fn trim_tail(p: Seq<char>) -> Seq<char>
    decreases p.len(),
{
    if p.len() > 1 && (p.last() == '/' || (p.last() == '.' && p[p.len() - 2] == '/')) {
        trim_tail(p.drop_last())
    } else {
        p
    }
}

/// The file name of a path: the text after the last `/` of the path
/// without its trailing separators and `.` components.
pub open spec fn file_name_of(p: Seq<char>) -> Seq<char> {
    let t = trim_tail(p);
    t.subrange(last_index_of(t, '/') + 1, t.len() as int)
}

/// The extension of a path: the text after the last `.` of its file name,
/// where that `.` is not the first character; `.` and `..` have none.
pub open spec fn extension_of(p: Seq<char>) -> Option<Seq<char>> {
    let name = file_name_of(p);
    let d = last_index_of(name, '.');
    if d <= 0 || name == ".."@ {
        None
    } else {
        Some(name.subrange(d + 1, name.len() as int))
    }
}

proof fn lemma_last_index_of(s: Seq<char>, c: char)
    ensures
        -1 <= last_index_of(s, c) < s.len(),
        last_index_of(s, c) >= 0 ==> s[last_index_of(s, c)] == c,
        forall|i: int| last_index_of(s, c) < i < s.len() ==> s[i] != c,
    decreases s.len(),
{
    if s.len() > 0 {
        lemma_last_index_of(s.drop_last(), c);
        assert forall|i: int| last_index_of(s, c) < i < s.len() implies s[i] != c by {
            if i < s.len() - 1 {
                assert(s.drop_last()[i] == s[i]);
            }
        }
    }
}

fn digit_str(d: usize) -> (r: &'static str)
    requires
        d < 10,
    ensures
        r@ == seq![digit_chars()[d as int]],
{
    proof {
        reveal_strlit("0"); reveal_strlit("1"); reveal_strlit("2"); reveal_strlit("3"); reveal_strlit("4");
        reveal_strlit("5"); reveal_strlit("6"); reveal_strlit("7"); reveal_strlit("8"); reveal_strlit("9");
    }
    let r = match d {
        0 => "0",
        1 => "1",
        2 => "2",
        3 => "3",
        4 => "4",
        5 => "5",
        6 => "6",
        7 => "7",
        8 => "8",
        _ => "9",
    };
    assert(r@ =~= seq![digit_chars()[d as int]]);
    r
}

/// The decimal text of `n`.
pub fn decimal_string(n: usize) -> (r: String)
    ensures
        r@ == decimal(n as nat),
    decreases n,
{
    if n < 10 {
        digit_str(n).to_string()
    } else {
        let mut s = decimal_string(n / 10);
        s.append(digit_str(n % 10));
        proof {
            assert(s@ =~= decimal(n as nat));
        }
        s
    }
}

/// Index of the last `c` in `s`, if any.
fn find_last_char(s: &str, c: char) -> (r: Option<usize>)
    ensures
        match r {
            Some(i) => i == last_index_of(s@, c),
            None => last_index_of(s@, c) == -1,
        },
{
    let n = s.unicode_len();
    let mut i: usize = n;
    assert(s@.subrange(0, n as int) =~= s@);
    while i > 0
        invariant
            i <= s@.len(),
            n == s@.len(),
            last_index_of(s@, c) == last_index_of(s@.subrange(0, i as int), c),
        decreases i,
    {
        assert(s@.subrange(0, i as int).drop_last() =~= s@.subrange(0, i as int - 1));
        if s.get_char(i - 1) == c {
            return Some(i - 1);
        }
        i = i - 1;
    }
    assert(s@.subrange(0, 0) =~= Seq::<char>::empty());
    None
}

/// Check the paths of a data file and of its checksum file before they are
/// read or written: a data path without extension `json` fails with
/// `KvsFileReadError`, then a checksum path without extension `hash` with
/// `KvsHashFileReadError`.
pub fn check_paths(path: &str, hash_path: Option<&str>) -> (r: Result<(), ErrorCode>)
    ensures
        extension_of(path@) != Some("json"@) ==> r == Err::<(), ErrorCode>(ErrorCode::KvsFileReadError),
        extension_of(path@) == Some("json"@) ==> match hash_path {
            Some(h) => if extension_of(h@) == Some("hash"@) {
                r is Ok
            } else {
                r == Err::<(), ErrorCode>(ErrorCode::KvsHashFileReadError)
            },
            None => r is Ok,
        },
{
    if !JsonBackend::check_extension(path, "json") {
        return Err(ErrorCode::KvsFileReadError);
    }
    match hash_path {
        Some(h) => {
            if JsonBackend::check_extension(h, "hash") {
                Ok(())
            } else {
                Err(ErrorCode::KvsHashFileReadError)
            }
        },
        None => Ok(()),
    }
}

/// Names and paths of the files of one instance.
pub trait KvsPathResolver {
    /// The instance whose files are named.
    spec fn instance(&self) -> nat;

    /// The directory that holds them.
    spec fn dir(&self) -> Seq<char>;

    /// Get KVS file name.
    fn kvs_file_name(&self, snapshot_id: SnapshotId) -> (r: String)
        ensures
            r@ == kvs_name(self.instance(), snapshot_id.0 as nat);

    /// Get KVS file path in working directory.
    fn kvs_file_path(&self, snapshot_id: SnapshotId) -> (r: String)
        ensures
            r@ == join(self.dir(), kvs_name(self.instance(), snapshot_id.0 as nat));

    /// Get hash file name.
    fn hash_file_name(&self, snapshot_id: SnapshotId) -> (r: String)
        ensures
            r@ == hash_name(self.instance(), snapshot_id.0 as nat);

    /// Get hash file path in working directory.
    fn hash_file_path(&self, snapshot_id: SnapshotId) -> (r: String)
        ensures
            r@ == join(self.dir(), hash_name(self.instance(), snapshot_id.0 as nat));

    /// Get defaults file name.
    fn defaults_file_name(&self) -> (r: String)
        ensures
            r@ == defaults_name(self.instance());

    /// Get defaults file path in working directory.
    fn defaults_file_path(&self) -> (r: String)
        ensures
            r@ == join(self.dir(), defaults_name(self.instance()));
}

/// Where the JSON file backend keeps the files of one instance.
#[derive(Debug)]
pub struct JsonBackend {
    instance_id: InstanceId,
    working_dir: String,
}

impl JsonBackend {
    /// Whether `path` has extension `extension`.
    pub fn check_extension(path: &str, extension: &str) -> (r: bool)
        ensures
            r == (extension_of(path@) == Some(extension@)),
    {
        let len = path.unicode_len();
        let mut end: usize = len;
        assert(path@.subrange(0, len as int) =~= path@);
        while end > 1 && (path.get_char(end - 1) == '/' || (path.get_char(end - 1) == '.' && path.get_char(end - 2) == '/'))
            invariant
                end <= path@.len(),
                len == path@.len(),
                trim_tail(path@) == trim_tail(path@.subrange(0, end as int)),
            decreases end,
        {
            assert(path@.subrange(0, end as int).drop_last() =~= path@.subrange(0, end as int - 1));
            end = end - 1;
        }
        let trimmed = path.substring_char(0, end);
        assert(trim_tail(path@) == trimmed@);
        proof {
            lemma_last_index_of(trimmed@, '/');
        }
        let n = end;
        let start: usize = match find_last_char(trimmed, '/') {
            Some(i) => i + 1,
            None => 0,
        };
        let name = trimmed.substring_char(start, n);
        assert(name@ == file_name_of(path@));
        proof {
            lemma_last_index_of(name@, '.');
            reveal_strlit("..");
        }
        let m = name.unicode_len();
        match find_last_char(name, '.') {
            Some(d) => {
                if d == 0 {
                    return false;
                }
                if m == 2 && d == 1 && name.get_char(0) == '.' {
                    assert(name@ =~= ".."@);
                    return false;
                }
                assert(name@ != ".."@) by {
                    if name@ == ".."@ {
                        assert(name@[0] == '.');
                    }
                }
                let ext = name.substring_char(d + 1, m).to_string();
                let want = extension.to_string();
                ext == want
            },
            None => false,
        }
    }

    /// The backend of `instance_id` with its files under `working_dir`.
    pub fn new(instance_id: InstanceId, working_dir: &str) -> (r: Self)
        ensures
            r.instance() == instance_id.0,
            r.dir() == working_dir@,
    {
        JsonBackend { instance_id, working_dir: working_dir.to_string() }
    }

    /// The instance whose files this backend names.
    pub fn instance_id(&self) -> (r: InstanceId)
        ensures
            r.0 == self.instance(),
    {
        self.instance_id
    }

    fn in_dir(&self, name: String) -> (r: String)
        ensures
            r@ == join(self.working_dir@, name@),
    {
        if self.working_dir.unicode_len() == 0 {
            name
        } else {
            let mut p = self.working_dir.clone();
            let n = p.unicode_len();
            if p.as_str().get_char(n - 1) != '/' {
                p.append("/");
            }
            p.append(name.as_str());
            proof {
                assert(p@ =~= join(self.working_dir@, name@));
            }
            p
        }
    }

    fn name_of(&self, snapshot: usize, suffix: &str) -> (r: String)
        ensures
            r@ == "kvs_"@ + decimal(self.instance_id.0 as nat) + "_"@ + decimal(snapshot as nat) + suffix@,
    {
        let mut s = "kvs_".to_string();
        s.append(decimal_string(self.instance_id.0).as_str());
        s.append("_");
        s.append(decimal_string(snapshot).as_str());
        s.append(suffix);
        s
    }
}

impl KvsPathResolver for JsonBackend {
    closed spec fn instance(&self) -> nat {
        self.instance_id.0 as nat
    }

    closed spec fn dir(&self) -> Seq<char> {
        self.working_dir@
    }

    fn kvs_file_name(&self, snapshot_id: SnapshotId) -> (r: String) {
        self.name_of(snapshot_id.0, ".json")
    }

    fn kvs_file_path(&self, snapshot_id: SnapshotId) -> (r: String) {
        self.in_dir(self.kvs_file_name(snapshot_id))
    }

    fn hash_file_name(&self, snapshot_id: SnapshotId) -> (r: String) {
        self.name_of(snapshot_id.0, ".hash")
    }

    fn hash_file_path(&self, snapshot_id: SnapshotId) -> (r: String) {
        self.in_dir(self.hash_file_name(snapshot_id))
    }

    fn defaults_file_name(&self) -> (r: String) {
        let mut s = "kvs_".to_string();
        s.append(decimal_string(self.instance_id.0).as_str());
        s.append("_default.json");
        s
    }

    fn defaults_file_path(&self) -> (r: String) {
        self.in_dir(self.defaults_file_name())
    }
}

} // verus!
