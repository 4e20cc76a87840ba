use vstd::prelude::*;
use vstd::multiset::Multiset;

verus! {

/// The four kinds of directory entry, listing order first: directories
/// before files, plain before symlinked within neither.
#[derive(Debug, Clone, Copy, PartialEq, Eq, Structural)]
pub enum PathType {
    Dir,
    SymlinkDir,
    File,
    SymlinkFile,
}

/// One directory-listing entry: kind, name relative to the listing root with
/// forward slashes, modification time in milliseconds, and size for files.
#[derive(Debug, Clone)]
pub struct PathItem {
    pub path_type: PathType,
    pub name: String,
    pub mtime: u64,
    pub size: Option<u64>,
}

/// The entry kind named by a probe's symlink and directory bits.
pub open spec fn spec_path_type(is_symlink: bool, is_dir: bool) -> PathType {
    match (is_symlink, is_dir) {
        (true, true) => PathType::SymlinkDir,
        (false, true) => PathType::Dir,
        (true, false) => PathType::SymlinkFile,
        (false, false) => PathType::File,
    }
}

impl PathItem {
    /// Assemble a listing entry from what a filesystem probe found: the kind
    /// from the symlink and directory bits, and a size for files only.
    pub fn from_probe(is_symlink: bool, is_dir: bool, name: String, mtime: u64, size: u64) -> (r:
        PathItem)
        ensures
            r.path_type == spec_path_type(is_symlink, is_dir),
            r.name == name,
            r.mtime == mtime,
            r.size == (if is_dir {
                Option::<u64>::None
            } else {
                Some(size)
            }),
    {
        let path_type = match (is_symlink, is_dir) {
            (true, true) => PathType::SymlinkDir,
            (false, true) => PathType::Dir,
            (true, false) => PathType::SymlinkFile,
            (false, false) => PathType::File,
        };
        let size = if is_dir {
            None
        } else {
            Some(size)
        };
        PathItem { path_type, name, mtime, size }
    }

    /// Whether the entry names a directory, symlinked or not.
    pub fn is_dir(&self) -> (r: bool)
        ensures
            r == (self.path_type == PathType::Dir || self.path_type == PathType::SymlinkDir),
    {
        match self.path_type {
            PathType::Dir | PathType::SymlinkDir => true,
            _ => false,
        }
    }
}

/// The final component of a slash-separated name: everything after the last
/// `/`, or the whole name when there is none.
pub open spec fn spec_base_name(s: Seq<char>) -> Seq<char>
    decreases s.len(),
{
    if s.len() == 0 {
        s
    } else if s[s.len() - 1] == '/' {
        Seq::empty()
    } else {
        spec_base_name(s.take(s.len() - 1)).push(s[s.len() - 1])
    }
}

proof fn lemma_base_name_whole(s: Seq<char>)
    requires
        forall|j: int| 0 <= j < s.len() ==> s[j] != '/',
    ensures
        spec_base_name(s) == s,
    decreases s.len(),
{
    if s.len() > 0 {
        lemma_base_name_whole(s.take(s.len() - 1));
        assert(spec_base_name(s) =~= s.take(s.len() - 1).push(s[s.len() - 1]));
        assert(s.take(s.len() - 1).push(s[s.len() - 1]) =~= s);
    }
}

proof fn lemma_base_name_suffix(s: Seq<char>, k: int)
    requires
        0 <= k < s.len(),
        s[k] == '/',
        forall|j: int| k < j < s.len() ==> s[j] != '/',
    ensures
        spec_base_name(s) == s.skip(k + 1),
    decreases s.len(),
{
    if k == s.len() - 1 {
        assert(spec_base_name(s) =~= s.skip(k + 1));
    } else {
        lemma_base_name_suffix(s.take(s.len() - 1), k);
        assert(spec_base_name(s) == spec_base_name(s.take(s.len() - 1)).push(s[s.len() - 1]));
        assert(s.take(s.len() - 1).skip(k + 1).push(s[s.len() - 1]) =~= s.skip(k + 1));
    }
}

/// The final component of a slash-separated name.
pub fn base_name_of(s: &str) -> (r: String)
    ensures
        r@ == spec_base_name(s@),
{
    let len = s.unicode_len();
    let mut i: usize = len;
    while i > 0
        invariant
            len == s@.len(),
            i <= len,
            forall|j: int| i <= j < len ==> s@[j] != '/',
        decreases i,
    {
        if s.get_char(i - 1) == '/' {
            let r = s.substring_char(i, len);
            proof {
                lemma_base_name_suffix(s@, i - 1);
                assert(r@ =~= s@.skip(i as int));
            }
            return r.to_owned();
        }
        i = i - 1;
    }
    proof {
        lemma_base_name_whole(s@);
    }
    s.to_owned()
}

impl PathItem {
    /// The displayed name of the entry: the final component of its relative
    /// name.
    pub fn base_name(&self) -> (r: String)
        ensures
            r@ == spec_base_name(self.name@),
    {
        base_name_of(self.name.as_str())
    }
}

/// The final path component, when there is a usable one: slashes around it
/// are ignored; nothing for an empty result or a parent reference.
pub open spec fn spec_file_name(s: Seq<char>) -> Option<Seq<char>> {
    let b = spec_base_name(crate::scan::spec_trim_slashes(s));
    if b.len() == 0 || b == seq!['.', '.'] {
        None
    } else {
        Some(b)
    }
}

/// The file name of a path, if it has one.
pub fn get_file_name(s: &str) -> (r: Option<String>)
    ensures
        match r {
            Some(v) => spec_file_name(s@) == Some(v@),
            None => spec_file_name(s@) is None,
        },
{
    let trimmed = crate::scan::trim_slashes(s);
    let b = base_name_of(trimmed.as_str());
    let blen = b.as_str().unicode_len();
    if blen == 0 {
        return None;
    }
    proof {
        reveal_strlit("..");
        assert(".."@ =~= seq!['.', '.']);
    }
    if crate::scan::str_eq(b.as_str(), "..") {
        return None;
    }
    Some(b)
}

/// Whether the final component carries an extension: a dot after its first
/// character.
pub open spec fn spec_has_extension(s: Seq<char>) -> bool {
    exists|i: int| 0 < i < spec_base_name(s).len() && spec_base_name(s)[i] == '.'
}

/// Whether a path's file name has an extension.
pub fn has_extension(s: &str) -> (r: bool)
    ensures
        r == spec_has_extension(s@),
{
    let b = base_name_of(s);
    let blen = b.as_str().unicode_len();
    let mut i: usize = 1;
    if blen == 0 {
        proof {
            if exists|k: int| 0 < k < spec_base_name(s@).len() && spec_base_name(s@)[k] == '.' {
                let w = choose|k: int|
                    0 < k < spec_base_name(s@).len() && spec_base_name(s@)[k] == '.';
            }
        }
        return false;
    }
    while i < blen
        invariant
            blen == b@.len(),
            b@ == spec_base_name(s@),
            1 <= i <= blen,
            forall|j: int| 0 < j < i ==> b@[j] != '.',
        decreases blen - i,
    {
        if b.as_str().get_char(i) == '.' {
            assert(spec_base_name(s@)[i as int] == '.');
            return true;
        }
        i = i + 1;
    }
    proof {
        if exists|k: int| 0 < k < spec_base_name(s@).len() && spec_base_name(s@)[k] == '.' {
            let w = choose|k: int| 0 < k < spec_base_name(s@).len() && spec_base_name(s@)[k] == '.';
            assert(b@[w] != '.');
        }
    }
    false
}

/// A filesystem path in this host's text form, unchanged: names already use
/// forward slashes here.
pub fn normalize_path(s: &str) -> (r: String)
    ensures
        r@ == s@,
{
    s.to_owned()
}

/// Milliseconds since the epoch from a time split into whole seconds and
/// nanoseconds.
pub fn to_timestamp(secs: u64, subsec_nanos: u32) -> (r: u64)
    requires
        secs <= 18_000_000_000_000_000,
        subsec_nanos < 1_000_000_000,
    ensures
        r == secs * 1000 + subsec_nanos / 1_000_000,
{
    secs * 1000 + (subsec_nanos / 1_000_000) as u64
}

/// Listing rank of an entry kind: directories first.
pub open spec fn type_rank(t: PathType) -> int {
    match t {
        PathType::Dir => 0,
        PathType::SymlinkDir => 1,
        PathType::File => 2,
        PathType::SymlinkFile => 3,
    }
}

/// Lexicographic order on names, by character code.
pub open spec fn chars_le(a: Seq<char>, b: Seq<char>) -> bool
    decreases a.len(),
{
    if a.len() == 0 {
        true
    } else if b.len() == 0 {
        false
    } else if (a[0] as u32) < (b[0] as u32) {
        true
    } else if (a[0] as u32) > (b[0] as u32) {
        false
    } else {
        chars_le(a.skip(1), b.skip(1))
    }
}

/// Listing order: by kind rank, then by name.
pub open spec fn spec_item_le(x: PathItem, y: PathItem) -> bool {
    type_rank(x.path_type) < type_rank(y.path_type) || (type_rank(x.path_type) == type_rank(
        y.path_type,
    ) && chars_le(x.name@, y.name@))
}

proof fn lemma_chars_le_total(a: Seq<char>, b: Seq<char>)
    ensures
        chars_le(a, b) || chars_le(b, a),
    decreases a.len(),
{
    if a.len() > 0 && b.len() > 0 && !((a[0] as u32) < (b[0] as u32)) && !((a[0] as u32) > (
    b[0] as u32)) {
        lemma_chars_le_total(a.skip(1), b.skip(1));
    }
}

proof fn lemma_chars_le_trans(a: Seq<char>, b: Seq<char>, c: Seq<char>)
    requires
        chars_le(a, b),
        chars_le(b, c),
    ensures
        chars_le(a, c),
    decreases a.len(),
{
    if a.len() > 0 && b.len() > 0 && c.len() > 0 {
        if !((a[0] as u32) < (b[0] as u32)) && !((a[0] as u32) > (b[0] as u32)) && !((
        b[0] as u32) < (c[0] as u32)) && !((b[0] as u32) > (c[0] as u32)) {
            lemma_chars_le_trans(a.skip(1), b.skip(1), c.skip(1));
        }
    }
}

/// The listing order is total.
pub proof fn lemma_item_le_total(x: PathItem, y: PathItem)
    ensures
        spec_item_le(x, y) || spec_item_le(y, x),
{
    lemma_chars_le_total(x.name@, y.name@);
}

/// The listing order is transitive.
pub proof fn lemma_item_le_trans(x: PathItem, y: PathItem, z: PathItem)
    requires
        spec_item_le(x, y),
        spec_item_le(y, z),
    ensures
        spec_item_le(x, z),
{
    if type_rank(x.path_type) == type_rank(y.path_type) && type_rank(y.path_type) == type_rank(
        z.path_type,
    ) {
        lemma_chars_le_trans(x.name@, y.name@, z.name@);
    }
}

fn str_le_from(a: &str, b: &str, i: usize, la: usize, lb: usize) -> (r: bool)
    requires
        la == a@.len(),
        lb == b@.len(),
        i <= la,
        i <= lb,
    ensures
        r == chars_le(a@.skip(i as int), b@.skip(i as int)),
    decreases la - i,
{
    if i == la {
        assert(a@.skip(i as int).len() == 0);
        true
    } else if i == lb {
        assert(b@.skip(i as int).len() == 0);
        assert(a@.skip(i as int).len() > 0);
        false
    } else {
        let ca = a.get_char(i) as u32;
        let cb = b.get_char(i) as u32;
        assert(a@.skip(i as int)[0] == a@[i as int]);
        assert(b@.skip(i as int)[0] == b@[i as int]);
        if ca < cb {
            true
        } else if ca > cb {
            false
        } else {
            let r = str_le_from(a, b, i + 1, la, lb);
            assert(a@.skip(i as int).skip(1) =~= a@.skip(i as int + 1));
            assert(b@.skip(i as int).skip(1) =~= b@.skip(i as int + 1));
            r
        }
    }
}

/// Compare two names in listing order.
pub fn str_le(a: &str, b: &str) -> (r: bool)
    ensures
        r == chars_le(a@, b@),
{
    let la = a.unicode_len();
    let lb = b.unicode_len();
    let r = str_le_from(a, b, 0, la, lb);
    assert(a@.skip(0) =~= a@);
    assert(b@.skip(0) =~= b@);
    r
}

/// Compare two entries in listing order.
pub fn item_le(x: &PathItem, y: &PathItem) -> (r: bool)
    ensures
        r == spec_item_le(*x, *y),
{
    let rx: u8 = match x.path_type {
        PathType::Dir => 0,
        PathType::SymlinkDir => 1,
        PathType::File => 2,
        PathType::SymlinkFile => 3,
    };
    let ry: u8 = match y.path_type {
        PathType::Dir => 0,
        PathType::SymlinkDir => 1,
        PathType::File => 2,
        PathType::SymlinkFile => 3,
    };
    if rx < ry {
        true
    } else if rx > ry {
        false
    } else {
        str_le(x.name.as_str(), y.name.as_str())
    }
}

/// Whether a listing is in order.
pub open spec fn spec_items_sorted(s: Seq<PathItem>) -> bool {
    forall|i: int, j: int| 0 <= i < j < s.len() ==> spec_item_le(s[i], s[j])
}

/// Sort a listing: directories before files, then names ascending. The
/// result holds exactly the given entries.
#[verifier::loop_isolation(false)]
pub fn sort_path_items(items: Vec<PathItem>) -> (r: Vec<PathItem>)
    ensures
        spec_items_sorted(r@),
        r@.to_multiset() == items@.to_multiset(),
{
    broadcast use vstd::seq_lib::group_to_multiset_ensures;

    let mut rest = items;
    let mut out: Vec<PathItem> = Vec::new();
    let ghost orig = rest@;
    proof {
        assert(out@.to_multiset().add(rest@.to_multiset()) =~= orig.to_multiset());
    }
    while rest.len() > 0
        invariant
            spec_items_sorted(out@),
            out@.to_multiset().add(rest@.to_multiset()) == orig.to_multiset(),
        decreases rest@.len(),
    {
        let ghost pre_rest = rest@;
        let item = rest.remove(0);
        proof {
            assert(pre_rest.remove(0).to_multiset() =~= pre_rest.to_multiset().remove(item));
        }
        let mut pos: usize = 0;
        while pos < out.len() && item_le(&out[pos], &item)
            invariant
                pos <= out@.len(),
                forall|k: int| 0 <= k < pos ==> spec_item_le(out@[k], item),
            decreases out@.len() - pos,
        {
            pos = pos + 1;
        }
        let ghost pre_out = out@;
        out.insert(pos, item);
        proof {
            if pos < pre_out.len() {
                assert(!spec_item_le(pre_out[pos as int], item));
                lemma_item_le_total(pre_out[pos as int], item);
            }
            assert forall|i: int, j: int| 0 <= i < j < out@.len() implies spec_item_le(
                out@[i],
                out@[j],
            ) by {
                if i < pos && j == pos {
                    assert(out@[i] == pre_out[i]);
                } else if i == pos && j > pos {
                    assert(out@[j] == pre_out[j - 1]);
                    if pos < pre_out.len() {
                        if j - 1 > pos {
                            lemma_item_le_trans(item, pre_out[pos as int], pre_out[j - 1]);
                        }
                    }
                } else if i < pos && j > pos {
                    assert(out@[i] == pre_out[i] && out@[j] == pre_out[j - 1]);
                } else if i > pos && j > pos {
                    assert(out@[i] == pre_out[i - 1] && out@[j] == pre_out[j - 1]);
                }
            }
            assert(pre_out.insert(pos as int, item) =~= pre_out.take(pos as int) + seq![item]
                + pre_out.skip(pos as int));
            vstd::seq_lib::lemma_multiset_commutative(pre_out.take(pos as int), seq![item]);
            vstd::seq_lib::lemma_multiset_commutative(
                pre_out.take(pos as int) + seq![item],
                pre_out.skip(pos as int),
            );
            vstd::seq_lib::lemma_multiset_commutative(
                pre_out.take(pos as int),
                pre_out.skip(pos as int),
            );
            assert(pre_out.take(pos as int) + pre_out.skip(pos as int) =~= pre_out);
            assert(seq![item].to_multiset() =~= Multiset::<PathItem>::empty().insert(item));
            assert(out@.to_multiset() =~= pre_out.to_multiset().insert(item));
            assert(out@.to_multiset().add(rest@.to_multiset()) =~= orig.to_multiset());
        }
    }
    proof {
        assert(rest@.to_multiset() =~= Multiset::<PathItem>::empty());
        assert(out@.to_multiset() =~= orig.to_multiset());
    }
    out
}

} // verus!
