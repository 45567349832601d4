//! Naming and listing the files of the workspace.
use crate::text::number::{decimal, decimal_text, digit_char};
use crate::text::{chars_of, same_text};
use vstd::prelude::*;

verus! {

/// std's `SystemTime`, which a file's record carries along. Nothing is
/// known of what it holds.
#[verifier::external_type_specification]
#[verifier::external_body]
pub struct ExSystemTime(std::time::SystemTime);

/// std's `SystemTime::clone`, of which nothing is claimed.
pub assume_specification[ <std::time::SystemTime as Clone>::clone ](
    t: &std::time::SystemTime,
) -> std::time::SystemTime;

/// What a directory listing says of one file.
#[derive(Debug, Clone)]
pub struct FileInfo {
    pub name: String,
    pub size: u64,
    pub modified: std::time::SystemTime,
}

/// The directory that generated files are written to.
#[derive(Debug, Clone)]
pub struct Workspace {
    path: String,
}

/// The name under which a file is saved where the request names none.
pub const DEFAULT_NAME: &'static str = "untitled.txt";

/// The stem of a numbered name where the requested name has none.
pub const DEFAULT_STEM: &'static str = "untitled";

/// The extension of a numbered name where the requested name has none.
pub const DEFAULT_SUFFIX: &'static str = "txt";

/// The name that a listing gives a file whose name is no text.
pub const UNKNOWN_NAME: &'static str = "unknown";

/// `a` comes before `b`, or is `b`, in the order of a dictionary: the first
/// byte in which they differ decides, and a text comes before any text that
/// it begins.
pub open spec fn bytes_le(a: Seq<u8>, b: Seq<u8>) -> bool
    decreases a.len(),
{
    if a.len() == 0 {
        true
    } else if b.len() == 0 {
        false
    } else if a[0] != b[0] {
        a[0] < b[0]
    } else {
        bytes_le(a.drop_first(), b.drop_first())
    }
}

/// The order of file names: that of their UTF-8 forms.
pub open spec fn name_le(a: Seq<char>, b: Seq<char>) -> bool {
    bytes_le(vstd::utf8::encode_utf8(a), vstd::utf8::encode_utf8(b))
}

/// The files of `files` stand in the order of their names.
pub open spec fn sorted_by_name(files: Seq<FileInfo>) -> bool {
    forall|i: int, j: int|
        0 <= i < j < files.len() ==> name_le(#[trigger] files[i].name@, #[trigger] files[j].name@)
}

/// The files of `files` that are called `name`, in their order.
pub open spec fn named(files: Seq<FileInfo>, name: Seq<char>) -> Seq<FileInfo> {
    files.filter(|f: FileInfo| f.name@ == name)
}

/// The name of the file with the given stem and extension that is tried
/// `counter`-th after a name that is taken.
pub open spec fn numbered(stem: Seq<char>, suffix: Seq<char>, counter: nat) -> Seq<char> {
    stem + "_"@ + decimal(counter) + "."@ + suffix
}

/// `name` is one of `taken`.
pub open spec fn is_taken(taken: Seq<Seq<char>>, name: Seq<char>) -> bool {
    exists|i: int| 0 <= i < taken.len() && taken[i] == name
}

/// The stem of the numbered names for a name with the stem `stem`, if any.
pub open spec fn stem_or_default(stem: Option<Seq<char>>) -> Seq<char> {
    match stem {
        Some(s) => s,
        None => DEFAULT_STEM@,
    }
}

/// The extension of the numbered names for a name with the extension
/// `suffix`, if any.
pub open spec fn suffix_or_default(suffix: Option<Seq<char>>) -> Seq<char> {
    match suffix {
        Some(s) => s,
        None => DEFAULT_SUFFIX@,
    }
}

/// The first numbered name with a counter from `from` up to `limit` that is
/// not taken, with its counter.
pub open spec fn numbered_choice(
    stem: Seq<char>,
    suffix: Seq<char>,
    taken: Seq<Seq<char>>,
    from: nat,
    limit: nat,
) -> Option<(Seq<char>, u64)>
    decreases limit + 1 - from,
{
    if from > limit {
        None
    } else if !is_taken(taken, numbered(stem, suffix, from)) {
        Some((numbered(stem, suffix, from), from as u64))
    } else {
        numbered_choice(stem, suffix, taken, from + 1, limit)
    }
}

/// The name to save under, with its counter: `safe_name` with counter zero
/// where it is not taken, else the first numbered name that is not.
pub open spec fn free_choice(
    safe_name: Seq<char>,
    stem: Seq<char>,
    suffix: Seq<char>,
    taken: Seq<Seq<char>>,
    limit: nat,
) -> Option<(Seq<char>, u64)> {
    if !is_taken(taken, safe_name) {
        Some((safe_name, 0u64))
    } else {
        numbered_choice(stem, suffix, taken, 1, limit)
    }
}

/// `name` holds no slash: it names a file and no directory on the way to
/// one.
pub open spec fn is_plain_name(name: Seq<char>) -> bool {
    forall|i: int| 0 <= i < name.len() ==> #[trigger] name[i] != '/'
}

/// The name to save a file under for a request whose last path component is
/// `file_name`: that component where it holds no slash, else `DEFAULT_NAME`.
pub open spec fn safe_name_of(file_name: Option<Seq<char>>) -> Seq<char> {
    match file_name {
        Some(name) => if is_plain_name(name) {
            name
        } else {
            DEFAULT_NAME@
        },
        None => DEFAULT_NAME@,
    }
}

/// The index of the last dot of `name`, or -1 where it has none.
pub open spec fn last_dot(name: Seq<char>) -> int
    decreases name.len(),
{
    if name.len() == 0 {
        -1
    } else if name.last() == '.' {
        name.len() - 1
    } else {
        last_dot(name.drop_last())
    }
}

/// Whether `name` falls into a stem and an extension: it has a dot that is
/// not its first character, and is not the name of the parent directory.
pub open spec fn has_extension(name: Seq<char>) -> bool {
    last_dot(name) > 0 && name != ".."@
}

/// The stem of the file name `name`: what stands before its last dot, or all
/// of it where it has no extension.
pub open spec fn stem_of(name: Seq<char>) -> Seq<char> {
    if has_extension(name) {
        name.subrange(0, last_dot(name))
    } else {
        name
    }
}

/// The extension of the file name `name`: what stands behind its last dot.
pub open spec fn extension_of(name: Seq<char>) -> Option<Seq<char>> {
    if has_extension(name) {
        Some(name.subrange(last_dot(name) + 1, name.len() as int))
    } else {
        None
    }
}

/// The name to save under, with its counter, for a request for `safe_name`
/// in a directory that holds the names `taken`.
pub open spec fn chosen_name(safe_name: Seq<char>, taken: Seq<Seq<char>>, limit: nat) -> Option<
    (Seq<char>, u64),
> {
    free_choice(
        safe_name,
        stem_of(safe_name),
        suffix_or_default(extension_of(safe_name)),
        taken,
        limit,
    )
}

/// The last component of the path `filename`, by std's `Path::file_name`,
/// where it has one that is text. std documents that a path which ends in
/// the parent directory has none. It tells separators by the machine and by
/// the kind of path, so nothing is claimed of the characters of a component.
#[verifier::external_body]
pub(crate) fn final_component(filename: &str) -> (r: Option<String>)
    ensures
        r matches Some(name) ==> name@ != ".."@,
{
    std::path::Path::new(filename).file_name().and_then(|n| n.to_str()).map(|n| n.to_string())
}

/// The description that the record of a saved file carries.
pub open spec fn description_of(name: Seq<char>) -> Seq<char> {
    "Generated file: "@ + name
}

pub proof fn lemma_bytes_le_total(a: Seq<u8>, b: Seq<u8>)
    ensures
        bytes_le(a, b) || bytes_le(b, a),
        bytes_le(a, a),
    decreases a.len(),
{
    if a.len() > 0 {
        lemma_bytes_le_total(a.drop_first(), a.drop_first());
        if b.len() > 0 && a[0] == b[0] {
            lemma_bytes_le_total(a.drop_first(), b.drop_first());
        }
    }
}

pub proof fn lemma_bytes_le_transitive(a: Seq<u8>, b: Seq<u8>, c: Seq<u8>)
    requires
        bytes_le(a, b),
        bytes_le(b, c),
    ensures
        bytes_le(a, c),
    decreases a.len(),
{
    if a.len() > 0 && b.len() > 0 && c.len() > 0 {
        if a[0] == b[0] && b[0] == c[0] {
            lemma_bytes_le_transitive(a.drop_first(), b.drop_first(), c.drop_first());
        }
    }
}

/// Whether `a` comes before `b`, or is `b`, in the order of a dictionary.
pub fn bytes_in_order(a: &[u8], b: &[u8]) -> (r: bool)
    ensures
        r == bytes_le(a@, b@),
{
    let n = a.len();
    let m = b.len();
    let mut i: usize = 0;
    assert(a@.skip(0) =~= a@);
    assert(b@.skip(0) =~= b@);
    while i < n && i < m
        invariant
            n == a@.len(),
            m == b@.len(),
            i <= n,
            i <= m,
            bytes_le(a@, b@) == bytes_le(a@.skip(i as int), b@.skip(i as int)),
        decreases n - i,
    {
        proof {
            assert(a@.skip(i as int)[0] == a@[i as int]);
            assert(b@.skip(i as int)[0] == b@[i as int]);
            assert(a@.skip(i as int).drop_first() =~= a@.skip(i + 1));
            assert(b@.skip(i as int).drop_first() =~= b@.skip(i + 1));
        }
        if a[i] != b[i] {
            return a[i] < b[i];
        }
        i += 1;
    }
    i == n
}

/// Whether the name `a` comes before the name `b`, or is `b`.
pub fn names_in_order(a: &str, b: &str) -> (r: bool)
    ensures
        r == name_le(a@, b@),
{
    bytes_in_order(a.as_bytes(), b.as_bytes())
}

impl Workspace {
    /// The workspace in the directory `path`.
    pub fn new(path: String) -> (r: Workspace)
        ensures
            r.location() == path@,
    {
        Workspace { path }
    }

    /// The directory of the workspace.
    pub closed spec fn location(&self) -> Seq<char> {
        self.path@
    }

    /// The directory of the workspace.
    pub fn path(&self) -> (r: &str)
        ensures
            r@ == self.location(),
    {
        self.path.as_str()
    }

    /// Whether `name` holds no slash.
    pub fn plain_name(name: &str) -> (r: bool)
        ensures
            r == is_plain_name(name@),
    {
        let v = chars_of(name);
        let n = v.len();
        let mut i: usize = 0;
        while i < n
            invariant
                n == v.len(),
                v@ == name@,
                i <= n,
                forall|k: int| 0 <= k < i ==> #[trigger] name@[k] != '/',
            decreases n - i,
        {
            if v[i] == '/' {
                return false;
            }
            i += 1;
        }
        true
    }

    /// The name to save a file under for a request whose last path component
    /// is `file_name`: that component where it holds no slash, else
    /// `DEFAULT_NAME`, as for a request that has no last component.
    pub fn safe_name(file_name: Option<&str>) -> (r: String)
        ensures
            r@ == safe_name_of(file_name.deep_view()),
            is_plain_name(r@),
    {
        proof {
            reveal_strlit("untitled.txt");
        }
        match file_name {
            Some(n) => {
                if Self::plain_name(n) {
                    n.to_owned()
                } else {
                    DEFAULT_NAME.to_owned()
                }
            },
            None => DEFAULT_NAME.to_owned(),
        }
    }

    /// The last component of a path as far as it may name a file of the
    /// workspace: `component` where it holds no slash, else none.
    pub fn plain_component(component: Option<String>) -> (r: Option<String>)
        ensures
            r.deep_view() == match component.deep_view() {
                Some(name) => if is_plain_name(name) {
                    Some(name)
                } else {
                    None
                },
                None => None,
            },
    {
        match component {
            Some(name) => {
                if Self::plain_name(name.as_str()) {
                    Some(name)
                } else {
                    None
                }
            },
            None => None,
        }
    }

    /// The last component of the path `filename`, where it has one and it
    /// may name a file of the workspace: a name without a slash that is not
    /// the parent directory.
    pub fn file_name(filename: &str) -> (r: Option<String>)
        ensures
            r matches Some(name) ==> is_plain_name(name@) && name@ != ".."@,
    {
        Self::plain_component(final_component(filename))
    }

    /// The name to save a file under for a request for `filename`: its last
    /// component, or `DEFAULT_NAME` where it has none or one with a slash in
    /// it. No directory of the request survives in it.
    pub fn requested_name(filename: &str) -> (r: String)
        ensures
            is_plain_name(r@),
            r@ != ".."@,
    {
        proof {
            reveal_strlit("untitled.txt");
            reveal_strlit("..");
            assert(DEFAULT_NAME@.len() == 12 && ".."@.len() == 2);
        }
        match final_component(filename) {
            Some(name) => Self::safe_name(Some(name.as_str())),
            None => Self::safe_name(None),
        }
    }

    /// The stem and the extension of the file name `name`.
    pub fn name_parts(name: &str) -> (r: (&str, Option<&str>))
        ensures
            r.0@ == stem_of(name@),
            r.1.deep_view() == extension_of(name@),
    {
        let v = chars_of(name);
        let n = v.len();
        let mut i: usize = n;
        assert(name@.take(n as int) =~= name@);
        while i > 0 && v[i - 1] != '.'
            invariant
                n == v.len(),
                v@ == name@,
                i <= n,
                last_dot(name@) == last_dot(name@.take(i as int)),
            decreases i,
        {
            proof {
                assert(name@.take(i as int).drop_last() =~= name@.take(i - 1));
                assert(name@.take(i as int).last() == v@[i - 1]);
            }
            i -= 1;
        }
        proof {
            assert(name@.take(n as int) =~= name@);
            if i > 0 {
                assert(name@.take(i as int).last() == v@[i - 1]);
            }
            reveal_strlit("..");
        }
        if i <= 1 || (n == 2 && v[0] == '.' && v[1] == '.') {
            proof {
                if i > 1 {
                    assert(name@ =~= ".."@);
                } else if name@ == ".."@ {
                    assert(name@.len() == 2);
                }
            }
            (name, None)
        } else {
            proof {
                if name@ == ".."@ {
                    assert(name@[0] == '.' && name@[1] == '.');
                }
            }
            (name.substring_char(0, i - 1), Some(name.substring_char(i, n)))
        }
    }

    /// The name under which to save a file that asks for `safe_name`, in a
    /// directory that holds the names `taken`: `safe_name` where it is free,
    /// else its stem, the least counter from one on that gives a free name,
    /// and its extension, `txt` where it has none. The counter comes back
    /// with the name, zero for `safe_name` itself. `None` where none of the
    /// first `limit` numbered names is free. A name without a slash gives a
    /// name without a slash.
    pub fn choose_name(safe_name: &str, taken: &Vec<String>, limit: u64) -> (r: Option<
        (String, u64),
    >)
        ensures
            r.deep_view() == chosen_name(safe_name@, taken.deep_view(), limit as nat),
            is_plain_name(safe_name@) ==> (r matches Some(chosen) ==> is_plain_name(chosen.0@)),
    {
        let parts = Self::name_parts(safe_name);
        let r = Self::free_name(safe_name, Some(parts.0), parts.1, taken, limit);
        proof {
            if is_plain_name(safe_name@) {
                law_chosen_name_is_plain(safe_name@, taken.deep_view(), limit as nat);
            }
        }
        r
    }

    /// The `counter`-th name to try in place of a name that is taken.
    pub fn numbered_name(stem: &str, suffix: &str, counter: u64) -> (r: String)
        ensures
            r@ == numbered(stem@, suffix@, counter as nat),
    {
        let mut r = stem.to_owned();
        r.append("_");
        r.append(decimal_text(counter).as_str());
        r.append(".");
        r.append(suffix);
        r
    }

    /// Whether `name` is one of `taken`.
    pub fn name_taken(taken: &Vec<String>, name: &str) -> (r: bool)
        ensures
            r == is_taken(taken.deep_view(), name@),
    {
        let n = taken.len();
        let mut i: usize = 0;
        while i < n
            invariant
                n == taken.len(),
                i <= n,
                forall|k: int| 0 <= k < i ==> taken.deep_view()[k] != name@,
            decreases n - i,
        {
            if same_text(taken[i].as_str(), name) {
                assert(taken.deep_view()[i as int] == name@);
                return true;
            }
            i += 1;
        }
        false
    }

    /// The name under which to save a file that asks for `safe_name`, in a
    /// directory that holds the names `taken`: `safe_name` where it is free,
    /// else the numbered name with the least counter, from one on, that is
    /// free. `stem` and `suffix` are those of `safe_name`, where it has them.
    /// The counter comes back with the name, zero for `safe_name` itself.
    /// `None` where none of the first `limit` numbered names is free.
    pub fn free_name(
        safe_name: &str,
        stem: Option<&str>,
        suffix: Option<&str>,
        taken: &Vec<String>,
        limit: u64,
    ) -> (r: Option<(String, u64)>)
        ensures
            r.deep_view() == free_choice(
                safe_name@,
                stem_or_default(stem.deep_view()),
                suffix_or_default(suffix.deep_view()),
                taken.deep_view(),
                limit as nat,
            ),
    {
        let ghost names = taken.deep_view();
        if !Self::name_taken(taken, safe_name) {
            return Some((safe_name.to_owned(), 0));
        }
        let st = match stem {
            Some(s) => s,
            None => DEFAULT_STEM,
        };
        let su = match suffix {
            Some(s) => s,
            None => DEFAULT_SUFFIX,
        };
        let mut counter: u64 = 0;
        while counter < limit
            invariant
                counter <= limit,
                names == taken.deep_view(),
                is_taken(names, safe_name@),
                st@ == stem_or_default(stem.deep_view()),
                su@ == suffix_or_default(suffix.deep_view()),
                numbered_choice(st@, su@, names, 1, limit as nat) == numbered_choice(
                    st@,
                    su@,
                    names,
                    counter as nat + 1,
                    limit as nat,
                ),
            decreases limit - counter,
        {
            counter += 1;
            let name = Self::numbered_name(st, su, counter);
            if !Self::name_taken(taken, name.as_str()) {
                return Some((name, counter));
            }
        }
        None
    }

    /// The description that the record of a file saved for a request for
    /// `safe_name` carries.
    pub fn file_description(safe_name: &str) -> (r: String)
        ensures
            r@ == description_of(safe_name@),
    {
        let mut r = "Generated file: ".to_owned();
        r.append(safe_name);
        r
    }

    /// The name that a listing shows for a file: its name, or `UNKNOWN_NAME`
    /// where the name is no text.
    pub fn listed_name(file_name: Option<&str>) -> (r: String)
        ensures
            r@ == match file_name {
                Some(n) => n@,
                None => UNKNOWN_NAME@,
            },
    {
        match file_name {
            Some(n) => n.to_owned(),
            None => UNKNOWN_NAME.to_owned(),
        }
    }

    /// The files of a listing in the order of their names. Files of one name
    /// keep the order in which they came.
    pub fn sort_files(files: Vec<FileInfo>) -> (r: Vec<FileInfo>)
        ensures
            sorted_by_name(r@),
            forall|name: Seq<char>| #[trigger] named(r@, name) == named(files@, name),
            r@.to_multiset() == files@.to_multiset(),
            r@.len() == files@.len(),
    {
        let mut rest = files;
        let mut out: Vec<FileInfo> = Vec::new();
        proof {
            lemma_empty_to_multiset::<FileInfo>();
            assert(out@ =~= Seq::<FileInfo>::empty());
            assert(out@.to_multiset().add(rest@.to_multiset()) =~= files@.to_multiset());
            assert forall|name: Seq<char>|
                named(files@, name) == named(rest@, name) + #[trigger] named(out@, name) by {
                lemma_named_none(out@, name);
            }
        }
        while rest.len() > 0
            invariant
                sorted_by_name(out@),
                out@.to_multiset().add(rest@.to_multiset()) == files@.to_multiset(),
                out@.len() + rest@.len() == files@.len(),
                forall|name: Seq<char>|
                    named(files@, name) == named(rest@, name) + #[trigger] named(out@, name),
            decreases rest.len(),
        {
            let ghost rest_before = rest@;
            let ghost out_before = out@;
            let f = rest.pop().unwrap();
            let n = out.len();
            let mut pos: usize = 0;
            while pos < n && !names_in_order(f.name.as_str(), out[pos].name.as_str())
                invariant
                    n == out.len(),
                    pos <= n,
                    forall|k: int| 0 <= k < pos ==> !name_le(f.name@, #[trigger] out@[k].name@),
                decreases n - pos,
            {
                pos += 1;
            }
            out.insert(pos, f);
            proof {
                out_before.insert_ensures(pos as int, f);
                assert forall|i: int, j: int| 0 <= i < j < out@.len() implies name_le(
                    #[trigger] out@[i].name@,
                    #[trigger] out@[j].name@,
                ) by {
                    let fb = vstd::utf8::encode_utf8(f.name@);
                    if j == pos {
                        lemma_bytes_le_total(fb, vstd::utf8::encode_utf8(out_before[i].name@));
                    } else if i == pos {
                        let at = vstd::utf8::encode_utf8(out_before[pos as int].name@);
                        let later = vstd::utf8::encode_utf8(out_before[j - 1].name@);
                        lemma_bytes_le_total(at, at);
                        if j - 1 > pos {
                            assert(name_le(out_before[pos as int].name@, out_before[j - 1].name@));
                        }
                        lemma_bytes_le_transitive(fb, at, later);
                    } else if i < pos && j < pos {
                    } else if i < pos {
                        assert(name_le(out_before[i].name@, out_before[j - 1].name@));
                    } else {
                        assert(name_le(out_before[i - 1].name@, out_before[j - 1].name@));
                    }
                }
                assert forall|name: Seq<char>|
                    named(files@, name) == named(rest@, name) + #[trigger] named(out@, name) by {
                    assert(named(files@, name) == named(rest_before, name) + named(
                        out_before,
                        name,
                    ));
                    lemma_named_insert(out_before, pos as int, f, name);
                    lemma_named_last(rest_before, name);
                    assert(rest_before.drop_last() =~= rest@);
                    if f.name@ == name {
                        assert(named(rest@, name).push(f) + named(out_before, name) =~= named(
                            rest@,
                            name,
                        ) + (seq![f] + named(out_before, name)));
                    }
                }
                lemma_insert_to_multiset(out_before, pos as int, f);
                assert(rest_before =~= rest@.push(f));
                vstd::seq_lib::to_multiset_build(rest@, f);
                assert(out@.to_multiset().add(rest@.to_multiset()) =~= out_before.to_multiset().add(
                    rest_before.to_multiset(),
                ));
            }
        }
        proof {
            lemma_empty_to_multiset::<FileInfo>();
            assert(rest@ =~= Seq::<FileInfo>::empty());
            assert(out@.to_multiset().add(rest@.to_multiset()) =~= out@.to_multiset());
            assert forall|name: Seq<char>| #[trigger] named(out@, name) == named(files@, name) by {
                lemma_named_none(rest@, name);
                assert(named(rest@, name) + named(out@, name) =~= named(out@, name));
            }
        }
        out
    }
}

/// Inserting an item into a sequence adds it to the items that the sequence
/// holds.
pub proof fn lemma_insert_to_multiset<A>(s: Seq<A>, pos: int, a: A)
    requires
        0 <= pos <= s.len(),
    ensures
        s.insert(pos, a).to_multiset() == s.to_multiset().insert(a),
{
    let t = s.insert(pos, a);
    s.insert_ensures(pos, a);
    assert(t.remove(pos) =~= s);
    vstd::seq_lib::to_multiset_remove(t, pos);
    assert(t.to_multiset().count(a) > 0) by {
        t.to_multiset_ensures();
        assert(t.contains(a)) by {
            assert(t[pos] == a);
        }
    }
    assert(t.to_multiset() =~= t.to_multiset().remove(a).insert(a));
}

/// The empty sequence holds nothing.
pub proof fn lemma_empty_to_multiset<A>()
    ensures
        Seq::<A>::empty().to_multiset() == vstd::multiset::Multiset::<A>::empty(),
{
    let e = Seq::<A>::empty();
    e.to_multiset_ensures();
    assert forall|a: A| e.to_multiset().count(a) == 0 by {
        assert(!e.contains(a));
    }
    assert(e.to_multiset() =~= vstd::multiset::Multiset::<A>::empty());
}

/// Files none of which is called `name` hold no file of that name.
pub proof fn lemma_named_none(files: Seq<FileInfo>, name: Seq<char>)
    requires
        forall|i: int| 0 <= i < files.len() ==> (#[trigger] files[i]).name@ != name,
    ensures
        named(files, name) == Seq::<FileInfo>::empty(),
    decreases files.len(),
{
    reveal(Seq::filter);
    if files.len() > 0 {
        let front = files.drop_last();
        assert forall|i: int| 0 <= i < front.len() implies (#[trigger] front[i]).name@ != name by {
            assert(front[i] == files[i]);
        }
        lemma_named_none(front, name);
        assert(files.last() == files[files.len() - 1]);
    }
}

/// The files called `name` are those among all but the last file, and the
/// last file where it is called so.
pub proof fn lemma_named_last(files: Seq<FileInfo>, name: Seq<char>)
    requires
        files.len() > 0,
    ensures
        named(files, name) == if files.last().name@ == name {
            named(files.drop_last(), name).push(files.last())
        } else {
            named(files.drop_last(), name)
        },
{
    reveal(Seq::filter);
}

/// A file that is inserted behind files of lesser names only becomes the
/// first of its name, and changes nothing for the other names.
pub proof fn lemma_named_insert(files: Seq<FileInfo>, pos: int, f: FileInfo, name: Seq<char>)
    requires
        0 <= pos <= files.len(),
        forall|k: int| 0 <= k < pos ==> !name_le(f.name@, #[trigger] files[k].name@),
    ensures
        named(files.insert(pos, f), name) == if f.name@ == name {
            seq![f] + named(files, name)
        } else {
            named(files, name)
        },
{
    let a = files.subrange(0, pos);
    let b = files.subrange(pos, files.len() as int);
    let pred = |x: FileInfo| x.name@ == name;
    assert(files =~= a + b);
    assert(files.insert(pos, f) =~= a.push(f) + b);
    Seq::filter_distributes_over_add(a, b, pred);
    Seq::filter_distributes_over_add(a.push(f), b, pred);
    assert(a.push(f).drop_last() =~= a);
    lemma_named_last(a.push(f), name);
    if f.name@ == name {
        assert forall|i: int| 0 <= i < a.len() implies (#[trigger] a[i]).name@ != name by {
            assert(a[i] == files[i]);
            lemma_bytes_le_total(
                vstd::utf8::encode_utf8(f.name@),
                vstd::utf8::encode_utf8(f.name@),
            );
        }
        lemma_named_none(a, name);
        assert(named(a, name).push(f) + named(b, name) =~= seq![f] + (named(a, name) + named(
            b,
            name,
        )));
    }
}

/// The last dot of a name lies inside the name, and is a dot.
pub proof fn lemma_last_dot(name: Seq<char>)
    ensures
        -1 <= last_dot(name) < name.len(),
        last_dot(name) >= 0 ==> name[last_dot(name)] == '.',
    decreases name.len(),
{
    if name.len() > 0 && name.last() != '.' {
        lemma_last_dot(name.drop_last());
    }
}

/// The digits of a number hold no slash.
pub proof fn lemma_decimal_is_plain(n: nat)
    ensures
        is_plain_name(decimal(n)),
    decreases n,
{
    if n >= 10 {
        lemma_decimal_is_plain(n / 10);
        assert forall|i: int| 0 <= i < decimal(n).len() implies #[trigger] decimal(n)[i]
            != '/' by {
            if i < decimal(n / 10).len() {
                assert(decimal(n)[i] == decimal(n / 10)[i]);
            }
        }
    }
}

/// The first free numbered name of a stem and an extension without a slash
/// holds no slash.
pub proof fn lemma_numbered_choice_is_plain(
    stem: Seq<char>,
    suffix: Seq<char>,
    taken: Seq<Seq<char>>,
    from: nat,
    limit: nat,
)
    requires
        is_plain_name(stem),
        is_plain_name(suffix),
    ensures
        numbered_choice(stem, suffix, taken, from, limit) matches Some(chosen) ==> is_plain_name(
            chosen.0,
        ),
    decreases limit + 1 - from,
{
    if from <= limit {
        if !is_taken(taken, numbered(stem, suffix, from)) {
            lemma_decimal_is_plain(from);
            reveal_strlit("_");
            reveal_strlit(".");
            let name = numbered(stem, suffix, from);
            assert forall|i: int| 0 <= i < name.len() implies #[trigger] name[i] != '/' by {
                let a = stem.len();
                let b = a + 1;
                let c = b + decimal(from).len();
                if i < a {
                    assert(name[i] == stem[i]);
                } else if i < b {
                    assert(name[i] == '_');
                } else if i < c {
                    assert(name[i] == decimal(from)[i - b]);
                } else if i < c + 1 {
                    assert(name[i] == '.');
                } else {
                    assert(name[i] == suffix[i - c - 1]);
                }
            }
        } else {
            lemma_numbered_choice_is_plain(stem, suffix, taken, from + 1, limit);
        }
    }
}

/// No directory finds its way into the name that a file is saved under: a
/// requested name without a slash is saved under a name without a slash,
/// whatever the directory holds.
pub proof fn law_chosen_name_is_plain(safe_name: Seq<char>, taken: Seq<Seq<char>>, limit: nat)
    requires
        is_plain_name(safe_name),
    ensures
        chosen_name(safe_name, taken, limit) matches Some(chosen) ==> is_plain_name(chosen.0),
{
    reveal_strlit("txt");
    lemma_last_dot(safe_name);
    let stem = stem_of(safe_name);
    let suffix = suffix_or_default(extension_of(safe_name));
    assert(is_plain_name(stem)) by {
        assert forall|i: int| 0 <= i < stem.len() implies #[trigger] stem[i] != '/' by {
            assert(stem[i] == safe_name[i]);
        }
    }
    assert(is_plain_name(suffix)) by {
        if has_extension(safe_name) {
            assert forall|i: int| 0 <= i < suffix.len() implies #[trigger] suffix[i] != '/' by {
                assert(suffix[i] == safe_name[last_dot(safe_name) + 1 + i]);
            }
        }
    }
    lemma_numbered_choice_is_plain(stem, suffix, taken, 1, limit);
}

} // verus!
