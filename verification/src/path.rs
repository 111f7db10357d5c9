//! Path algebra on byte strings.
//!
//! A path is a sequence of bytes in which `/` separates components. The
//! functions here split a path into parent, file name, stem and extension,
//! join two paths, and strip a root directory from the front of a path.
//! Separators that follow one another count as one where a root is stripped.

use vstd::prelude::*;
use vstd::slice::slice_subrange;
use vstd::string::StringSliceAdditionalSpecFns;

verus! {

/// The byte `/`, which separates the components of a path.
pub const SEPARATOR: u8 = 47;

/// The byte `.`, which separates a file stem from its extension.
pub const DOT: u8 = 46;

/// The bytes of a text.
pub open spec fn bytes_of(s: &str) -> Seq<u8> {
    s.spec_bytes()
}

/// The greatest index at which `b` occurs in `s`, or `-1` if it does not occur.
pub open spec fn last_index_of(s: Seq<u8>, b: u8) -> int
    decreases s.len(),
{
    if s.len() == 0 {
        -1
    } else if s.last() == b {
        s.len() - 1
    } else {
        last_index_of(s.drop_last(), b)
    }
}

/// `last_index_of` is in range, points at an occurrence, and nothing after it
/// is an occurrence.
pub proof fn lemma_last_index_of(s: Seq<u8>, b: u8)
    ensures
        -1 <= last_index_of(s, b) < s.len(),
        last_index_of(s, b) >= 0 ==> s[last_index_of(s, b)] == b,
        forall|j: int| last_index_of(s, b) < j < s.len() ==> s[j] != b,
    decreases s.len(),
{
    if s.len() > 0 && s.last() != b {
        let t = s.drop_last();
        lemma_last_index_of(t, b);
        assert forall|j: int| last_index_of(s, b) < j < s.len() implies s[j] != b by {
            if j < t.len() {
                assert(t[j] == s[j]);
            }
        }
    }
}

/// An index that holds `b` with no later occurrence of `b` is the last index.
pub proof fn lemma_last_index_of_unique(s: Seq<u8>, b: u8, i: int)
    requires
        0 <= i < s.len(),
        s[i] == b,
        forall|j: int| i < j < s.len() ==> s[j] != b,
    ensures
        last_index_of(s, b) == i,
{
    lemma_last_index_of(s, b);
}

/// Whether `b` occurs nowhere in `s`.
pub open spec fn is_free_of(s: Seq<u8>, b: u8) -> bool {
    forall|i: int| 0 <= i < s.len() ==> s[i] != b
}

/// Appending a part without `b` leaves the last index of `b` where it was.
pub proof fn lemma_last_index_of_append(a: Seq<u8>, tail: Seq<u8>, b: u8)
    requires
        is_free_of(tail, b),
    ensures
        last_index_of(a + tail, b) == last_index_of(a, b),
    decreases tail.len(),
{
    if tail.len() == 0 {
        assert(a + tail =~= a);
    } else {
        let whole = a + tail;
        assert(whole.last() == tail.last());
        assert(whole.drop_last() =~= a + tail.drop_last());
        lemma_last_index_of_append(a, tail.drop_last(), b);
    }
}

/// The bytes after the last separator: the whole path if it has none.
pub open spec fn file_name(p: Seq<u8>) -> Seq<u8> {
    p.skip(last_index_of(p, SEPARATOR) + 1)
}

/// The path without its last component. A single name has the empty parent;
/// a name directly under the root directory has the parent `/`.
pub open spec fn parent(p: Seq<u8>) -> Seq<u8> {
    let i = last_index_of(p, SEPARATOR);
    if i < 0 {
        Seq::empty()
    } else if i == 0 {
        p.take(1)
    } else {
        p.take(i)
    }
}

/// The index in the file name of the dot that starts the extension, if any.
/// A dot at the very start of the name starts no extension.
pub open spec fn extension_dot(p: Seq<u8>) -> Option<int> {
    let d = last_index_of(file_name(p), DOT);
    if d <= 0 {
        None
    } else {
        Some(d)
    }
}

/// The bytes of the file name after its last dot, where that dot is not the
/// first byte of the name.
pub open spec fn extension(p: Seq<u8>) -> Option<Seq<u8>> {
    match extension_dot(p) {
        Some(d) => Some(file_name(p).skip(d + 1)),
        None => None,
    }
}

/// The file name without its extension and the dot before it.
pub open spec fn file_stem(p: Seq<u8>) -> Seq<u8> {
    match extension_dot(p) {
        Some(d) => file_name(p).take(d),
        None => file_name(p),
    }
}

/// `b` appended to `a` as a further component. An empty side leaves the other
/// unchanged, and an absolute `b` replaces `a`.
pub open spec fn join(a: Seq<u8>, b: Seq<u8>) -> Seq<u8> {
    if b.len() == 0 {
        a
    } else if a.len() == 0 || b[0] == SEPARATOR {
        b
    } else if a.last() == SEPARATOR {
        a + b
    } else {
        a + seq![SEPARATOR] + b
    }
}

/// Whether `prefix` is an initial segment of `s`.
pub open spec fn starts_with(s: Seq<u8>, prefix: Seq<u8>) -> bool {
    prefix.len() <= s.len() && s.take(prefix.len() as int) == prefix
}

/// Whether `suffix` is a final segment of `s`.
pub open spec fn ends_with(s: Seq<u8>, suffix: Seq<u8>) -> bool {
    suffix.len() <= s.len() && s.skip(s.len() - suffix.len()) == suffix
}

/// `s` without the bytes `b` at its front.
pub open spec fn trim_leading(s: Seq<u8>, b: u8) -> Seq<u8>
    decreases s.len(),
{
    if s.len() > 0 && s[0] == b {
        trim_leading(s.skip(1), b)
    } else {
        s
    }
}

/// `s` without the bytes `b` at its end.
pub open spec fn trim_trailing(s: Seq<u8>, b: u8) -> Seq<u8>
    decreases s.len(),
{
    if s.len() > 0 && s.last() == b {
        trim_trailing(s.drop_last(), b)
    } else {
        s
    }
}

/// Whether a path is relative: it begins with no separator. The empty path
/// is relative.
pub open spec fn is_relative(p: Seq<u8>) -> bool {
    p.len() == 0 || p[0] != SEPARATOR
}

/// Whether the root ends where a component of the path ends: the root ends
/// with a separator, or `rest`, what follows the root in the path, begins
/// with one. After the empty root only a relative path may follow.
pub open spec fn ends_at_component(root: Seq<u8>, rest: Seq<u8>) -> bool {
    if root.len() == 0 {
        is_relative(rest)
    } else {
        root.last() == SEPARATOR || (rest.len() > 0 && rest[0] == SEPARATOR)
    }
}

/// The path of `p` relative to the directory `root`, if `p` lies strictly
/// below it: what follows the root and every separator after it. The result
/// is never empty and begins with no separator. Below the empty root lies
/// every relative path that is not empty.
pub open spec fn strip_root(p: Seq<u8>, root: Seq<u8>) -> Option<Seq<u8>> {
    let rest = p.skip(root.len() as int);
    let rel = trim_leading(rest, SEPARATOR);
    if starts_with(p, root) && rel.len() > 0 && ends_at_component(root, rest) {
        Some(rel)
    } else {
        None
    }
}

/// Whether `p` lies strictly below the directory `root`.
pub open spec fn is_under(p: Seq<u8>, root: Seq<u8>) -> bool {
    strip_root(p, root) is Some
}

/// The path with the extension of its file name replaced by `ext`, or with
/// `ext` added where the file name has none.
pub open spec fn with_extension(p: Seq<u8>, ext: Seq<u8>) -> Seq<u8> {
    join(parent(p), file_stem(p) + seq![DOT] + ext)
}

/// A file name holds no separator.
pub proof fn lemma_file_name_is_one_component(p: Seq<u8>)
    ensures
        is_free_of(file_name(p), SEPARATOR),
{
    lemma_last_index_of(p, SEPARATOR);
}

/// Joining a single, non-empty component onto a path makes it the file name.
pub proof fn lemma_file_name_of_join(dir: Seq<u8>, name: Seq<u8>)
    requires
        name.len() > 0,
        is_free_of(name, SEPARATOR),
    ensures
        file_name(join(dir, name)) == name,
{
    let joined = join(dir, name);
    if dir.len() == 0 {
        lemma_last_index_of(name, SEPARATOR);
        assert(name.skip(0) =~= name);
    } else if dir.last() == SEPARATOR {
        lemma_last_index_of_append(dir, name, SEPARATOR);
        lemma_last_index_of_unique(dir, SEPARATOR, dir.len() - 1);
        assert(joined.skip(dir.len() as int) =~= name);
    } else {
        let front = dir + seq![SEPARATOR];
        lemma_last_index_of_append(front, name, SEPARATOR);
        assert(front.last() == SEPARATOR);
        assert(joined =~= front + name);
        assert(joined.skip(front.len() as int) =~= name);
    }
}

/// A name made of a non-empty stem, a dot and an extension without dot has
/// that stem and that extension.
pub proof fn lemma_stem_and_extension(dir: Seq<u8>, stem: Seq<u8>, ext: Seq<u8>)
    requires
        stem.len() > 0,
        is_free_of(stem, SEPARATOR),
        is_free_of(ext, SEPARATOR),
        is_free_of(ext, DOT),
    ensures
        file_name(join(dir, stem + seq![DOT] + ext)) == stem + seq![DOT] + ext,
        file_stem(join(dir, stem + seq![DOT] + ext)) == stem,
        extension(join(dir, stem + seq![DOT] + ext)) == Some(ext),
{
    let front = stem + seq![DOT];
    let name = front + ext;
    lemma_file_name_of_join(dir, name);
    lemma_last_index_of_append(front, ext, DOT);
    assert(front.last() == DOT);
    assert(last_index_of(name, DOT) == stem.len());
    assert(name.take(stem.len() as int) =~= stem);
    assert(name.skip(stem.len() as int + 1) =~= ext);
}

/// What is left after trimming is the end of the sequence, is no longer
/// than it, and does not begin with the trimmed byte.
pub proof fn lemma_trim_leading(s: Seq<u8>, b: u8)
    ensures
        trim_leading(s, b).len() <= s.len(),
        trim_leading(s, b) == s.skip(s.len() - trim_leading(s, b).len()),
        trim_leading(s, b).len() > 0 ==> trim_leading(s, b)[0] != b,
        s.len() > 0 && s[0] != b ==> trim_leading(s, b) == s,
        forall|i: int| 0 <= i < s.len() - trim_leading(s, b).len() ==> s[i] == b,
    decreases s.len(),
{
    if s.len() > 0 && s[0] == b {
        let t = s.skip(1);
        lemma_trim_leading(t, b);
        let kept = trim_leading(t, b);
        assert(t.skip(t.len() - kept.len()) =~= s.skip(s.len() - kept.len()));
        assert forall|i: int| 0 <= i < s.len() - kept.len() implies s[i] == b by {
            if i > 0 {
                assert(t[i - 1] == s[i]);
            }
        }
    } else {
        assert(s.skip(0) =~= s);
    }
}

/// A relative path that is not empty, joined onto a root, lies below that
/// root, at that relative path.
pub proof fn lemma_strip_root_of_join(root: Seq<u8>, rel: Seq<u8>)
    requires
        rel.len() > 0,
        is_relative(rel),
    ensures
        strip_root(join(root, rel), root) == Some(rel),
        is_under(join(root, rel), root),
{
    let joined = join(root, rel);
    let rest = joined.skip(root.len() as int);
    lemma_trim_leading(rel, SEPARATOR);
    assert(trim_leading(rel, SEPARATOR) == rel);
    assert(joined.take(root.len() as int) =~= root);
    if root.len() == 0 || root.last() == SEPARATOR {
        assert(rest =~= rel);
    } else {
        assert(rest =~= seq![SEPARATOR] + rel);
        assert(rest[0] == SEPARATOR);
        assert(rest.skip(1) =~= rel);
        assert(trim_leading(rest, SEPARATOR) == trim_leading(rest.skip(1), SEPARATOR));
    }
}

/// The path of a file relative to a root above it is not empty, begins with
/// no separator and is the end of the file's path, which begins with the
/// root.
pub proof fn lemma_strip_root_is_relative(p: Seq<u8>, root: Seq<u8>)
    requires
        strip_root(p, root) is Some,
    ensures
        strip_root(p, root)->0.len() > 0,
        is_relative(strip_root(p, root)->0),
        ends_with(p, strip_root(p, root)->0),
        starts_with(p, root),
{
    let rest = p.skip(root.len() as int);
    let rel = strip_root(p, root)->0;
    lemma_trim_leading(rest, SEPARATOR);
    assert(rest.skip(rest.len() - rel.len()) =~= p.skip(p.len() - rel.len()));
}

/// The parent of a relative path is relative.
pub proof fn lemma_parent_is_relative(p: Seq<u8>)
    requires
        is_relative(p),
    ensures
        is_relative(parent(p)),
{
    lemma_last_index_of(p, SEPARATOR);
}

/// Joining relative paths gives a relative path, which is empty only if both
/// are.
pub proof fn lemma_join_is_relative(a: Seq<u8>, b: Seq<u8>)
    requires
        is_relative(a),
        is_relative(b),
    ensures
        is_relative(join(a, b)),
        join(a, b).len() == 0 <==> a.len() == 0 && b.len() == 0,
{
}

/// Joining relative paths onto a path one after another is joining their
/// join onto it.
pub proof fn lemma_join_is_associative(a: Seq<u8>, b: Seq<u8>, c: Seq<u8>)
    requires
        is_relative(b),
        is_relative(c),
    ensures
        join(join(a, b), c) == join(a, join(b, c)),
{
    if a.len() > 0 && b.len() > 0 && c.len() > 0 {
        let ab = join(a, b);
        let bc = join(b, c);
        assert(ab.last() == b.last());
        assert(bc[0] == b[0]);
        assert(join(ab, c) =~= join(a, bc));
    }
}

/// Finds the last occurrence of a byte.
pub fn find_last(s: &[u8], b: u8) -> (r: Option<usize>)
    ensures
        match r {
            Some(i) => i as int == last_index_of(s@, b),
            None => last_index_of(s@, b) == -1,
        },
{
    let mut i: usize = s.len();
    assert(s@.take(i as int) =~= s@);
    while i > 0
        invariant
            i <= s.len(),
            last_index_of(s@, b) == last_index_of(s@.take(i as int), b),
        decreases i,
    {
        if s[i - 1] == b {
            assert(s@.take(i as int).last() == b);
            return Some(i - 1);
        }
        assert(s@.take(i as int).drop_last() =~= s@.take(i as int - 1));
        i = i - 1;
    }
    assert(s@.take(0).len() == 0);
    None
}

/// Copies a range of a byte slice into a new vector.
pub fn copy_range(s: &[u8], from: usize, to: usize) -> (r: Vec<u8>)
    requires
        from <= to <= s.len(),
    ensures
        r@ == s@.subrange(from as int, to as int),
{
    let mut out: Vec<u8> = Vec::new();
    out.extend_from_slice(slice_subrange(s, from, to));
    assert(out@ =~= s@.subrange(from as int, to as int));
    out
}

/// Appends a byte slice to a vector.
pub fn append(v: &mut Vec<u8>, s: &[u8])
    ensures
        final(v)@ == old(v)@ + s@,
{
    v.extend_from_slice(s);
    assert(v@ =~= old(v)@ + s@);
}

/// Whether two byte strings hold the same bytes.
pub fn bytes_eq(a: &[u8], b: &[u8]) -> (r: bool)
    ensures
        r == (a@ == b@),
{
    if a.len() != b.len() {
        return false;
    }
    let mut i: usize = 0;
    while i < a.len()
        invariant
            i <= a.len(),
            a.len() == b.len(),
            forall|j: int| 0 <= j < i ==> a@[j] == b@[j],
        decreases a.len() - i,
    {
        if a[i] != b[i] {
            return false;
        }
        i = i + 1;
    }
    assert(a@ =~= b@);
    true
}

/// Whether `s` begins with `prefix`.
pub fn has_prefix(s: &[u8], prefix: &[u8]) -> (r: bool)
    ensures
        r == starts_with(s@, prefix@),
{
    if prefix.len() > s.len() {
        return false;
    }
    let head = slice_subrange(s, 0, prefix.len());
    assert(head@ =~= s@.take(prefix@.len() as int));
    bytes_eq(head, prefix)
}

/// Whether `s` ends with `suffix`.
pub fn has_suffix(s: &[u8], suffix: &[u8]) -> (r: bool)
    ensures
        r == ends_with(s@, suffix@),
{
    if suffix.len() > s.len() {
        return false;
    }
    let tail = slice_subrange(s, s.len() - suffix.len(), s.len());
    assert(tail@ =~= s@.skip(s@.len() - suffix@.len()));
    bytes_eq(tail, suffix)
}

/// Copies `s` without the bytes `b` at its front.
pub fn trim_leading_bytes(s: &[u8], b: u8) -> (r: Vec<u8>)
    ensures
        r@ == trim_leading(s@, b),
{
    let mut i: usize = 0;
    assert(s@.skip(0) =~= s@);
    while i < s.len() && s[i] == b
        invariant
            i <= s.len(),
            trim_leading(s@, b) == trim_leading(s@.skip(i as int), b),
        decreases s.len() - i,
    {
        assert(s@.skip(i as int).skip(1) =~= s@.skip(i as int + 1));
        i = i + 1;
    }
    let r = copy_range(s, i, s.len());
    assert(r@ =~= s@.skip(i as int));
    r
}

/// Copies `s` without the bytes `b` at its end.
pub fn trim_trailing_bytes(s: &[u8], b: u8) -> (r: Vec<u8>)
    ensures
        r@ == trim_trailing(s@, b),
{
    let mut n: usize = s.len();
    assert(s@.take(n as int) =~= s@);
    while n > 0 && s[n - 1] == b
        invariant
            n <= s.len(),
            trim_trailing(s@, b) == trim_trailing(s@.take(n as int), b),
        decreases n,
    {
        assert(s@.take(n as int).drop_last() =~= s@.take(n as int - 1));
        n = n - 1;
    }
    copy_range(s, 0, n)
}

/// The bytes after the last separator.
pub fn get_file_name(p: &[u8]) -> (r: Vec<u8>)
    ensures
        r@ == file_name(p@),
{
    proof {
        lemma_last_index_of(p@, SEPARATOR);
    }
    let n: usize = p.len();
    let start: usize = match find_last(p, SEPARATOR) {
        Some(i) => {
            assert(i < n);
            i + 1
        },
        None => 0,
    };
    let r = copy_range(p, start, n);
    assert(r@ =~= file_name(p@));
    r
}

/// The path without its last component.
pub fn get_parent(p: &[u8]) -> (r: Vec<u8>)
    ensures
        r@ == parent(p@),
{
    proof {
        lemma_last_index_of(p@, SEPARATOR);
    }
    let r = match find_last(p, SEPARATOR) {
        None => Vec::new(),
        Some(i) => if i == 0 {
            copy_range(p, 0, 1)
        } else {
            copy_range(p, 0, i)
        },
    };
    assert(r@ =~= parent(p@));
    r
}

/// The extension of the file name, if it has one.
pub fn get_extension(p: &[u8]) -> (r: Option<Vec<u8>>)
    ensures
        match r {
            Some(e) => extension(p@) == Some(e@),
            None => extension(p@) is None,
        },
{
    let name = get_file_name(p);
    proof {
        lemma_last_index_of(name@, DOT);
    }
    match find_last(name.as_slice(), DOT) {
        Some(d) => if d == 0 {
            None
        } else {
            let n: usize = name.len();
            assert(d < n);
            let e = copy_range(name.as_slice(), d + 1, n);
            assert(e@ =~= name@.skip(d as int + 1));
            Some(e)
        },
        None => None,
    }
}

/// The file name without its extension.
pub fn get_file_stem(p: &[u8]) -> (r: Vec<u8>)
    ensures
        r@ == file_stem(p@),
{
    let name = get_file_name(p);
    proof {
        lemma_last_index_of(name@, DOT);
    }
    match find_last(name.as_slice(), DOT) {
        Some(d) => if d == 0 {
            name
        } else {
            let s = copy_range(name.as_slice(), 0, d);
            assert(s@ =~= name@.take(d as int));
            s
        },
        None => name,
    }
}

/// Joins two paths.
pub fn join_paths(a: &[u8], b: &[u8]) -> (r: Vec<u8>)
    ensures
        r@ == join(a@, b@),
{
    let mut out: Vec<u8> = Vec::new();
    if b.len() == 0 {
        append(&mut out, a);
        assert(out@ =~= a@);
    } else if a.len() == 0 || b[0] == SEPARATOR {
        append(&mut out, b);
        assert(out@ =~= b@);
    } else {
        append(&mut out, a);
        if a[a.len() - 1] != SEPARATOR {
            out.push(SEPARATOR);
        }
        append(&mut out, b);
        assert(out@ =~= join(a@, b@));
    }
    out
}

/// The path relative to `root`, if `p` lies strictly below it.
pub fn strip_root_prefix(p: &[u8], root: &[u8]) -> (r: Option<Vec<u8>>)
    ensures
        match r {
            Some(rel) => strip_root(p@, root@) == Some(rel@),
            None => strip_root(p@, root@) is None,
        },
{
    if !has_prefix(p, root) {
        return None;
    }
    let n: usize = root.len();
    let rest = slice_subrange(p, n, p.len());
    assert(rest@ =~= p@.skip(n as int));
    let rel = trim_leading_bytes(rest, SEPARATOR);
    proof {
        lemma_trim_leading(rest@, SEPARATOR);
    }
    if rel.len() == 0 {
        return None;
    }
    let at_component = if n == 0 {
        rest[0] != SEPARATOR
    } else {
        root[n - 1] == SEPARATOR || rest[0] == SEPARATOR
    };
    if at_component {
        Some(rel)
    } else {
        None
    }
}

/// Whether `p` lies strictly below the directory `root`.
pub fn lies_under(p: &[u8], root: &[u8]) -> (r: bool)
    ensures
        r == is_under(p@, root@),
{
    strip_root_prefix(p, root).is_some()
}

/// Replaces the extension of the file name, or adds one.
pub fn replace_extension(p: &[u8], ext: &[u8]) -> (r: Vec<u8>)
    ensures
        r@ == with_extension(p@, ext@),
{
    let mut name = get_file_stem(p);
    name.push(DOT);
    append(&mut name, ext);
    assert(name@ =~= file_stem(p@) + seq![DOT] + ext@);
    let dir = get_parent(p);
    join_paths(dir.as_slice(), name.as_slice())
}

} // verus!
