//! The key under which a path is looked up: two spellings of one path have
//! one key. As `std::path::Path::components` documents it for Unix paths,
//! repeated separators are ignored, a trailing separator is dropped, and `.`
//! segments are dropped except at the start of a relative path. The key is a
//! leading `/` for an absolute path, followed by the remaining segments joined
//! by single `/`.
use vstd::prelude::*;

verus! {

/// The state of a left-to-right reading of a path: the key text of the
/// segments read so far, the segment being read, and whether it is the
/// path's first segment.
pub struct KeyScan {
    pub out: Seq<char>,
    pub seg: Seq<char>,
    pub first: bool,
}

/// A segment counts when it is not empty and is not `.`, except that a
/// leading `.` counts.
pub open spec fn keeps_segment(seg: Seq<char>, first: bool) -> bool {
    seg.len() > 0 && (seg != seq!['.'] || first)
}

/// The key text after a segment has been read to its end.
pub open spec fn flush(out: Seq<char>, seg: Seq<char>, first: bool) -> Seq<char> {
    if keeps_segment(seg, first) {
        if out.len() == 0 {
            seg
        } else {
            out + seq!['/'] + seg
        }
    } else {
        out
    }
}

/// Reading one more character.
pub open spec fn scan_step(st: KeyScan, c: char) -> KeyScan {
    if c == '/' {
        KeyScan { out: flush(st.out, st.seg, st.first), seg: Seq::empty(), first: false }
    } else {
        KeyScan { out: st.out, seg: st.seg.push(c), first: st.first }
    }
}

/// Reading the characters of `s` from the state `st`.
pub open spec fn scan_from(st: KeyScan, s: Seq<char>) -> KeyScan
    decreases s.len(),
{
    if s.len() == 0 {
        st
    } else {
        scan_step(scan_from(st, s.drop_last()), s.last())
    }
}

/// The state before anything has been read.
pub open spec fn scan_start() -> KeyScan {
    KeyScan { out: Seq::empty(), seg: Seq::empty(), first: true }
}

/// Whether the path is absolute.
pub open spec fn is_absolute(s: Seq<char>) -> bool {
    s.len() > 0 && s[0] == '/'
}

/// The key of a path.
pub open spec fn spec_path_key(s: Seq<char>) -> Seq<char> {
    let st = scan_from(scan_start(), s);
    (if is_absolute(s) { seq!['/'] } else { Seq::<char>::empty() }) + flush(st.out, st.seg, st.first)
}

/// Reading `a` and then `b` is reading `a + b`.
pub proof fn lemma_scan_concat(st: KeyScan, a: Seq<char>, b: Seq<char>)
    ensures
        scan_from(st, a + b) == scan_from(scan_from(st, a), b),
    decreases b.len(),
{
    if b.len() == 0 {
        assert(a + b =~= a);
    } else {
        assert((a + b).drop_last() =~= a + b.drop_last());
        lemma_scan_concat(st, a, b.drop_last());
    }
}

/// Reading a second separator right after one changes nothing.
proof fn lemma_scan_double_separator(st: KeyScan)
    ensures
        scan_from(st, seq!['/', '/']) == scan_from(st, seq!['/']),
{
    assert(seq!['/', '/'].drop_last() =~= seq!['/']);
    assert(seq!['/'].drop_last() =~= Seq::<char>::empty());
    let one = scan_step(st, '/');
    assert(scan_step(one, '/') == one);
}

/// Reading `./` right after a separator changes nothing.
proof fn lemma_scan_current_dir(st: KeyScan)
    ensures
        scan_from(st, seq!['/', '.', '/']) == scan_from(st, seq!['/']),
{
    assert(seq!['/', '.', '/'].drop_last() =~= seq!['/', '.']);
    assert(seq!['/', '.'].drop_last() =~= seq!['/']);
    assert(seq!['/'].drop_last() =~= Seq::<char>::empty());
    let one = scan_step(st, '/');
    let two = scan_step(one, '.');
    assert(scan_from(st, Seq::<char>::empty()) == st);
    assert(scan_from(st, seq!['/']) == one);
    assert(scan_from(st, seq!['/', '.']) == two);
    assert(two.seg =~= seq!['.']);
    assert(!keeps_segment(two.seg, two.first));
    assert(scan_step(two, '/') == one);
}

/// A separator written twice is one separator.
pub proof fn law_path_key_double_separator(a: Seq<char>, b: Seq<char>)
    ensures
        spec_path_key(a + seq!['/', '/'] + b) == spec_path_key(a + seq!['/'] + b),
{
    let s2 = a + seq!['/', '/'] + b;
    let s1 = a + seq!['/'] + b;
    lemma_scan_concat(scan_start(), a + seq!['/', '/'], b);
    lemma_scan_concat(scan_start(), a + seq!['/'], b);
    lemma_scan_concat(scan_start(), a, seq!['/', '/']);
    lemma_scan_concat(scan_start(), a, seq!['/']);
    lemma_scan_double_separator(scan_from(scan_start(), a));
    assert(is_absolute(s2) == is_absolute(s1)) by {
        if a.len() > 0 {
            assert(s2[0] == a[0] && s1[0] == a[0]);
        } else {
            assert(s2[0] == '/' && s1[0] == '/');
        }
    }
}

/// A trailing separator does not change the key of a non-empty path.
pub proof fn law_path_key_trailing_separator(a: Seq<char>)
    requires
        a.len() > 0,
    ensures
        spec_path_key(a + seq!['/']) == spec_path_key(a),
{
    assert((a + seq!['/']).drop_last() =~= a);
    assert((a + seq!['/'])[0] == a[0]);
}

/// A `.` segment after a separator does not change the key.
pub proof fn law_path_key_current_dir(a: Seq<char>, b: Seq<char>)
    ensures
        spec_path_key(a + seq!['/', '.', '/'] + b) == spec_path_key(a + seq!['/'] + b),
{
    let s3 = a + seq!['/', '.', '/'] + b;
    let s1 = a + seq!['/'] + b;
    lemma_scan_concat(scan_start(), a + seq!['/', '.', '/'], b);
    lemma_scan_concat(scan_start(), a + seq!['/'], b);
    lemma_scan_concat(scan_start(), a, seq!['/', '.', '/']);
    lemma_scan_concat(scan_start(), a, seq!['/']);
    lemma_scan_current_dir(scan_from(scan_start(), a));
    assert(is_absolute(s3) == is_absolute(s1)) by {
        if a.len() > 0 {
            assert(s3[0] == a[0] && s1[0] == a[0]);
        } else {
            assert(s3[0] == '/' && s1[0] == '/');
        }
    }
}

/// The shape that every reading keeps: the segment being read holds no `/`,
/// and the key text does not end in `/`.
pub open spec fn scan_shape(st: KeyScan) -> bool {
    &&& !st.seg.contains('/')
    &&& (st.out.len() == 0 || st.out.last() != '/')
}

/// Flushing a well-shaped reading gives key text that does not end in `/`.
proof fn lemma_flush_shape(st: KeyScan)
    requires
        scan_shape(st),
    ensures
        ({
            let body = flush(st.out, st.seg, st.first);
            body.len() == 0 || body.last() != '/'
        }),
{
    if keeps_segment(st.seg, st.first) {
        let last = st.seg.len() - 1;
        if st.seg[last] == '/' {
            assert(st.seg.contains('/'));
        }
    }
}

/// Every reading from the start is well shaped.
proof fn lemma_scan_shape(s: Seq<char>)
    ensures
        scan_shape(scan_from(scan_start(), s)),
    decreases s.len(),
{
    if s.len() > 0 {
        lemma_scan_shape(s.drop_last());
        let st = scan_from(scan_start(), s.drop_last());
        let c = s.last();
        if c == '/' {
            lemma_flush_shape(st);
            assert(!Seq::<char>::empty().contains('/'));
        } else {
            assert forall|i: int| 0 <= i < st.seg.push(c).len() implies st.seg.push(c)[i] != '/' by {
                if i < st.seg.len() {
                    assert(st.seg.push(c)[i] == st.seg[i]);
                    if st.seg[i] == '/' {
                        assert(st.seg.contains('/'));
                    }
                }
            }
        }
    }
}

/// Reading characters that hold no `/` only extends the segment being read.
proof fn lemma_scan_segment(st: KeyScan, x: Seq<char>)
    requires
        !x.contains('/'),
    ensures
        scan_from(st, x) == (KeyScan { out: st.out, seg: st.seg + x, first: st.first }),
    decreases x.len(),
{
    if x.len() == 0 {
        assert(st.seg + x =~= st.seg);
    } else {
        let init = x.drop_last();
        assert(!init.contains('/')) by {
            if init.contains('/') {
                let i = choose|i: int| 0 <= i < init.len() && init[i] == '/';
                assert(x[i] == '/');
            }
        }
        lemma_scan_segment(st, init);
        if x.last() == '/' {
            assert(x[x.len() - 1] == '/');
        }
        assert((st.seg + init).push(x.last()) =~= st.seg + x);
    }
}

/// A plain path segment: not empty, no `/`, and not `.`.
pub open spec fn is_plain_segment(x: Seq<char>) -> bool {
    x.len() > 0 && !x.contains('/') && x != seq!['.']
}

/// A plain segment is its own key, with or without a leading `/`.
pub proof fn law_path_key_single_segment(x: Seq<char>)
    requires
        is_plain_segment(x),
    ensures
        spec_path_key(x) == x,
        spec_path_key(seq!['/'] + x) == seq!['/'] + x,
{
    lemma_scan_segment(scan_start(), x);
    assert(Seq::<char>::empty() + x =~= x);
    if x[0] == '/' {
        assert(x.contains('/'));
    }
    lemma_scan_concat(scan_start(), seq!['/'], x);
    assert(seq!['/'].drop_last() =~= Seq::<char>::empty());
    let after = scan_from(scan_start(), seq!['/']);
    assert(scan_from(scan_start(), Seq::<char>::empty()) == scan_start());
    assert(seq!['/'].last() == '/');
    assert(after.out =~= Seq::<char>::empty() && after.seg =~= Seq::<char>::empty() && !after.first);
    lemma_scan_segment(after, x);
    assert((seq!['/'] + x)[0] == '/');
}

/// The key of a path extended by a plain segment is the key of the path
/// joined with that segment.
pub proof fn law_path_key_extends(a: Seq<char>, x: Seq<char>)
    requires
        a.len() > 0,
        is_plain_segment(x),
    ensures
        spec_path_key(a + seq!['/'] + x) == crate::paths::joined_path(spec_path_key(a), x),
{
    let st = scan_from(scan_start(), a);
    let body = flush(st.out, st.seg, st.first);
    lemma_scan_shape(a);
    lemma_flush_shape(st);
    lemma_scan_concat(scan_start(), a + seq!['/'], x);
    lemma_scan_concat(scan_start(), a, seq!['/']);
    assert(seq!['/'].drop_last() =~= Seq::<char>::empty());
    let after = scan_from(st, seq!['/']);
    assert(scan_from(st, Seq::<char>::empty()) == st);
    assert(seq!['/'].last() == '/');
    assert(after.out =~= body && after.seg =~= Seq::<char>::empty() && !after.first);
    lemma_scan_segment(after, x);
    assert(Seq::<char>::empty() + x =~= x);
    assert((a + seq!['/'] + x)[0] == a[0]);
    if x[0] == '/' {
        assert(x.contains('/'));
    }
    let root = if is_absolute(a) { seq!['/'] } else { Seq::<char>::empty() };
    assert(spec_path_key(a) == root + body);
    if body.len() == 0 {
        assert(root + body =~= root);
        assert(root + x =~= root + (body + x)) by {
            assert(body + x =~= x);
        }
    } else {
        assert((root + body).last() == body.last());
        assert(root + (body + seq!['/'] + x) =~= root + body + seq!['/'] + x);
    }
}

/// Paths that differ only in a plain last segment have different keys.
pub proof fn law_path_key_distinguishes_segments(a: Seq<char>, x: Seq<char>, y: Seq<char>)
    requires
        a.len() > 0,
        is_plain_segment(x),
        is_plain_segment(y),
        x != y,
    ensures
        spec_path_key(a + seq!['/'] + x) != spec_path_key(a + seq!['/'] + y),
{
    law_path_key_extends(a, x);
    law_path_key_extends(a, y);
    let k = spec_path_key(a);
    if x[0] == '/' {
        assert(x.contains('/'));
    }
    if y[0] == '/' {
        assert(y.contains('/'));
    }
    if k.len() == 0 || k.last() == '/' {
        assert((k + x).skip(k.len() as int) =~= x);
        assert((k + y).skip(k.len() as int) =~= y);
    } else {
        assert((k + seq!['/'] + x).skip(k.len() + 1int) =~= x);
        assert((k + seq!['/'] + y).skip(k.len() + 1int) =~= y);
    }
}

/// Appends the segment `path[start..end]` to the key text when it counts.
fn flush_into(out: &mut String, path: &str, start: usize, end: usize, first: bool)
    requires
        start <= end <= path@.len(),
    ensures
        final(out)@ == flush(old(out)@, path@.subrange(start as int, end as int), first),
{
    let ghost seg = path@.subrange(start as int, end as int);
    let mut is_dot = false;
    if end - start == 1 {
        let c = path.get_char(start);
        assert(seg[0] == c);
        if c == '.' {
            is_dot = true;
            assert(seg =~= seq!['.']);
        }
    }
    assert(is_dot <==> seg == seq!['.']) by {
        if seg == seq!['.'] {
            assert(seg.len() == 1);
            assert(seg[0] == '.');
        }
    }
    if end > start && (!is_dot || first) {
        let text = path.substring_char(start, end);
        if out.as_str().is_empty() {
            out.append(text);
            assert(out@ =~= seg);
        } else {
            proof {
                reveal_strlit("/");
            }
            out.append("/");
            out.append(text);
        }
    }
}

/// The key of a path: its spellings that name the same path by their
/// components have the same key.
pub fn path_key(path: &str) -> (res: String)
    ensures
        res@ == spec_path_key(path@),
{
    let len = path.unicode_len();
    let mut out = String::new();
    let mut seg_start: usize = 0;
    let mut first = true;
    let mut i: usize = 0;
    assert(path@.take(0) =~= Seq::<char>::empty());
    assert(path@.subrange(0, 0) =~= Seq::<char>::empty());
    while i < len
        invariant
            i <= len,
            len == path@.len(),
            seg_start <= i,
            scan_from(scan_start(), path@.take(i as int)) == (KeyScan {
                out: out@,
                seg: path@.subrange(seg_start as int, i as int),
                first,
            }),
        decreases len - i,
    {
        let ghost before = scan_from(scan_start(), path@.take(i as int));
        let c = path.get_char(i);
        assert(path@.take(i + 1int).drop_last() =~= path@.take(i as int));
        assert(path@.take(i + 1int).last() == c);
        if c == '/' {
            flush_into(&mut out, path, seg_start, i, first);
            seg_start = i + 1;
            first = false;
            assert(path@.subrange(seg_start as int, i + 1int) =~= Seq::<char>::empty());
        } else {
            assert(path@.subrange(seg_start as int, i + 1int) =~= path@.subrange(
                seg_start as int,
                i as int,
            ).push(c));
        }
        i = i + 1;
    }
    assert(path@.take(len as int) =~= path@);
    flush_into(&mut out, path, seg_start, len, first);
    if len > 0 && path.get_char(0) == '/' {
        proof {
            reveal_strlit("/");
        }
        let mut key = String::from_str("/");
        key.append(out.as_str());
        key
    } else {
        assert(out@ =~= Seq::<char>::empty() + out@);
        out
    }
}

} // verus!
