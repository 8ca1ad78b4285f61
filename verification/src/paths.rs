use vstd::prelude::*;

verus! {

/// What `std::path::Path::join` gives for two Unix paths, as the
/// documentation of `PathBuf::push` describes it: a tail that is absolute
/// (starts with `/`) replaces the base; otherwise the tail is appended, with a
/// `/` between the two unless the base is empty or already ends in `/`.
pub open spec fn joined_path(base: Seq<char>, tail: Seq<char>) -> Seq<char> {
    if tail.len() > 0 && tail[0] == '/' {
        tail
    } else if base.len() == 0 || base.last() == '/' {
        base + tail
    } else {
        base + seq!['/'] + tail
    }
}

/// Calls `std::path::Path::join` and converts the path back to text, which
/// loses nothing for paths made from `str`. The contract is the documented
/// behaviour of `PathBuf::push` on Unix, where `/` is the only separator and
/// a path is absolute exactly when it starts with `/`.
#[verifier::external_body]
pub(crate) fn join_path(base: &str, tail: &str) -> (res: String)
    ensures
        res@ == joined_path(base@, tail@),
{
    std::path::Path::new(base).join(tail).to_string_lossy().into_owned()
}

/// Index of the last occurrence of `c` in `s`, or -1 when `c` does not occur.
pub open spec fn last_index_of(s: Seq<char>, c: char) -> int
    decreases s.len(),
{
    if s.len() == 0 {
        -1
    } else if s.last() == c {
        s.len() - 1
    } else {
        last_index_of(s.drop_last(), c)
    }
}

/// The split of a request path into a directory part and a file name:
/// the input is cut at its last `/`; the part before it loses one leading `/`,
/// the part after it is the file name. Without any `/` there is no split.
pub open spec fn spec_separate(input: Seq<char>) -> Option<(Seq<char>, Seq<char>)> {
    let k = last_index_of(input, '/');
    if k < 0 {
        None
    } else {
        let dir = input.take(k);
        let name = input.skip(k + 1);
        let rel = if dir.len() > 0 && dir[0] == '/' { dir.skip(1) } else { dir };
        Some((rel, name))
    }
}

/// `last_index_of` is the position `k` when `c` stands at `k` (or `k` is -1)
/// and does not occur after it.
pub proof fn lemma_last_index_of(s: Seq<char>, c: char, k: int)
    requires
        -1 <= k < s.len(),
        k >= 0 ==> s[k] == c,
        forall|j: int| k < j < s.len() ==> s[j] != c,
    ensures
        last_index_of(s, c) == k,
    decreases s.len(),
{
    if s.len() > 0 && k != s.len() - 1 {
        assert(s.last() != c);
        lemma_last_index_of(s.drop_last(), c, k);
    }
}

/// Position and absence facts about `last_index_of`.
pub proof fn lemma_last_index_of_bounds(s: Seq<char>, c: char)
    ensures
        -1 <= last_index_of(s, c) < s.len(),
        last_index_of(s, c) >= 0 ==> s[last_index_of(s, c)] == c,
        forall|j: int| last_index_of(s, c) < j < s.len() ==> s[j] != c,
    decreases s.len(),
{
    if s.len() > 0 && s.last() != c {
        lemma_last_index_of_bounds(s.drop_last(), c);
        assert forall|j: int| last_index_of(s, c) < j < s.len() implies s[j] != c by {
            if j < s.len() - 1 {
                assert(s.drop_last()[j] == s[j]);
            }
        }
    }
}

/// Rejoining the two parts with `/` gives back the input, up to the one
/// leading `/` that the directory part drops; the file name holds no `/`;
/// there is a split exactly when the input holds a `/`.
pub proof fn law_separate_rejoins(input: Seq<char>)
    ensures
        spec_separate(input) is None <==> !input.contains('/'),
        spec_separate(input) matches Some((rel, name)) ==> {
            &&& !name.contains('/')
            &&& (input =~= rel + seq!['/'] + name || input =~= seq!['/'] + rel + seq!['/'] + name)
        },
{
    lemma_last_index_of_bounds(input, '/');
    let k = last_index_of(input, '/');
    if k < 0 {
        assert forall|j: int| 0 <= j < input.len() implies input[j] != '/' by {}
    } else {
        assert(input[k] == '/');
        let dir = input.take(k);
        let name = input.skip(k + 1);
        assert forall|j: int| 0 <= j < name.len() implies name[j] != '/' by {
            assert(name[j] == input[k + 1 + j]);
        }
        assert(input =~= dir + seq!['/'] + name);
        if dir.len() > 0 && dir[0] == '/' {
            assert(dir =~= seq!['/'] + dir.skip(1));
        }
    }
}

/// Splits a request path such as `/tedge/some/dir/file` into the relative
/// directory `tedge/some/dir` and the file name `file`; `None` when the path
/// holds no `/`.
pub fn separate_path_and_file_name(input: &str) -> (res: Option<(String, &str)>)
    ensures
        match res {
            None => spec_separate(input@) is None,
            Some((rel, name)) => spec_separate(input@) == Some((rel@, name@)),
        },
{
    let len = input.unicode_len();
    let mut i = len;
    while i > 0
        invariant
            i <= len,
            len == input@.len(),
            forall|j: int| i <= j < len ==> input@[j] != '/',
        decreases i,
    {
        if input.get_char(i - 1) == '/' {
            proof {
                lemma_last_index_of(input@, '/', i - 1);
            }
            let dir = input.substring_char(0, i - 1);
            let name = input.substring_char(i, len);
            let rel = if i - 1 > 0 && input.get_char(0) == '/' {
                dir.substring_char(1, i - 1)
            } else {
                dir
            };
            let ghost k = (i - 1) as int;
            assert(dir@ =~= input@.take(k));
            assert(name@ =~= input@.skip(k + 1));
            assert(rel@ =~= spec_separate(input@).unwrap().0);
            return Some((String::from_str(rel), name));
        }
        i = i - 1;
    }
    proof {
        lemma_last_index_of(input@, '/', -1);
    }
    None
}

} // verus!
