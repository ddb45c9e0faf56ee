use vstd::prelude::*;

verus! {

/// The last path segment of `s`: the suffix after the final `/`,
/// or all of `s` when it holds no `/`.
pub open spec fn last_segment_spec(s: Seq<char>) -> Seq<char>
    decreases s.len(),
{
    if s.len() == 0 {
        s
    } else if s.last() == '/' {
        Seq::<char>::empty()
    } else {
        last_segment_spec(s.drop_last()).push(s.last())
    }
}

/// The path of an entry inside an archive: the entry's name under the
/// given prefix, with `/` between them when the prefix is not empty.
pub open spec fn join_path_spec(prefix: Seq<char>, name: Seq<char>) -> Seq<char> {
    if prefix.len() == 0 {
        name
    } else {
        prefix + seq!['/'] + name
    }
}

/// The name of the archive built for a tree whose base name is `base`.
pub open spec fn archive_name_spec(base: Seq<char>) -> Seq<char> {
    base + ".tar.gz"@
}

/// The remote destination: `name` under the directory `dir`, with a `/`
/// inserted only when `dir` does not already end with one.
pub open spec fn remote_path_spec(dir: Seq<char>, name: Seq<char>) -> Seq<char> {
    if dir.len() == 0 || dir.last() == '/' {
        dir + name
    } else {
        dir + seq!['/'] + name
    }
}

/// Returns the substring after the final `/` of `input`, or all of
/// `input` when it holds none.
pub fn get_last_segment(input: &str) -> (r: String)
    ensures
        r@ == last_segment_spec(input@),
{
    let n: usize = input.unicode_len();
    let mut i: usize = n;
    proof {
        assert(input@.take(n as int) =~= input@);
        assert(last_segment_spec(input@) + input@.skip(n as int) =~= last_segment_spec(input@));
    }
    while i > 0 && input.get_char(i - 1) != '/'
        invariant
            i <= n,
            n == input@.len(),
            last_segment_spec(input@) == last_segment_spec(input@.take(i as int)) + input@.skip(
                i as int,
            ),
        decreases i,
    {
        proof {
            let s = input@;
            let t = s.take(i as int);
            assert(t.drop_last() =~= s.take(i - 1));
            assert(last_segment_spec(t) == last_segment_spec(s.take(i - 1)).push(s[i - 1]));
            assert(last_segment_spec(s.take(i - 1)).push(s[i - 1]) + s.skip(i as int)
                =~= last_segment_spec(s.take(i - 1)) + s.skip(i - 1));
        }
        i = i - 1;
    }
    proof {
        let s = input@;
        if i == 0 {
            assert(s.take(0int) =~= Seq::<char>::empty());
            assert(last_segment_spec(Seq::<char>::empty()) + s.skip(0int) =~= s.skip(0int));
        } else {
            let t = s.take(i as int);
            assert(t.last() == '/');
            assert(last_segment_spec(t) + s.skip(i as int) =~= s.skip(i as int));
        }
        assert(last_segment_spec(s) == s.skip(i as int));
    }
    let seg = input.substring_char(i, n);
    proof {
        assert(input@.subrange(i as int, n as int) =~= input@.skip(i as int));
    }
    seg.to_owned()
}

/// Joins an in-archive prefix and an entry name.
pub fn join_path(prefix: &str, name: &str) -> (r: String)
    ensures
        r@ == join_path_spec(prefix@, name@),
{
    if prefix.unicode_len() == 0 {
        proof {
            assert(prefix@ =~= Seq::<char>::empty());
        }
        name.to_owned()
    } else {
        let mut s = prefix.to_owned();
        s.append("/");
        s.append(name);
        proof {
            reveal_strlit("/");
            assert(("/")@ =~= seq!['/']);
        }
        s
    }
}

/// Appends the fixed archive suffix to a base name.
pub fn archive_name(base: &str) -> (r: String)
    ensures
        r@ == archive_name_spec(base@),
{
    let mut s = base.to_owned();
    s.append(".tar.gz");
    s
}

/// Places `name` under the remote directory `dir`, inserting a `/`
/// only when `dir` is nonempty and does not already end with one.
pub fn remote_path(dir: &str, name: &str) -> (r: String)
    ensures
        r@ == remote_path_spec(dir@, name@),
{
    let n: usize = dir.unicode_len();
    if n == 0 || dir.get_char(n - 1) == '/' {
        let mut s = dir.to_owned();
        s.append(name);
        s
    } else {
        let mut s = dir.to_owned();
        s.append("/");
        s.append(name);
        proof {
            reveal_strlit("/");
            assert(("/")@ =~= seq!['/']);
        }
        s
    }
}

} // verus!
