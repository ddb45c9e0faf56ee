use vstd::prelude::*;

use crate::paths::{join_path, join_path_spec, last_segment_spec};

verus! {

/// A file-system node handed to the archive builder: a regular file
/// with its bytes, a directory with its children in enumeration order,
/// or any other kind of node, which the builder skips.
pub enum FsNode {
    File { name: String, data: Vec<u8> },
    Dir { name: String, children: Vec<FsNode> },
    Other { name: String },
}

/// Why building an archive failed.
#[derive(Clone, Copy, Debug, PartialEq, Eq, Structural)]
pub enum ArchiveError {
    EntryFailed,
    FinalizeFailed,
}

/// A file-system name: nonempty, with no separator and no NUL in it,
/// and not one of the two relative-reference names, which a tar path
/// would not store verbatim.
pub open spec fn valid_name(name: Seq<char>) -> bool {
    name.len() > 0 && !name.contains('/') && !name.contains('\u{0}') && name != seq!['.']
        && name != seq!['.', '.']
}

/// Every node of the tree bears a file-system name.
pub open spec fn wf_node(node: FsNode) -> bool
    decreases node, 0int,
{
    match node {
        FsNode::File { name, data: _ } => valid_name(name@),
        FsNode::Dir { name, children } => valid_name(name@) && wf_nodes_from(children@, 0),
        FsNode::Other { name } => valid_name(name@),
    }
}

/// Every node of `nodes` from position `i` on is well formed.
pub open spec fn wf_nodes_from(nodes: Seq<FsNode>, i: int) -> bool
    decreases nodes, nodes.len() - i,
{
    i < 0 || i >= nodes.len() || (wf_node(nodes[i]) && wf_nodes_from(nodes, i + 1))
}

/// A path stored in an archive: a chain of file-system names joined by
/// `/`. Every component is a valid name, so tar stores and returns the
/// path verbatim: no empty, `.` or `..` component to drop, collapse or
/// refuse.
pub open spec fn valid_archive_path(p: Seq<char>) -> bool
    decreases p.len(),
{
    if !p.contains('/') {
        valid_name(p)
    } else {
        let seg = last_segment_spec(p);
        let k = p.len() - seg.len() - 1;
        valid_name(seg) && 0 <= k && valid_archive_path(p.take(k))
    }
}

/// The entries a tree contributes to an archive under a given prefix:
/// a regular file becomes one entry under its name; a directory
/// contributes its children's entries, in order, under its name; any
/// other node contributes nothing.
pub open spec fn tar_entries(prefix: Seq<char>, node: FsNode) -> Seq<(Seq<char>, Seq<u8>)>
    decreases node, 0int,
{
    match node {
        FsNode::File { name, data } => seq![(join_path_spec(prefix, name@), data@)],
        FsNode::Dir { name, children } => tar_entries_from(
            join_path_spec(prefix, name@),
            children@,
            0,
        ),
        FsNode::Other { name: _ } => Seq::<(Seq<char>, Seq<u8>)>::empty(),
    }
}

/// The entries contributed by the nodes of `nodes` from position `i` on.
pub open spec fn tar_entries_from(prefix: Seq<char>, nodes: Seq<FsNode>, i: int) -> Seq<
    (Seq<char>, Seq<u8>),
>
    decreases nodes, nodes.len() - i,
{
    if i < 0 || i >= nodes.len() {
        Seq::<(Seq<char>, Seq<u8>)>::empty()
    } else {
        tar_entries(prefix, nodes[i]) + tar_entries_from(prefix, nodes, i + 1)
    }
}

#[verifier::external_type_specification]
#[verifier::external_body]
pub struct ExIoError(std::io::Error);

/// The archive writer: a tar container layered over an in-memory gzip
/// stream. Opaque, because the verifier cannot express the trait bounds
/// its type parameters carry; what it holds is spoken of through
/// `archive_entries`.
#[verifier::external_body]
pub struct ArchiveWriter {
    inner: tar::Builder<flate2::write::GzEncoder<Vec<u8>>>,
}

/// The entries appended so far to an archive writer, in order, each a
/// path and the bytes stored under it.
pub uninterp spec fn archive_entries(b: ArchiveWriter) -> Seq<(Seq<char>, Seq<u8>)>;

/// The byte stream of the finished container holding exactly the given
/// entries: a tar layout of them, gzip-compressed at the default level.
pub uninterp spec fn targz_bytes(entries: Seq<(Seq<char>, Seq<u8>)>) -> Seq<u8>;

/// What decoding and unpacking a byte stream yields: the entries it
/// holds, or nothing when the stream is not a well-formed container.
/// Entry paths are read as UTF-8; the streams this library builds hold
/// only such paths. A foreign stream with a non-UTF-8 path is read in a
/// target-dependent way, so this name is applied to the library's own
/// streams alone.
pub uninterp spec fn untargz_entries(bytes: Seq<u8>) -> Option<Seq<(Seq<char>, Seq<u8>)>>;

/// The views of extracted entries: each path as its characters, each
/// contents as its bytes.
pub open spec fn pairs_view(v: Seq<(String, Vec<u8>)>) -> Seq<(Seq<char>, Seq<u8>)> {
    v.map(|i: int, e: (String, Vec<u8>)| (e.0@, e.1@))
}

/// Relies on tar::Builder::new over flate2::write::GzEncoder::new at the
/// default compression level: a freshly created archive writer holds no
/// entries.
#[verifier::external_body]
fn archive_writer_new() -> (b: ArchiveWriter)
    ensures
        archive_entries(b) == Seq::<(Seq<char>, Seq<u8>)>::empty(),
{
    ArchiveWriter {
        inner: tar::Builder::new(
            flate2::write::GzEncoder::new(Vec::new(), flate2::Compression::default()),
        ),
    }
}

/// Relies on tar::Builder::append_data: the archive gains one entry
/// holding exactly the given path and bytes. The call cannot fail here:
/// every component of the path is a plain file-system name, so the path
/// is stored verbatim (long ones through the GNU long-name extension),
/// and every write lands in the in-memory gzip stream, which never
/// errors.
#[verifier::external_body]
fn archive_append_file(b: &mut ArchiveWriter, path: &str, data: &Vec<u8>) -> (r: Result<
    (),
    std::io::Error,
>)
    requires
        valid_archive_path(path@),
    ensures
        r is Ok,
        archive_entries(*final(b)) == archive_entries(*old(b)).push((path@, data@)),
{
    let mut header = tar::Header::new_gnu();
    header.set_size(data.len() as u64);
    header.set_mode(0o644);
    b.inner.append_data(&mut header, path, data.as_slice())
}

/// Relies on tar::Builder::into_inner and flate2 GzEncoder::finish: closing
/// the writer yields the compressed container of exactly the entries
/// appended, and reading that container back yields the same entries.
/// Both finalizers only write into the in-memory stream, which never
/// errors, so the call cannot fail.
#[verifier::external_body]
fn archive_writer_finish(b: ArchiveWriter) -> (r: Result<Vec<u8>, std::io::Error>)
    ensures
        r is Ok,
        r is Ok ==> r.unwrap()@ == targz_bytes(archive_entries(b)) && untargz_entries(
            r.unwrap()@,
        ) == Some(archive_entries(b)),
{
    let encoder = b.inner.into_inner()?;
    encoder.finish()
}

/// Relies on tar::Archive over flate2::read::GzDecoder: reading a container
/// byte stream yields its entries in order, each as a path and its bytes,
/// and fails exactly on streams that are not well-formed containers.
#[verifier::external_body]
fn archive_read_entries(bytes: &Vec<u8>) -> (r: Result<Vec<(String, Vec<u8>)>, std::io::Error>)
    ensures
        match r {
            Ok(v) => untargz_entries(bytes@) == Some(pairs_view(v@)),
            Err(_) => untargz_entries(bytes@) is None,
        },
{
    let mut archive = tar::Archive::new(flate2::read::GzDecoder::new(bytes.as_slice()));
    let mut out: Vec<(String, Vec<u8>)> = Vec::new();
    for entry in archive.entries()? {
        let mut entry = entry?;
        let path = entry.path()?.to_string_lossy().into_owned();
        let mut data = Vec::new();
        std::io::Read::read_to_end(&mut entry, &mut data)?;
        out.push((path, data));
    }
    Ok(out)
}

/// The last segment of a separator and a slash-free suffix is that
/// suffix itself.
proof fn lemma_last_segment_after_sep(s: Seq<char>, t: Seq<char>)
    requires
        !t.contains('/'),
    ensures
        last_segment_spec(s + seq!['/'] + t) == t,
    decreases t.len(),
{
    let whole = s + seq!['/'] + t;
    if t.len() == 0 {
        assert(whole =~= s + seq!['/']);
        assert(whole.last() == '/');
        assert(last_segment_spec(whole) =~= t);
    } else {
        let t0 = t.drop_last();
        assert(!t0.contains('/')) by {
            assert forall|i: int| 0 <= i < t0.len() implies t0[i] != '/' by {
                assert(t[i] != '/');
            }
        }
        lemma_last_segment_after_sep(s, t0);
        assert(whole.last() == t.last());
        assert(t.last() != '/');
        assert(whole.drop_last() =~= s + seq!['/'] + t0);
        assert(last_segment_spec(whole) =~= last_segment_spec(s + seq!['/'] + t0).push(t.last()));
        assert(last_segment_spec(whole) =~= t);
    }
}

/// A well-formed name placed under a valid or empty prefix is a valid
/// archive path.
proof fn lemma_join_valid(prefix: Seq<char>, name: Seq<char>)
    requires
        valid_name(name),
        prefix.len() == 0 || valid_archive_path(prefix),
    ensures
        valid_archive_path(join_path_spec(prefix, name)),
{
    if prefix.len() == 0 {
        assert(join_path_spec(prefix, name) == name);
        assert(!name.contains('/'));
    } else {
        let joined = join_path_spec(prefix, name);
        assert(joined =~= prefix + seq!['/'] + name);
        assert(joined.contains('/')) by {
            assert(joined[prefix.len() as int] == '/');
        }
        lemma_last_segment_after_sep(prefix, name);
        assert(last_segment_spec(joined) == name);
        assert(joined.take(joined.len() - name.len() - 1) =~= prefix);
    }
}

/// Adds `node` into the archive under `prefix`, every directory child in
/// order, skipping nodes of other kinds; returns whether every entry was
/// appended, and would attempt every sibling even after a failure. Into
/// the in-memory writer every append succeeds, so the flag is always
/// true and the archive gains exactly the node's entries.
fn add_node(b: &mut ArchiveWriter, prefix: &str, node: &FsNode) -> (ok: bool)
    requires
        wf_node(*node),
        prefix@.len() == 0 || valid_archive_path(prefix@),
    ensures
        ok,
        archive_entries(*final(b)) == archive_entries(*old(b)) + tar_entries(prefix@, *node),
    decreases *node,
{
    match node {
        FsNode::File { name, data } => {
            let path = join_path(prefix, name.as_str());
            proof {
                lemma_join_valid(prefix@, name@);
            }
            match archive_append_file(b, path.as_str(), data) {
                Ok(_) => {
                    proof {
                        assert(archive_entries(*b) =~= archive_entries(*old(b)) + tar_entries(
                            prefix@,
                            *node,
                        ));
                    }
                    true
                },
                Err(_) => false,
            }
        },
        FsNode::Dir { name, children } => {
            let new_prefix = join_path(prefix, name.as_str());
            proof {
                lemma_join_valid(prefix@, name@);
            }
            let ghost b0 = *b;
            let ghost cs = children@;
            proof {
                assert((*node)->Dir_children == *children);
                assert(wf_nodes_from(cs, 0));
            }
            let mut ok = true;
            let mut i: usize = 0;
            while i < children.len()
                invariant
                    wf_node(*node),
                    *node == (FsNode::Dir { name: *name, children: *children }),
                    cs == children@,
                    new_prefix@ == join_path_spec(prefix@, name@),
                    valid_archive_path(new_prefix@),
                    i <= children.len(),
                    wf_nodes_from(cs, i as int),
                    ok,
                    archive_entries(b0) + tar_entries_from(new_prefix@, cs, 0)
                        == archive_entries(*b) + tar_entries_from(new_prefix@, cs, i as int),
                decreases children.len() - i,
            {
                proof {
                    assert(*node == (FsNode::Dir { name: *name, children: *children }));
                    assert((*node)->Dir_children == *children);
                    assert(decreases_to!(*node => (*node)->Dir_children));
                    assert(decreases_to!(*children => children@));
                    assert(decreases_to!(children@ => children@[i as int]));
                    assert(decreases_to!(*node => children@[i as int]));
                    assert(wf_node(children@[i as int]));
                }
                let child_ok = add_node(b, new_prefix.as_str(), &children[i]);
                if !child_ok {
                    ok = false;
                }
                proof {
                    assert(archive_entries(b0) + tar_entries_from(new_prefix@, cs, 0)
                        =~= archive_entries(*b) + tar_entries_from(new_prefix@, cs, i + 1));
                }
                i = i + 1;
            }
            proof {
                assert(archive_entries(b0) + tar_entries_from(new_prefix@, cs, 0)
                    =~= archive_entries(*b));
                assert(tar_entries(prefix@, *node) == tar_entries_from(new_prefix@, cs, 0));
            }
            ok
        },
        FsNode::Other { name: _ } => {
            proof {
                assert(archive_entries(*b) =~= archive_entries(*old(b)) + tar_entries(
                    prefix@,
                    *node,
                ));
            }
            true
        },
    }
}

/// Builds the compressed archive for the tree rooted at `root`. The call
/// succeeds on every well-formed tree: the byte stream holds exactly the
/// tree's regular files, each under its path relative to the tree's
/// parent, and reading the stream back yields those entries again.
pub fn build_archive_bytes(root: &FsNode) -> (r: Result<Vec<u8>, ArchiveError>)
    requires
        wf_node(*root),
    ensures
        r is Ok,
        r is Ok ==> r.unwrap()@ == targz_bytes(tar_entries(Seq::<char>::empty(), *root))
            && untargz_entries(r.unwrap()@) == Some(tar_entries(Seq::<char>::empty(), *root)),
{
    let mut b = archive_writer_new();
    proof {
        reveal_strlit("");
        assert(""@ =~= Seq::<char>::empty());
    }
    let ok = add_node(&mut b, "", root);
    if !ok {
        return Err(ArchiveError::EntryFailed);
    }
    proof {
        assert(archive_entries(b) =~= tar_entries(Seq::<char>::empty(), *root));
    }
    match archive_writer_finish(b) {
        Ok(bytes) => Ok(bytes),
        Err(_) => Err(ArchiveError::FinalizeFailed),
    }
}

/// Round trip: building the archive for a tree and reading it back
/// succeeds and yields exactly the tree's file entries, paths and bytes
/// alike.
pub fn build_and_extract(root: &FsNode) -> (r: Result<Vec<(String, Vec<u8>)>, ArchiveError>)
    requires
        wf_node(*root),
    ensures
        r is Ok,
        r is Ok ==> pairs_view(r.unwrap()@) == tar_entries(Seq::<char>::empty(), *root),
{
    let bytes = match build_archive_bytes(root) {
        Ok(bytes) => bytes,
        Err(e) => {
            return Err(e);
        },
    };
    match archive_read_entries(&bytes) {
        Ok(v) => Ok(v),
        Err(_) => {
            proof {
                assert(false);
            }
            Err(ArchiveError::FinalizeFailed)
        },
    }
}

/// An archive built for a single regular file holds exactly one entry,
/// named the file's own name and holding its bytes.
pub proof fn lemma_single_file_entries(node: FsNode)
    requires
        node is File,
    ensures
        match node {
            FsNode::File { name, data } => tar_entries(Seq::<char>::empty(), node) == seq![
                (name@, data@),
            ],
            _ => true,
        },
{
}

} // verus!
