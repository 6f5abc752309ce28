//! What holds of the file system's operations whatever the state and the
//! arguments: reading back what was written, growing a file, creating and
//! listing entries, and resolving paths.

use vstd::prelude::*;
use super::devfs::zero_bytes;
use super::name_order::{lemma_name_lt_irreflexive, lemma_name_lt_transitive, strictly_ascending};
use super::ops::VfsState;
use super::path::{components, components_from, SEPARATOR};
use super::ramfs::{read_count, read_result, write_result, RamFsState};
use super::{FileType, VfsError, VfsNodeRef};

verus! {

/// Bytes written to a file at an offset are read back from that offset,
/// whatever the file held and however long it was.
pub proof fn lemma_file_write_then_read(data: Seq<u8>, offset: nat, bytes: Seq<u8>, buf: Seq<u8>)
    requires
        buf.len() == bytes.len(),
    ensures
        read_count(write_result(data, offset, bytes), offset, buf) == bytes.len(),
        read_result(write_result(data, offset, bytes), offset, buf) == bytes,
{
    let written = write_result(data, offset, bytes);
    assert(read_result(written, offset, buf) =~= bytes);
}

/// A write that starts `gap` bytes behind the end of a file makes the file
/// end behind the written bytes and fills the gap with zeros: a read of the
/// gap returns `gap` zero bytes.
pub proof fn lemma_write_past_end(data: Seq<u8>, gap: nat, bytes: Seq<u8>, buf: Seq<u8>)
    requires
        buf.len() == gap,
    ensures
        write_result(data, data.len() + gap, bytes).len() == data.len() + gap + bytes.len(),
        read_count(write_result(data, data.len() + gap, bytes), data.len(), buf) == gap,
        read_result(write_result(data, data.len() + gap, bytes), data.len(), buf) == zero_bytes(
            gap,
        ),
{
    let written = write_result(data, data.len() + gap, bytes);
    assert(read_result(written, data.len(), buf) =~= zero_bytes(gap));
}

/// A write to a file changes no directory, so every walk leads where it
/// led before.
pub proof fn lemma_walk_after_write(
    state: VfsState,
    file: int,
    offset: nat,
    bytes: Seq<u8>,
    node: VfsNodeRef,
    names: Seq<Seq<char>>,
)
    requires
        state.fs.wf(),
        state.fs.contains(node),
        0 <= file < state.fs.nodes.len(),
        state.fs.nodes[file] is File,
    ensures
        (VfsState { fs: state.fs.after_write(file, offset, bytes), ..state }).walk(node, names)
            == state.walk(node, names),
    decreases names.len(),
{
    let after = VfsState { fs: state.fs.after_write(file, offset, bytes), ..state };
    if names.len() > 0 {
        assert(after.lookup(node, names[0]) == state.lookup(node, names[0]));
        match state.lookup(node, names[0]) {
            Ok(next) => {
                assert(state.fs.nodes[node->Ram_0 as int].entries().contains_key(names[0]));
                lemma_walk_after_write(state, file, offset, bytes, next, names.drop_first());
            },
            Err(_) => {},
        }
    }
}

/// For every path that resolves to a regular file, every offset and every
/// byte string that fits: after the bytes are written at the offset, the
/// path still names the file, and a read of as many bytes at the offset
/// into a zeroed buffer yields the bytes.
pub proof fn lemma_write_then_read(state: VfsState, path: Seq<char>, offset: nat, bytes: Seq<u8>)
    requires
        state.wf(),
        state.resolve(path) is Ok,
        state.file_type(state.resolve(path)->Ok_0) == FileType::Regular,
        offset + bytes.len() <= usize::MAX,
    ensures
        ({
            let node = state.resolve(path)->Ok_0;
            let after = VfsState { fs: state.fs_after_write(node, offset, bytes), ..state };
            &&& state.write_at(node, offset, bytes) == Ok::<usize, VfsError>(bytes.len() as usize)
            &&& after.resolve(path) == Ok::<VfsNodeRef, VfsError>(node)
            &&& after.read_at(node, offset, zero_bytes(bytes.len())) == Ok::<usize, VfsError>(
                bytes.len() as usize,
            )
            &&& after.buffer_after_read(node, offset, zero_bytes(bytes.len())) == bytes
        }),
{
    let node = state.resolve(path)->Ok_0;
    state.lemma_resolve_contained(path);
    let file = node->Ram_0 as int;
    assert(state.fs.nodes[file].wf());
    let data = state.fs.nodes[file].data();
    lemma_file_write_then_read(data, offset, bytes, zero_bytes(bytes.len()));
    lemma_walk_after_write(state, file, offset, bytes, state.root->Some_0, components(path));
}

/// After `create` has made an entry, the directory has the name, every
/// listing of the directory holds it, and holds no name twice; a second
/// `create` of the name fails with `AlreadyExists` and changes nothing.
pub proof fn lemma_create_then_listed(
    fs: RamFsState,
    dir: int,
    name: Seq<char>,
    file_type: FileType,
    again: FileType,
    names: Seq<Seq<char>>,
)
    requires
        fs.wf(),
        0 <= dir < fs.nodes.len(),
        fs.create_result(dir, name, file_type) is Ok,
        fs.after_create(dir, name, file_type).nodes[dir].listed_as(names),
    ensures
        fs.after_create(dir, name, file_type).nodes[dir].entries().contains_key(name),
        names.contains(name),
        forall|i: int, j: int| 0 <= i < j < names.len() ==> names[i] != names[j],
        fs.after_create(dir, name, file_type).create_result(dir, name, again) == Err::<
            VfsNodeRef,
            VfsError,
        >(VfsError::AlreadyExists),
        fs.after_create(dir, name, file_type).after_create(dir, name, again) == fs.after_create(
            dir,
            name,
            file_type,
        ),
{
    assert forall|i: int, j: int| 0 <= i < j < names.len() implies names[i] != names[j] by {
        lemma_name_lt_irreflexive(names[i]);
    }
}

/// A directory has one listing: two sequences of names in ascending order
/// that hold the same names are the same sequence.
pub proof fn lemma_listing_unique(first: Seq<Seq<char>>, second: Seq<Seq<char>>)
    requires
        strictly_ascending(first),
        strictly_ascending(second),
        forall|n: Seq<char>| first.contains(n) <==> second.contains(n),
    ensures
        first == second,
    decreases first.len(),
{
    if first.len() == 0 {
        if second.len() > 0 {
            assert(second.contains(second[0]));
        }
        assert(first =~= second);
    } else {
        assert(first.contains(first[0]));
        let j = choose|j: int| 0 <= j < second.len() && second[j] == first[0];
        assert(second.contains(second[0]));
        let i = choose|i: int| 0 <= i < first.len() && first[i] == second[0];
        if j > 0 {
            lemma_name_lt_irreflexive(first[0]);
            if i > 0 {
                lemma_name_lt_transitive(first[0], first[i], second[j]);
            }
        }
        let rest1 = first.drop_first();
        let rest2 = second.drop_first();
        assert forall|n: Seq<char>| rest1.contains(n) <==> rest2.contains(n) by {
            lemma_name_lt_irreflexive(n);
            if rest1.contains(n) {
                let k = choose|k: int| 0 <= k < rest1.len() && rest1[k] == n;
                assert(first[k + 1] == n);
                assert(first.contains(n));
                let m = choose|m: int| 0 <= m < second.len() && second[m] == n;
                assert(m > 0);
                assert(rest2[m - 1] == n);
            }
            if rest2.contains(n) {
                let k = choose|k: int| 0 <= k < rest2.len() && rest2[k] == n;
                assert(second[k + 1] == n);
                assert(second.contains(n));
                let m = choose|m: int| 0 <= m < first.len() && first[m] == n;
                assert(m > 0);
                assert(rest1[m - 1] == n);
            }
        }
        assert forall|a: int, b: int| 0 <= a < b < rest1.len() implies super::name_order::name_lt(
            #[trigger] rest1[a],
            #[trigger] rest1[b],
        ) by {
            assert(rest1[a] == first[a + 1] && rest1[b] == first[b + 1]);
        }
        assert forall|a: int, b: int| 0 <= a < b < rest2.len() implies super::name_order::name_lt(
            #[trigger] rest2[a],
            #[trigger] rest2[b],
        ) by {
            assert(rest2[a] == second[a + 1] && rest2[b] == second[b + 1]);
        }
        lemma_listing_unique(rest1, rest2);
        assert(first =~= seq![first[0]] + rest1);
        assert(second =~= seq![second[0]] + rest2);
    }
}

/// The path `/` names the root.
pub proof fn lemma_resolve_root(state: VfsState)
    ensures
        state.resolve(seq![SEPARATOR]) == (match state.root {
            Some(root) => Ok::<VfsNodeRef, VfsError>(root),
            None => Err::<VfsNodeRef, VfsError>(VfsError::IoError),
        }),
{
    let path = seq![SEPARATOR];
    assert(components_from(path, 1) =~= Seq::<Seq<char>>::empty());
    assert(components_from(path, 0) == components_from(path, 1));
}

/// The empty path and every path that does not start with `/` are refused
/// as `InvalidPath`.
pub proof fn lemma_resolve_relative(state: VfsState, path: Seq<char>)
    requires
        path.len() == 0 || path[0] != SEPARATOR,
    ensures
        state.resolve(path) == Err::<VfsNodeRef, VfsError>(VfsError::InvalidPath),
{
}

/// A walk in two parts: where the names `first` lead, the names `rest` go
/// on; where they fail, the whole walk fails in the same way.
pub proof fn lemma_walk_split(
    state: VfsState,
    node: VfsNodeRef,
    first: Seq<Seq<char>>,
    rest: Seq<Seq<char>>,
)
    ensures
        state.walk(node, first + rest) == (match state.walk(node, first) {
            Ok(mid) => state.walk(mid, rest),
            Err(e) => Err(e),
        }),
    decreases first.len(),
{
    if first.len() == 0 {
        assert(first + rest =~= rest);
    } else {
        assert((first + rest)[0] == first[0]);
        assert((first + rest).drop_first() =~= first.drop_first() + rest);
        match state.lookup(node, first[0]) {
            Ok(next) => {
                lemma_walk_split(state, next, first.drop_first(), rest);
            },
            Err(_) => {},
        }
    }
}

/// A walk that reaches a directory without the next name fails with
/// `NotFound`, and one that reaches a file or a device with names left
/// fails with `NotADirectory`.
pub proof fn lemma_walk_failures(
    state: VfsState,
    node: VfsNodeRef,
    first: Seq<Seq<char>>,
    rest: Seq<Seq<char>>,
)
    requires
        state.walk(node, first) is Ok,
        rest.len() > 0,
    ensures
        ({
            let mid = state.walk(node, first)->Ok_0;
            &&& mid is Device ==> state.walk(node, first + rest) == Err::<VfsNodeRef, VfsError>(
                VfsError::NotADirectory,
            )
            &&& mid is Ram && state.fs.nodes[mid->Ram_0 as int] is File ==> state.walk(
                node,
                first + rest,
            ) == Err::<VfsNodeRef, VfsError>(VfsError::NotADirectory)
            &&& mid is Ram && state.fs.nodes[mid->Ram_0 as int] is Directory
                && !state.fs.nodes[mid->Ram_0 as int].entries().contains_key(rest[0])
                ==> state.walk(node, first + rest) == Err::<VfsNodeRef, VfsError>(
                VfsError::NotFound,
            )
        }),
{
    lemma_walk_split(state, node, first, rest);
}

} // verus!
