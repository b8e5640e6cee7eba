//! Where results are written, and when that is refused.
//!
//! Paths are byte strings, as on Unix.

use vstd::prelude::*;

use crate::bytes;
use crate::error;
use crate::error::Error;
use crate::text;

verus! {

// ---------------------------------------------------------------------------
// Paths
// ---------------------------------------------------------------------------

/// The end of a path without the slashes, and the slashes with a dot behind them, that
/// it ends in.
pub open spec fn path_end(p: Seq<u8>) -> int
    decreases p.len(),
{
    if p.len() > 0 && p.last() == 0x2f {
        path_end(p.drop_last())
    } else if p.len() > 1 && p.last() == 0x2e && p[p.len() - 2] == 0x2f {
        path_end(p.drop_last())
    } else {
        p.len() as int
    }
}

/// The index behind the last slash.
pub open spec fn name_start(p: Seq<u8>) -> int
    decreases p.len(),
{
    if p.len() == 0 || p.last() == 0x2f {
        p.len() as int
    } else {
        name_start(p.drop_last())
    }
}

/// Whether the last part of a path is the name of a file.
pub open spec fn is_file_name(name: Seq<u8>) -> bool {
    name.len() > 0 && name != seq![0x2eu8] && name != seq![0x2eu8, 0x2e]
}

/// `.asc`
pub open spec fn asc() -> Seq<u8> {
    seq![0x2eu8, 0x61, 0x73, 0x63]
}

/// The path of the signature for a file: its path with `.asc` behind the name.  A path
/// without a file name stays.
pub open spec fn signature_path(p: Seq<u8>) -> Seq<u8> {
    let whole = p.take(path_end(p));
    if is_file_name(whole.skip(name_start(whole))) {
        whole + asc()
    } else {
        p
    }
}

/// Whether a path stands for the standard output: it is `-`.
pub open spec fn is_stdout(p: Seq<u8>) -> bool {
    p.take(path_end(p)) == seq![0x2du8]
}

proof fn path_end_bounds(p: Seq<u8>)
    ensures
        0 <= path_end(p) <= p.len(),
    decreases p.len(),
{
    if p.len() > 0 {
        path_end_bounds(p.drop_last());
    }
}

proof fn name_start_bounds(p: Seq<u8>)
    ensures
        0 <= name_start(p) <= p.len(),
    decreases p.len(),
{
    if p.len() > 0 && p.last() != 0x2f {
        name_start_bounds(p.drop_last());
    }
}

fn find_path_end(p: &Vec<u8>) -> (end: usize)
    ensures
        end == path_end(p@),
        end <= p.len(),
{
    let mut end: usize = p.len();
    assert(p@.take(end as int) =~= p@);
    while end > 0 && (p[end - 1] == 0x2f || (end > 1 && p[end - 1] == 0x2e && p[end - 2] == 0x2f))
        invariant
            end <= p.len(),
            path_end(p@.take(end as int)) == path_end(p@),
        decreases end,
    {
        assert(p@.take(end as int).drop_last() =~= p@.take(end - 1));
        end -= 1;
    }
    end
}

fn find_name_start(p: &Vec<u8>, end: usize) -> (start: usize)
    requires
        end <= p.len(),
    ensures
        start == name_start(p@.take(end as int)),
        start <= end,
{
    let mut start: usize = end;
    while start > 0 && p[start - 1] != 0x2f
        invariant
            start <= end <= p.len(),
            name_start(p@.take(start as int)) == name_start(p@.take(end as int)),
        decreases start,
    {
        assert(p@.take(start as int).drop_last() =~= p@.take(start - 1));
        start -= 1;
    }
    start
}

fn sub_bytes(p: &Vec<u8>, from: usize, to: usize) -> (out: Vec<u8>)
    requires
        from <= to <= p.len(),
    ensures
        out@ == p@.subrange(from as int, to as int),
{
    vstd::slice::slice_to_vec(vstd::slice::slice_subrange(p.as_slice(), from, to))
}

/// The path at which the signature for the file `p` is written unless another one is
/// given.
pub fn default_signature_path(p: &Vec<u8>) -> (out: Vec<u8>)
    ensures
        out@ == signature_path(p@),
{
    let end: usize = find_path_end(p);
    let start: usize = find_name_start(p, end);
    let name = sub_bytes(p, start, end);
    let whole = sub_bytes(p, 0, end);
    proof {
        assert(whole@ =~= p@.take(end as int));
        assert(name@ =~= whole@.skip(start as int));
    }
    let here: [u8; 1] = [0x2e];
    let parent: [u8; 2] = [0x2e, 0x2e];
    assert(here@ =~= seq![0x2eu8]);
    assert(parent@ =~= seq![0x2eu8, 0x2e]);
    if name.len() == 0 || bytes::same_bytes(name.as_slice(), &here) || bytes::same_bytes(
        name.as_slice(),
        &parent,
    ) {
        return sub_bytes(p, 0, p.len());
    }
    let out = bytes::concat(whole.as_slice(), &[0x2e, 0x61, 0x73, 0x63]);
    assert(out@ =~= whole@ + asc());
    out
}

/// Whether `p` stands for the standard output.
pub fn names_stdout(p: &Vec<u8>) -> (r: bool)
    ensures
        r == is_stdout(p@),
{
    let end: usize = find_path_end(p);
    let whole = sub_bytes(p, 0, end);
    assert(whole@ =~= p@.take(end as int));
    let dash: [u8; 1] = [0x2d];
    assert(dash@ =~= seq![0x2du8]);
    bytes::same_bytes(whole.as_slice(), &dash)
}

// ---------------------------------------------------------------------------
// Refusing to overwrite
// ---------------------------------------------------------------------------

/// What is said of a file that is there already.
pub open spec fn overwrite_refused(path: Seq<char>) -> error::ErrorView {
    error::ErrorView::Other(
        "refusing to overwrite existing file "@ + path + "; pass --force to overwrite"@,
    )
}

/// Whether it has to be found out, before anything is asked of a token, if there is a
/// file at the path of the output.
pub open spec fn needs_preflight(output: Option<Seq<u8>>, force: bool) -> bool {
    !force && (output matches Some(p) && !is_stdout(p))
}

/// Whether the path of the output has to be looked at first.
pub fn preflight_needed(output: Option<&Vec<u8>>, force: bool) -> (r: bool)
    ensures
        r == needs_preflight(
            match output {
                Some(p) => Some(p@),
                None => None,
            },
            force,
        ),
{
    if force {
        return false;
    }
    match output {
        Some(p) => !names_stdout(p),
        None => false,
    }
}

/// The error for a file that is there already; `path` is its path in messages.
pub fn refuse_overwrite(path: &str) -> (e: Error)
    ensures
        e@ == overwrite_refused(path@),
{
    Error::Other(
        text::join3(
            "refusing to overwrite existing file ",
            path,
            "; pass --force to overwrite",
        ),
    )
}

/// What is said where it cannot be found out if there is a file.
pub open spec fn existence_unknown(path: Seq<char>, cause: Seq<char>) -> error::ErrorView {
    error::ErrorView::Context {
        message: "checking whether "@ + path + " already exists"@,
        cause,
    }
}

/// Whether to go on, from what was found out about the path of the output: an existing
/// file is not overwritten, and a token is not asked in vain.
pub fn preflight_overwrite(path: &str, found: Result<bool, String>) -> (r: Result<(), Error>)
    ensures
        match found {
            Ok(true) => error::fails_with(r, overwrite_refused(path@)),
            Ok(false) => r is Ok,
            Err(e) => error::fails_with(r, existence_unknown(path@, e@)),
        },
{
    match found {
        Ok(true) => Err(refuse_overwrite(path)),
        Ok(false) => Ok(()),
        Err(cause) => Err(
            Error::Context {
                message: text::join3("checking whether ", path, " already exists"),
                cause,
            },
        ),
    }
}

/// How a file is opened for writing.
#[derive(Debug, Clone, Copy, PartialEq, Eq, Structural)]
pub enum OpenMode {
    /// The file is created, or emptied where it exists.
    Truncate,
    /// The file is created, and must not exist.
    CreateNew,
}

/// How a file is opened for writing: without `force` it must be new, so that nothing
/// that appears after the first look is lost.
pub fn open_mode(force: bool) -> (m: OpenMode)
    ensures
        m == (if force {
            OpenMode::Truncate
        } else {
            OpenMode::CreateNew
        }),
{
    if force {
        OpenMode::Truncate
    } else {
        OpenMode::CreateNew
    }
}

/// How writing a file can fail.
#[derive(Debug)]
pub enum WriteFailure {
    /// The file exists, and should not.
    AlreadyExists,
    /// The file could not be opened.
    Open(String),
    /// The file could not be written to.
    Write(String),
}

/// What is said of a file that could not be written.
pub open spec fn write_refused(path: Seq<char>, failure: WriteFailure) -> error::ErrorView {
    match failure {
        WriteFailure::AlreadyExists => overwrite_refused(path),
        WriteFailure::Open(e) => error::ErrorView::Context {
            message: "opening "@ + path + " for writing"@,
            cause: e@,
        },
        WriteFailure::Write(e) => error::ErrorView::Context {
            message: "writing to "@ + path,
            cause: e@,
        },
    }
}

/// The error for a file that could not be written.
pub fn write_or_refuse(path: &str, failure: WriteFailure) -> (e: Error)
    ensures
        e@ == write_refused(path@, failure),
{
    match failure {
        WriteFailure::AlreadyExists => refuse_overwrite(path),
        WriteFailure::Open(cause) => Error::Context {
            message: text::join3("opening ", path, " for writing"),
            cause,
        },
        WriteFailure::Write(cause) => Error::Context {
            message: text::join2("writing to ", path),
            cause,
        },
    }
}

// ---------------------------------------------------------------------------
// Laws
// ---------------------------------------------------------------------------

/// The signature for a file is written next to it, never over it: the path is the
/// file's path and `.asc`, for every path that ends in a file name.
pub proof fn signature_path_appends(p: Seq<u8>)
    requires
        path_end(p) == p.len(),
        is_file_name(p.skip(name_start(p))),
    ensures
        signature_path(p) == p + asc(),
        signature_path(p) != p,
{
    assert(p.take(p.len() as int) =~= p);
    assert((p + asc()).len() == p.len() + 4);
}

/// Neither `--force` nor an output to standard output ever needs a look at a file.
pub proof fn no_preflight_without_a_file(output: Option<Seq<u8>>, force: bool)
    ensures
        force ==> !needs_preflight(output, force),
        output is None ==> !needs_preflight(output, force),
        !needs_preflight(Some(seq![0x2du8]), force),
{
    assert(seq![0x2du8].take(1) =~= seq![0x2du8]);
}

proof fn name_start_is(dir: Seq<u8>, name: Seq<u8>)
    requires
        dir.len() == 0 || dir.last() == 0x2f,
        forall|i: int| 0 <= i < name.len() ==> #[trigger] name[i] != 0x2f,
    ensures
        name_start(dir + name) == dir.len(),
    decreases name.len(),
{
    let p = dir + name;
    if name.len() > 0 {
        assert(p.last() == name[name.len() - 1]);
        assert(p.drop_last() =~= dir + name.drop_last());
        name_start_is(dir, name.drop_last());
    } else {
        assert(p =~= dir);
    }
}

/// The signature for a file goes next to it: for every directory, and every name in it that
/// is neither `.` nor `..`, its path is that of the file with `.asc` behind the name.  A
/// slash at the end, or a slash and a dot, makes no difference.
pub proof fn signatures_go_next_to_the_file(dir: Seq<u8>, name: Seq<u8>)
    requires
        dir.len() == 0 || dir.last() == 0x2f,
        name.len() > 0,
        forall|i: int| 0 <= i < name.len() ==> #[trigger] name[i] != 0x2f,
        name != seq![0x2eu8],
        name != seq![0x2eu8, 0x2e],
    ensures
        signature_path(dir + name) == dir + name + seq![0x2eu8, 0x61, 0x73, 0x63],
        signature_path(dir + name + seq![0x2fu8]) == dir + name + seq![0x2eu8, 0x61, 0x73, 0x63],
        signature_path(dir + name + seq![0x2fu8, 0x2e]) == dir + name + seq![
            0x2eu8,
            0x61,
            0x73,
            0x63,
        ],
{
    let p = dir + name;
    assert(p.last() == name[name.len() - 1]);
    if p.len() > 1 && p.last() == 0x2e && p[p.len() - 2] == 0x2f {
        if name.len() > 1 {
            assert(p[p.len() - 2] == name[name.len() - 2]);
        } else {
            assert(name =~= seq![0x2eu8]);
        }
    }
    assert(path_end(p) == p.len());
    assert(p.take(p.len() as int) =~= p);
    name_start_is(dir, name);
    assert(p.skip(dir.len() as int) =~= name);
    let a = p + seq![0x2fu8];
    let b = p + seq![0x2fu8, 0x2e];
    assert(a.drop_last() =~= p);
    assert(b.drop_last() =~= a);
    assert(a.last() == 0x2f);
    assert(b.last() == 0x2e && b[b.len() - 2] == 0x2f);
    assert(path_end(a) == p.len());
    assert(path_end(b) == p.len());
    assert(a.take(p.len() as int) =~= p);
    assert(b.take(p.len() as int) =~= p);
}

/// Standard output is meant by `-` and by nothing else: of the paths that do not end in a
/// slash or a dot, no other stands for it.
pub proof fn only_a_dash_is_standard_output(p: Seq<u8>)
    requires
        p.len() > 0 ==> p.last() != 0x2f && p.last() != 0x2e,
    ensures
        is_stdout(p) <==> p.len() == 1 && p[0] == 0x2d,
        needs_preflight(Some(p), false) <==> !(p.len() == 1 && p[0] == 0x2d),
{
    assert(p.take(p.len() as int) =~= p);
    if p.len() == 1 && p[0] == 0x2d {
        assert(p =~= seq![0x2du8]);
    }
}

/// A path that stands for the standard output starts with the dash, and goes on with
/// slashes and dots alone.
pub proof fn standard_output_starts_with_a_dash(p: Seq<u8>)
    requires
        is_stdout(p),
    ensures
        p.len() > 0 && p[0] == 0x2d,
        forall|i: int| 1 <= i < p.len() ==> #[trigger] p[i] == 0x2f || p[i] == 0x2e,
{
    path_end_bounds(p);
    path_end_drops(p);
    let whole = p.take(path_end(p));
    assert(whole.len() == 1 && whole[0] == 0x2d);
    assert(p[0] == whole[0]);
}

proof fn path_end_drops(p: Seq<u8>)
    ensures
        0 <= path_end(p) <= p.len(),
        forall|i: int| path_end(p) <= i < p.len() ==> #[trigger] p[i] == 0x2f || p[i] == 0x2e,
    decreases p.len(),
{
    if p.len() > 0 && (p.last() == 0x2f || p.len() > 1 && p.last() == 0x2e && p[p.len() - 2]
        == 0x2f) {
        let q = p.drop_last();
        path_end_drops(q);
        assert forall|i: int| path_end(p) <= i < p.len() implies #[trigger] p[i] == 0x2f || p[i]
            == 0x2e by {
            if i < q.len() {
                assert(q[i] == p[i]);
            }
        }
    }
}

/// Every output to a file is looked for first, unless overwriting is forced.
pub proof fn files_are_looked_for(p: Seq<u8>, force: bool)
    ensures
        needs_preflight(Some(p), force) <==> !force && !is_stdout(p),
{
}

/// A file that appears behind the first look is refused as if it had been there before, and
/// every other failure is told from that.
pub proof fn late_files_are_refused(path: Seq<char>, failure: WriteFailure)
    ensures
        failure is AlreadyExists ==> write_refused(path, failure) == overwrite_refused(path),
        write_refused(path, failure) is Other <==> failure is AlreadyExists,
        failure matches WriteFailure::Open(e) ==> (write_refused(path, failure) matches error::ErrorView::Context {
            cause,
            ..
        } && cause == e@),
        failure matches WriteFailure::Write(e) ==> (write_refused(path, failure) matches error::ErrorView::Context {
            cause,
            ..
        } && cause == e@),
{
}

/// A slash at the end of a path, or a slash and a dot, makes no difference to whether it
/// stands for the standard output.
pub proof fn slashes_at_the_end_are_ignored(p: Seq<u8>)
    ensures
        is_stdout(p + seq![0x2fu8]) == is_stdout(p),
        is_stdout(p + seq![0x2fu8, 0x2e]) == is_stdout(p),
{
    let a = p + seq![0x2fu8];
    let b = p + seq![0x2fu8, 0x2e];
    path_end_bounds(p);
    assert(a.drop_last() =~= p);
    assert(b.drop_last() =~= a);
    assert(a.last() == 0x2f);
    assert(b.last() == 0x2e && b[b.len() - 2] == 0x2f);
    assert(path_end(a) == path_end(p));
    assert(path_end(b) == path_end(a));
    assert(a.take(path_end(p)) =~= p.take(path_end(p)));
    assert(b.take(path_end(p)) =~= p.take(path_end(p)));
}

/// The path of a parent directory has no file name, and stays as it is.
pub proof fn parents_have_no_signature_path(dir: Seq<u8>)
    requires
        dir.len() == 0 || dir.last() == 0x2f,
    ensures
        signature_path(dir + seq![0x2eu8, 0x2e]) == dir + seq![0x2eu8, 0x2e],
{
    let name = seq![0x2eu8, 0x2e];
    let p = dir + name;
    assert(p.last() == 0x2e && p[p.len() - 2] == 0x2e);
    assert(path_end(p) == p.len());
    assert(p.take(p.len() as int) =~= p);
    name_start_is(dir, name);
    assert(p.skip(dir.len() as int) =~= name);
}

} // verus!
