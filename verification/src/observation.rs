//! What a lifecycle snapshot records of paths and of the distribution.

use vstd::bytes::{spec_u64_to_le_bytes, u64_to_le_bytes};
use vstd::prelude::*;
use vstd::string::*;
use vstd::utf8::encode_utf8;

use crate::digest::{sha256_digest, sha256_of};
use crate::fault::{invalid_data, invalid_of, refused, Fault, FaultKind, FaultView};
use crate::files::{result_view, FileKind, Metadata};
use crate::model::option_text;
use crate::order::{sort, sorted, views, SortKey};
use crate::text::{chars, copy, find_char, first_index, from, same, slice, split, split_text, texts};

verus! {

/// The largest number of entries that a snapshot takes in.
pub const MAX_DIRECTORY_ENTRIES: usize = 16384;

/// The largest distribution description in bytes.
pub const MAX_OS_RELEASE_BYTES: u64 = 65536;

/// What a snapshot records of one path.
#[derive(Debug, PartialEq, Eq)]
pub struct PathState {
    pub path: String,
    pub kind: &'static str,
    pub target: Option<String>,
    pub uid: Option<u32>,
    pub mode: Option<u32>,
    pub link_count: Option<u64>,
    pub entry_count: Option<u32>,
    pub entry_digest: Option<[u8; 32]>,
}

/// A path state over plain values.
pub struct PathStateView {
    pub path: Seq<char>,
    pub kind: Seq<char>,
    pub target: Option<Seq<char>>,
    pub uid: Option<u32>,
    pub mode: Option<u32>,
    pub link_count: Option<u64>,
    pub entry_count: Option<u32>,
    pub entry_digest: Option<Seq<u8>>,
}

impl View for PathState {
    type V = PathStateView;

    open spec fn view(&self) -> PathStateView {
        PathStateView {
            path: self.path@,
            kind: self.kind@,
            target: option_text(self.target),
            uid: self.uid,
            mode: self.mode,
            link_count: self.link_count,
            entry_count: self.entry_count,
            entry_digest: crate::digest::option_digest(self.entry_digest),
        }
    }
}

impl PathState {
    /// Whether nothing stood at the path.
    pub fn is_absent(&self) -> (r: bool)
        ensures
            r == (self@.kind == "absent"@),
    {
        same(self.kind, "absent")
    }
}

/// The name of a directory entry in bytes.
#[derive(Debug)]
pub struct EntryName {
    pub bytes: Vec<u8>,
}

impl View for EntryName {
    type V = Seq<u8>;

    open spec fn view(&self) -> Seq<u8> {
        self.bytes@
    }
}

impl SortKey for EntryName {
    open spec fn key_of(v: Seq<u8>) -> Seq<char> {
        Seq::new(v.len(), |i: int| v[i] as char)
    }

    fn key_text(&self) -> (s: String) {
        let mut s: String = String::new();
        let ghost full = Self::key_of(self@);
        let mut i: usize = 0;
        while i < self.bytes.len()
            invariant
                i <= self.bytes@.len(),
                full == Self::key_of(self.bytes@),
                s@ == full.subrange(0, i as int),
            decreases self.bytes@.len() - i,
        {
            s.push(self.bytes[i] as char);
            proof {
                assert(full.subrange(0, i as int + 1) =~= full.subrange(0, i as int).push(
                    full[i as int],
                ));
            }
            i += 1;
        }
        proof {
            assert(full.subrange(0, full.len() as int) =~= full);
        }
        s
    }
}

/// The names one behind the other, each with its length before it.
pub open spec fn framed_names(s: Seq<Seq<u8>>) -> Seq<u8>
    decreases s.len(),
{
    if s.len() == 0 {
        Seq::empty()
    } else {
        framed_names(s.drop_last()) + spec_u64_to_le_bytes(s.last().len() as u64) + s.last()
    }
}

/// The bytes whose digest stands for the entries of a directory.
pub open spec fn entries_encoding(s: Seq<Seq<u8>>) -> Seq<u8> {
    encode_utf8("remap.linux-directory-entries/v1"@).push(0) + framed_names(sorted::<EntryName>(s))
}

/// The names of a directory in the order in which they were read, or why they
/// could not be read.
#[derive(Debug)]
pub struct RawListing {
    pub result: Result<Vec<EntryName>, Fault>,
}

impl View for RawListing {
    type V = Result<Seq<Seq<u8>>, FaultView>;

    open spec fn view(&self) -> Result<Seq<Seq<u8>>, FaultView> {
        match self.result {
            Ok(names) => Ok(views(names@)),
            Err(e) => Err(e@),
        }
    }
}

fn extend(v: &mut Vec<u8>, b: &[u8])
    ensures
        final(v)@ == old(v)@ + b@,
{
    let ghost before = v@;
    let mut i: usize = 0;
    while i < b.len()
        invariant
            i <= b@.len(),
            v@ == before + b@.subrange(0, i as int),
        decreases b@.len() - i,
    {
        v.push(b[i]);
        proof {
            assert(b@.subrange(0, i as int + 1) =~= b@.subrange(0, i as int).push(b@[i as int]));
            assert(v@ =~= before + b@.subrange(0, i as int + 1));
        }
        i += 1;
    }
    proof {
        assert(b@.subrange(0, b@.len() as int) =~= b@);
    }
}

/// The number of entries of a directory and the digest of their names.
pub fn directory_entries(names: Vec<EntryName>) -> (r: Result<(u32, [u8; 32]), Fault>)
    ensures
        match r {
            Ok((count, digest)) => names@.len() <= MAX_DIRECTORY_ENTRIES && count == names@.len()
                && digest@ == sha256_of(entries_encoding(views(names@))),
            Err(e) => names@.len() > MAX_DIRECTORY_ENTRIES && e@ == invalid_of(
                "a public directory exceeds the lifecycle snapshot bound"@,
            ),
        },
{
    if names.len() > MAX_DIRECTORY_ENTRIES {
        return Err(invalid_data("a public directory exceeds the lifecycle snapshot bound"));
    }
    let count: u32 = names.len() as u32;
    let ghost nv = views(names@);
    let ordered = sort(names);
    let ghost ov = sorted::<EntryName>(nv);
    let mut encoded: Vec<u8> = Vec::new();
    extend(&mut encoded, "remap.linux-directory-entries/v1".as_bytes());
    encoded.push(0);
    let ghost head = encode_utf8("remap.linux-directory-entries/v1"@).push(0);
    let mut i: usize = 0;
    proof {
        assert(encoded@ =~= head);
        assert(ov.subrange(0, 0) =~= Seq::<Seq<u8>>::empty());
        assert(encoded@ =~= head + framed_names(ov.subrange(0, 0)));
        assert(views(ordered@).len() == ordered@.len());
    }
    while i < ordered.len()
        invariant
            i <= ordered@.len(),
            views(ordered@) == ov,
            encoded@ == head + framed_names(ov.subrange(0, i as int)),
        decreases ordered@.len() - i,
    {
        let name = ordered[i].bytes.as_slice();
        let ghost before = encoded@;
        extend(&mut encoded, u64_to_le_bytes(name.len() as u64).as_slice());
        extend(&mut encoded, name);
        proof {
            let next = ov.subrange(0, i as int + 1);
            assert(next.drop_last() =~= ov.subrange(0, i as int));
            assert(next.last() == name@) by {
                assert(views(ordered@)[i as int] == ordered@[i as int]@);
            }
            assert(encoded@ =~= head + framed_names(next));
        }
        i += 1;
    }
    proof {
        assert(ov.subrange(0, ov.len() as int) =~= ov);
    }
    Ok((count, sha256_digest(encoded.as_slice())))
}

/// What the machine says of a path. The target and the entries are looked at
/// only where the kind calls for them.
#[derive(Debug)]
pub struct PathObservation {
    pub metadata: Result<Metadata, Fault>,
    pub target: Result<String, Fault>,
    pub entries: RawListing,
}

/// The word for a file kind.
pub open spec fn kind_word(kind: FileKind) -> Seq<char> {
    match kind {
        FileKind::Symlink => "symlink"@,
        FileKind::File => "file"@,
        FileKind::Directory => "directory"@,
        _ => "other"@,
    }
}

pub open spec fn text_result(r: Result<String, Fault>) -> Result<Seq<char>, FaultView> {
    match r {
        Ok(s) => Ok(s@),
        Err(e) => Err(e@),
    }
}

/// What a snapshot records of the entries of a directory.
pub open spec fn recorded_entries(names: Result<Seq<Seq<u8>>, FaultView>) -> Result<
    (u32, Seq<u8>),
    FaultView,
> {
    match names {
        Err(e) => Err(e),
        Ok(names) => if names.len() > MAX_DIRECTORY_ENTRIES {
            Err(invalid_of("a public directory exceeds the lifecycle snapshot bound"@))
        } else {
            Ok((names.len() as u32, sha256_of(entries_encoding(names))))
        },
    }
}

/// What a snapshot records of a path.
pub open spec fn recorded_path(path: Seq<char>, o: PathObservation) -> Result<
    PathStateView,
    FaultView,
> {
    match result_view(o.metadata) {
        Err(e) => if e.kind == FaultKind::NotFound {
            Ok(
                PathStateView {
                    path,
                    kind: "absent"@,
                    target: None,
                    uid: None,
                    mode: None,
                    link_count: None,
                    entry_count: None,
                    entry_digest: None,
                },
            )
        } else {
            Err(e)
        },
        Ok(m) => {
            let base = PathStateView {
                path,
                kind: kind_word(m.kind),
                target: None,
                uid: Some(m.uid),
                mode: Some(m.mode & 0o7777),
                link_count: Some(m.links),
                entry_count: None,
                entry_digest: None,
            };
            match m.kind {
                FileKind::Directory => match recorded_entries(o.entries@) {
                    Err(e) => Err(e),
                    Ok((count, digest)) => Ok(
                        PathStateView {
                            entry_count: Some(count),
                            entry_digest: Some(digest),
                            ..base
                        },
                    ),
                },
                FileKind::Symlink => match text_result(o.target) {
                    Err(e) => Err(e),
                    Ok(target) => Ok(PathStateView { target: Some(target), ..base }),
                },
                _ => Ok(base),
            }
        },
    }
}

/// What a snapshot records of a path.
pub fn path_state(path: &str, o: PathObservation) -> (r: Result<PathState, Fault>)
    ensures
        match r {
            Ok(state) => recorded_path(path@, o) == Ok::<PathStateView, FaultView>(state@),
            Err(e) => recorded_path(path@, o) == Err::<PathStateView, FaultView>(e@),
        },
{
    let m = match o.metadata {
        Err(e) => {
            if e.kind != FaultKind::NotFound {
                return Err(e);
            }
            return Ok(
                PathState {
                    path: copy(path),
                    kind: "absent",
                    target: None,
                    uid: None,
                    mode: None,
                    link_count: None,
                    entry_count: None,
                    entry_digest: None,
                },
            );
        },
        Ok(m) => m,
    };
    let kind: &'static str = match m.kind {
        FileKind::Symlink => "symlink",
        FileKind::File => "file",
        FileKind::Directory => "directory",
        _ => "other",
    };
    let mut state = PathState {
        path: copy(path),
        kind,
        target: None,
        uid: Some(m.uid),
        mode: Some(m.mode & 0o7777),
        link_count: Some(m.links),
        entry_count: None,
        entry_digest: None,
    };
    match m.kind {
        FileKind::Directory => {
            let names = match o.entries.result {
                Err(e) => {
                    return Err(e);
                },
                Ok(names) => names,
            };
            match directory_entries(names) {
                Err(e) => {
                    return Err(e);
                },
                Ok((count, digest)) => {
                    state.entry_count = Some(count);
                    state.entry_digest = Some(digest);
                },
            }
        },
        FileKind::Symlink => match o.target {
            Err(e) => {
                return Err(e);
            },
            Ok(target) => {
                state.target = Some(target);
            },
        },
        _ => {},
    }
    Ok(state)
}

// ---------------------------------------------------------------------------
// The distribution
// ---------------------------------------------------------------------------

/// A line without its carriage return; the last piece of a text was not ended
/// by a line feed and keeps one.
pub open spec fn line_of(piece: Seq<char>, last: bool) -> Seq<char> {
    if !last && piece.len() > 0 && piece.last() == '\r' {
        piece.drop_last()
    } else {
        piece
    }
}

/// A value without the quotes around it.
pub open spec fn unquoted(s: Seq<char>) -> Seq<char>
    decreases s.len(),
{
    if s.len() > 0 && s[0] == '"' {
        unquoted(s.drop_first())
    } else if s.len() > 0 && s.last() == '"' {
        unquoted(s.drop_last())
    } else {
        s
    }
}

/// The value that a line gives to a key, if it names exactly that key.
pub open spec fn line_value(line: Seq<char>, key: Seq<char>) -> Option<Seq<char>> {
    let i = first_index(line, '=');
    if i < line.len() && line.subrange(0, i) == key {
        Some(unquoted(from(line, i + 1)))
    } else {
        None
    }
}

/// The value of the first line from `n` on that gives the key one.
pub open spec fn first_value(pieces: Seq<Seq<char>>, key: Seq<char>, n: int) -> Option<Seq<char>>
    decreases pieces.len() - n,
{
    if n >= pieces.len() || n < 0 {
        None
    } else {
        match line_value(line_of(pieces[n], n == pieces.len() - 1), key) {
            Some(v) => Some(v),
            None => first_value(pieces, key, n + 1),
        }
    }
}

fn unquote(s: &str) -> (r: String)
    ensures
        r@ == unquoted(s@),
{
    let v = chars(s);
    let mut start: usize = 0;
    let mut end: usize = v.len();
    proof {
        assert(v@.subrange(0, v@.len() as int) =~= v@);
    }
    loop
        invariant
            start <= end <= v@.len(),
            v@ == s@,
            unquoted(v@.subrange(start as int, end as int)) == unquoted(s@),
        decreases end - start,
    {
        let ghost t = v@.subrange(start as int, end as int);
        if start < end && v[start] == '"' {
            proof {
                assert(t[0] == v@[start as int]);
                assert(t.drop_first() =~= v@.subrange(start as int + 1, end as int));
            }
            start += 1;
        } else if start < end && v[end - 1] == '"' {
            proof {
                assert(t[0] == v@[start as int]);
                assert(t.last() == v@[end - 1]);
                assert(t.drop_last() =~= v@.subrange(start as int, end - 1));
            }
            end -= 1;
        } else {
            proof {
                if start < end {
                    assert(t[0] == v@[start as int]);
                    assert(t.last() == v@[end - 1]);
                }
            }
            return slice(&v, start, end);
        }
    }
}

/// The value of a key in a distribution description.
pub fn os_release_value(contents: &str, key: &str) -> (r: Option<String>)
    ensures
        option_text(r) == first_value(split(contents@, '\n'), key@, 0),
{
    let lines = split_text(contents, '\n');
    let ghost pv = split(contents@, '\n');
    let mut n: usize = 0;
    proof {
        assert(texts(lines@).len() == lines@.len());
    }
    while n < lines.len()
        invariant
            n <= lines@.len(),
            texts(lines@) == pv,
            first_value(pv, key@, 0) == first_value(pv, key@, n as int),
            pv == split(contents@, '\n'),
        decreases lines@.len() - n,
    {
        proof {
            assert(texts(lines@)[n as int] == lines@[n as int]@);
        }
        let raw = chars(lines[n].as_str());
        let end: usize = if n + 1 < lines.len() && raw.len() > 0 && raw[raw.len() - 1] == '\r' {
            raw.len() - 1
        } else {
            raw.len()
        };
        let line_text = slice(&raw, 0, end);
        let ghost line = line_of(pv[n as int], n == pv.len() - 1);
        proof {
            assert(line_text@ =~= line);
        }
        let line_chars = chars(line_text.as_str());
        let i = find_char(&line_chars, 0, '=');
        proof {
            assert(line_chars@.subrange(0, line_chars@.len() as int) =~= line_chars@);
        }
        if i < line_chars.len() {
            let candidate = slice(&line_chars, 0, i);
            if same(candidate.as_str(), key) {
                let value = slice(&line_chars, i + 1, line_chars.len());
                return Some(unquote(value.as_str()));
            }
        }
        n += 1;
    }
    None
}

/// The distribution that a host runs.
#[derive(Debug, PartialEq, Eq)]
pub struct Distribution {
    pub id: String,
    pub version_id: String,
}

pub open spec fn value_or_unknown(v: Option<Seq<char>>) -> Seq<char> {
    match v {
        Some(v) => v,
        None => "unknown"@,
    }
}

/// Accepts a distribution description of a plausible length.
pub fn require_distribution_file(m: &Metadata) -> (r: Result<(), Fault>)
    ensures
        r is Ok <==> m.kind == FileKind::File && 0 < m.length <= MAX_OS_RELEASE_BYTES,
        r is Err ==> refused(r, invalid_of("the Linux distribution identity is unavailable"@)),
{
    if m.kind != FileKind::File || m.length == 0 || m.length > MAX_OS_RELEASE_BYTES {
        Err(invalid_data("the Linux distribution identity is unavailable"))
    } else {
        Ok(())
    }
}

/// The distribution that a description names.
pub fn distribution(text: &str) -> (r: Distribution)
    ensures
        r.id@ == value_or_unknown(first_value(split(text@, '\n'), "ID"@, 0)),
        r.version_id@ == value_or_unknown(first_value(split(text@, '\n'), "VERSION_ID"@, 0)),
{
    let id = match os_release_value(text, "ID") {
        Some(v) => v,
        None => copy("unknown"),
    };
    let version_id = match os_release_value(text, "VERSION_ID") {
        Some(v) => v,
        None => copy("unknown"),
    };
    Distribution { id, version_id }
}

} // verus!
