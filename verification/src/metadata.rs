//! File metadata: extraction from a path plus observed stat data, and
//! seeding of the fragment store.
//!
//! The filename is the last real component of the `/`-separated path, as
//! the platform names it: trailing separator runs and `.` components are
//! ignored, so `foo/bar/` and `foo/bar/.` both name `bar`, while a path
//! with no real component left, or one terminating in `..`, has no
//! filename and cannot be processed. The extension is the part of the
//! filename after the last `.`, except that a leading dot (a dotfile) does
//! not begin an extension.
//!
//! Seeding writes one fragment per attribute under a fixed key —
//! `filename`, `extension`, `path`, `absolute_path`, `accessed`, `created`,
//! `modified`, `filesize` — in that order. An absent optional attribute is
//! omitted rather than written as a sentinel. Timestamps are seconds since
//! the Unix epoch and, like the size, are rendered in decimal, which is
//! stable across runs.

use vstd::prelude::*;
use vstd::string::StringExecFns;

use crate::errors::RenameError;
use crate::fragments::{lookup, store_write, FragmentStore};
use crate::numeral::{decimal_digits, u64_string};
use crate::text::{chars_to_string, copy_range, string_to_chars};

verus! {

/// Timestamps and size read from one stat call, as plain values: each
/// timestamp is seconds since the Unix epoch, absent if the platform or
/// filesystem could not report it.
pub struct StatInfo {
    pub accessed: Option<u64>,
    pub created: Option<u64>,
    pub modified: Option<u64>,
    pub size: u64,
}

/// What the caller observed about the file on disk: the resolved absolute
/// path, if resolution succeeded, and the stat data, if the file was
/// readable. The parts are independently optional — a failed resolution
/// does not prevent timestamps from being used, and vice versa — but a
/// missing stat aborts extraction.
pub struct StatProbe {
    pub absolute_path: Option<String>,
    pub stat: Option<StatInfo>,
}

/// The mathematical content of a [`StatProbe`].
#[verifier::ext_equal]
pub struct ProbeView {
    pub absolute_path: Option<Seq<char>>,
    pub stat: Option<StatInfo>,
}

impl View for StatProbe {
    type V = ProbeView;

    open spec fn view(&self) -> ProbeView {
        ProbeView {
            absolute_path: match self.absolute_path {
                Some(p) => Some(p@),
                None => None,
            },
            stat: self.stat,
        }
    }
}

/// An immutable snapshot of a file's intrinsic attributes. `filename`,
/// `path` and `filesize` are always populated; the other attributes may
/// individually be absent without failing the extraction.
#[derive(Debug, PartialEq, Eq)]
pub struct FileMetadata {
    pub filename: String,
    pub extension: Option<String>,
    pub path: String,
    pub absolute_path: Option<String>,
    pub accessed: Option<u64>,
    pub created: Option<u64>,
    pub modified: Option<u64>,
    pub filesize: u64,
}

/// The mathematical content of a [`FileMetadata`].
#[verifier::ext_equal]
pub struct MetaView {
    pub filename: Seq<char>,
    pub extension: Option<Seq<char>>,
    pub path: Seq<char>,
    pub absolute_path: Option<Seq<char>>,
    pub accessed: Option<u64>,
    pub created: Option<u64>,
    pub modified: Option<u64>,
    pub filesize: u64,
}

impl View for FileMetadata {
    type V = MetaView;

    open spec fn view(&self) -> MetaView {
        MetaView {
            filename: self.filename@,
            extension: match self.extension {
                Some(x) => Some(x@),
                None => None,
            },
            path: self.path@,
            absolute_path: match self.absolute_path {
                Some(x) => Some(x@),
                None => None,
            },
            accessed: self.accessed,
            created: self.created,
            modified: self.modified,
            filesize: self.filesize,
        }
    }
}

/// The characters of `p` after its last `/`; all of `p` if it has none,
/// empty if `p` is empty or ends in `/`.
pub open spec fn after_last_slash(p: Seq<char>) -> Seq<char>
    decreases p.len(),
{
    if p.len() == 0 {
        Seq::empty()
    } else if p.last() == '/' {
        Seq::empty()
    } else {
        after_last_slash(p.drop_last()).push(p.last())
    }
}

/// The filename component of a path: the last real component of the
/// `/`-separated path. Trailing separator runs and `.` components are
/// ignored; a path with no real component left (empty, a root, only dots
/// and separators), or whose last real component is `..`, has none.
pub open spec fn spec_filename(p: Seq<char>) -> Option<Seq<char>>
    decreases p.len(),
{
    if p.len() == 0 {
        None
    } else if p.last() == '/' {
        spec_filename(p.drop_last())
    } else if after_last_slash(p) == seq!['.'] {
        spec_filename(p.drop_last())
    } else if after_last_slash(p) == seq!['.', '.'] {
        None
    } else {
        Some(after_last_slash(p))
    }
}

/// When no separator stands at or after `start`, and `start` is the path's
/// beginning or right after a separator, the characters from `start` on are
/// exactly the part after the last separator.
proof fn lemma_after_last_slash_range(p: Seq<char>, start: int)
    requires
        0 <= start <= p.len(),
        forall|j: int| start <= j < p.len() ==> p[j] != '/',
        start == 0 || p[start - 1] == '/',
    ensures
        after_last_slash(p) == p.subrange(start, p.len() as int),
    decreases p.len(),
{
    if p.len() == start {
        if start == 0 {
            assert(p.subrange(0, 0) =~= Seq::<char>::empty());
        } else {
            assert(p.last() == '/');
            assert(p.subrange(start, p.len() as int) =~= Seq::<char>::empty());
        }
    } else {
        assert(p.last() != '/');
        lemma_after_last_slash_range(p.drop_last(), start);
        assert(p.drop_last().subrange(start, p.len() - 1).push(p.last()) =~= p.subrange(
            start,
            p.len() as int,
        ));
    }
}

/// The extension of a filename: what follows its last `.`. A name without a
/// dot, or whose only dot is the leading character, has none.
pub open spec fn spec_extension(name: Seq<char>) -> Option<Seq<char>>
    decreases name.len(),
{
    if name.len() == 0 {
        None
    } else if name.last() == '.' {
        if name.len() >= 2 {
            Some(Seq::empty())
        } else {
            None
        }
    } else {
        match spec_extension(name.drop_last()) {
            Some(e) => Some(e.push(name.last())),
            None => None,
        }
    }
}

/// What extraction yields for a path and an observation: the filename is
/// required (else `NotAFile`), then the stat data is required (else
/// `MetadataUnavailable`); everything else is optional.
pub open spec fn spec_extract(p: Seq<char>, probe: ProbeView) -> Result<MetaView, RenameError> {
    match spec_filename(p) {
        None => Err(RenameError::NotAFile),
        Some(name) => match probe.stat {
            None => Err(RenameError::MetadataUnavailable),
            Some(st) => Ok(
                MetaView {
                    filename: name,
                    extension: spec_extension(name),
                    path: p,
                    absolute_path: probe.absolute_path,
                    accessed: st.accessed,
                    created: st.created,
                    modified: st.modified,
                    filesize: st.size,
                },
            ),
        },
    }
}

/// Scans backwards for the filename component of the first `end` characters
/// of a path, per [`spec_filename`]: a trailing separator or `.` component
/// is stepped over, one recursion step each, and the index range of the
/// last real component comes back, unless it is absent or is `..`.
fn find_filename_from(chars: &Vec<char>, end: usize) -> (r: Option<(usize, usize)>)
    requires
        end <= chars@.len(),
    ensures
        match r {
            Some(se) => se.0 < se.1 <= end && spec_filename(chars@.take(end as int)) == Some(
                chars@.subrange(se.0 as int, se.1 as int),
            ),
            None => spec_filename(chars@.take(end as int)) is None,
        },
    decreases end,
{
    if end == 0 {
        return None;
    }
    proof {
        assert(chars@.take(end as int).last() == chars@[end - 1]);
        assert(chars@.take(end as int).drop_last() =~= chars@.take(end as int - 1));
    }
    if chars[end - 1] == '/' {
        return find_filename_from(chars, end - 1);
    }
    let ghost t = chars@.take(end as int);
    let mut start: usize = end;
    while start > 0 && chars[start - 1] != '/'
        invariant
            0 < end <= chars@.len(),
            start <= end,
            chars@[end as int - 1] != '/',
            forall|j: int| start <= j < end ==> chars@[j] != '/',
        decreases start,
    {
        start -= 1;
    }
    assert(start < end);
    proof {
        lemma_after_last_slash_range(t, start as int);
        assert(t.subrange(start as int, end as int) =~= chars@.subrange(
            start as int,
            end as int,
        ));
    }
    if end - start == 1 && chars[start] == '.' {
        // A bare `.` component: step over it.
        proof {
            assert(chars@.subrange(start as int, end as int) =~= seq!['.']);
        }
        return find_filename_from(chars, end - 1);
    }
    if end - start == 2 && chars[start] == '.' && chars[start + 1] == '.' {
        // A path terminating in `..` names no file.
        proof {
            assert(chars@.subrange(start as int, end as int) =~= seq!['.', '.']);
        }
        return None;
    }
    proof {
        let b = chars@.subrange(start as int, end as int);
        assert(b != seq!['.']) by {
            if b == seq!['.'] {
                assert(b.len() == 1);
                assert(b[0] == chars@[start as int]);
            }
        }
        assert(b != seq!['.', '.']) by {
            if b == seq!['.', '.'] {
                assert(b.len() == 2);
                assert(b[0] == chars@[start as int]);
                assert(b[1] == chars@[start as int + 1]);
            }
        }
    }
    Some((start, end))
}

/// Builds the metadata snapshot for `path` from what the caller observed on
/// disk. Pure: the observation is taken as given.
pub fn extract(path: &String, probe: StatProbe) -> (r: Result<FileMetadata, RenameError>)
    ensures
        match r {
            Ok(m) => spec_extract(path@, probe@) == Ok::<MetaView, RenameError>(m@),
            Err(e) => spec_extract(path@, probe@) == Err::<MetaView, RenameError>(e),
        },
{
    let chars = string_to_chars(path.as_str());
    let n = chars.len();
    proof {
        assert(chars@.take(n as int) =~= chars@);
    }
    let (start, end) = match find_filename_from(&chars, n) {
        Some(se) => se,
        None => {
            return Err(RenameError::NotAFile);
        },
    };
    let name_chars = copy_range(&chars, start, end);
    let filename = chars_to_string(&name_chars);

    // The extension starts right after the last dot of the filename, unless
    // that dot leads the name.
    let m = name_chars.len();
    let mut k: usize = m;
    proof {
        assert(name_chars@.subrange(0, m as int) =~= name_chars@);
        if spec_extension(name_chars@) is Some {
            assert(spec_extension(name_chars@).unwrap() + name_chars@.subrange(m as int, m as int)
                =~= spec_extension(name_chars@).unwrap());
        }
    }
    while k > 0 && name_chars[k - 1] != '.'
        invariant
            k <= m,
            m == name_chars@.len(),
            match spec_extension(name_chars@.subrange(0, k as int)) {
                Some(e) => spec_extension(name_chars@) == Some(
                    e + name_chars@.subrange(k as int, m as int),
                ),
                None => spec_extension(name_chars@) is None,
            },
        decreases k,
    {
        proof {
            let pre = name_chars@.subrange(0, k as int);
            assert(pre.last() == name_chars@[k - 1]);
            assert(pre.drop_last() =~= name_chars@.subrange(0, k as int - 1));
            if spec_extension(pre.drop_last()) is Some {
                assert(spec_extension(pre.drop_last()).unwrap().push(pre.last())
                    + name_chars@.subrange(k as int, m as int) =~= spec_extension(
                    pre.drop_last(),
                ).unwrap() + name_chars@.subrange(k as int - 1, m as int));
            }
        }
        k -= 1;
    }
    let extension: Option<String> = if k >= 2 {
        proof {
            let pre = name_chars@.subrange(0, k as int);
            assert(pre.last() == '.');
            assert(Seq::<char>::empty() + name_chars@.subrange(k as int, m as int)
                =~= name_chars@.subrange(k as int, m as int));
        }
        let ext_chars = copy_range(&name_chars, k, m);
        Some(chars_to_string(&ext_chars))
    } else {
        proof {
            if k == 0 {
                assert(name_chars@.subrange(0, 0) =~= Seq::<char>::empty());
                assert(spec_extension(Seq::<char>::empty()) is None);
            } else {
                assert(name_chars@.subrange(0, 1).last() == '.');
            }
        }
        None
    };

    match probe.stat {
        None => Err(RenameError::MetadataUnavailable),
        Some(st) => {
            let meta = FileMetadata {
                filename,
                extension,
                path: path.clone(),
                absolute_path: probe.absolute_path,
                accessed: st.accessed,
                created: st.created,
                modified: st.modified,
                filesize: st.size,
            };
            proof {
                assert(spec_extract(path@, probe@) == Ok::<MetaView, RenameError>(meta@)) by {
                    assert(meta@ =~= spec_extract(path@, probe@).unwrap());
                }
            }
            Ok(meta)
        },
    }
}

/// The stem of a filename: the name with its extension (and the dot before
/// it) removed; the whole name when there is no extension. This is what the
/// `filename` fragment holds, so that a template can rebuild the full name
/// as `{filename}.{extension}` or replace the extension freely.
pub open spec fn stem_of(name: Seq<char>, ext: Option<Seq<char>>) -> Seq<char> {
    match ext {
        Some(e) => if e.len() < name.len() {
            name.take(name.len() - e.len() - 1)
        } else {
            name
        },
        None => name,
    }
}

/// Computes the stem of a filename, as [`stem_of`] describes it.
fn stem_string(filename: &String, extension: &Option<String>) -> (r: String)
    ensures
        r@ == stem_of(
            filename@,
            match extension {
                Some(e) => Some(e@),
                None => None,
            },
        ),
{
    match extension {
        Some(ext) => {
            let chars = string_to_chars(filename.as_str());
            let n = chars.len();
            let el = ext.as_str().unicode_len();
            if el < n {
                let stem = copy_range(&chars, 0, n - el - 1);
                chars_to_string(&stem)
            } else {
                filename.clone()
            }
        },
        None => filename.clone(),
    }
}

/// The store contents after seeding from metadata `m`: one write per
/// present attribute, in a fixed order, ending with the size.
pub open spec fn seeded(
    entries: Seq<(Seq<char>, Seq<char>)>,
    m: MetaView,
) -> Seq<(Seq<char>, Seq<char>)> {
    let e1 = store_write(entries, "filename"@, stem_of(m.filename, m.extension));
    let e2 = match m.extension {
        Some(x) => store_write(e1, "extension"@, x),
        None => e1,
    };
    let e3 = store_write(e2, "path"@, m.path);
    let e4 = match m.absolute_path {
        Some(x) => store_write(e3, "absolute_path"@, x),
        None => e3,
    };
    let e5 = match m.accessed {
        Some(t) => store_write(e4, "accessed"@, decimal_digits(t as nat)),
        None => e4,
    };
    let e6 = match m.created {
        Some(t) => store_write(e5, "created"@, decimal_digits(t as nat)),
        None => e5,
    };
    let e7 = match m.modified {
        Some(t) => store_write(e6, "modified"@, decimal_digits(t as nat)),
        None => e6,
    };
    store_write(e7, "filesize"@, decimal_digits(m.filesize as nat))
}

/// Writes one fragment per metadata attribute into `store`, under the fixed
/// keys, overwriting any fragments already held under them.
pub fn seed_from_metadata(store: &mut FragmentStore, meta: &FileMetadata)
    requires
        old(store).wf(),
    ensures
        final(store).wf(),
        final(store)@ == seeded(old(store)@, meta@),
{
    store.set(String::from_str("filename"), stem_string(&meta.filename, &meta.extension));
    match &meta.extension {
        Some(x) => store.set(String::from_str("extension"), x.clone()),
        None => {},
    }
    store.set(String::from_str("path"), meta.path.clone());
    match &meta.absolute_path {
        Some(x) => store.set(String::from_str("absolute_path"), x.clone()),
        None => {},
    }
    match meta.accessed {
        Some(t) => store.set(String::from_str("accessed"), u64_string(t)),
        None => {},
    }
    match meta.created {
        Some(t) => store.set(String::from_str("created"), u64_string(t)),
        None => {},
    }
    match meta.modified {
        Some(t) => store.set(String::from_str("modified"), u64_string(t)),
        None => {},
    }
    store.set(String::from_str("filesize"), u64_string(meta.filesize));
}

/// Metadata seeding populates a fixed, non-empty set of fragment keys: the
/// filename and size fragments are always present afterwards, holding the
/// file's stem and its decimal size, whatever the store held before.
pub proof fn lemma_seed_populates(entries: Seq<(Seq<char>, Seq<char>)>, m: MetaView)
    ensures
        lookup(seeded(entries, m), "filename"@) == Some(stem_of(m.filename, m.extension)),
        lookup(seeded(entries, m), "filesize"@) == Some(decimal_digits(m.filesize as nat)),
        seeded(entries, m).len() > 0,
{
    reveal_strlit("filename");
    reveal_strlit("extension");
    reveal_strlit("path");
    reveal_strlit("absolute_path");
    reveal_strlit("accessed");
    reveal_strlit("created");
    reveal_strlit("modified");
    reveal_strlit("filesize");
    assert("extension"@.len() != "filename"@.len());
    assert("path"@.len() != "filename"@.len());
    assert("absolute_path"@.len() != "filename"@.len());
    assert("accessed"@[0] != "filename"@[0]);
    assert("created"@.len() != "filename"@.len());
    assert("modified"@[0] != "filename"@[0]);
    assert("filesize"@[4] != "filename"@[4]);

    let e1 = store_write(entries, "filename"@, stem_of(m.filename, m.extension));
    let e2 = match m.extension {
        Some(x) => store_write(e1, "extension"@, x),
        None => e1,
    };
    let e3 = store_write(e2, "path"@, m.path);
    let e4 = match m.absolute_path {
        Some(x) => store_write(e3, "absolute_path"@, x),
        None => e3,
    };
    let e5 = match m.accessed {
        Some(t) => store_write(e4, "accessed"@, decimal_digits(t as nat)),
        None => e4,
    };
    let e6 = match m.created {
        Some(t) => store_write(e5, "created"@, decimal_digits(t as nat)),
        None => e5,
    };
    let e7 = match m.modified {
        Some(t) => store_write(e6, "modified"@, decimal_digits(t as nat)),
        None => e6,
    };

    crate::fragments::lemma_lookup_write_same(entries, "filename"@, stem_of(m.filename, m.extension));
    if m.extension is Some {
        crate::fragments::lemma_lookup_write_other(
            e1,
            "extension"@,
            m.extension.unwrap(),
            "filename"@,
        );
    }
    crate::fragments::lemma_lookup_write_other(e2, "path"@, m.path, "filename"@);
    if m.absolute_path is Some {
        crate::fragments::lemma_lookup_write_other(
            e3,
            "absolute_path"@,
            m.absolute_path.unwrap(),
            "filename"@,
        );
    }
    if m.accessed is Some {
        crate::fragments::lemma_lookup_write_other(
            e4,
            "accessed"@,
            decimal_digits(m.accessed.unwrap() as nat),
            "filename"@,
        );
    }
    if m.created is Some {
        crate::fragments::lemma_lookup_write_other(
            e5,
            "created"@,
            decimal_digits(m.created.unwrap() as nat),
            "filename"@,
        );
    }
    if m.modified is Some {
        crate::fragments::lemma_lookup_write_other(
            e6,
            "modified"@,
            decimal_digits(m.modified.unwrap() as nat),
            "filename"@,
        );
    }
    crate::fragments::lemma_lookup_write_same(e7, "filesize"@, decimal_digits(m.filesize as nat));
    crate::fragments::lemma_lookup_write_other(
        e7,
        "filesize"@,
        decimal_digits(m.filesize as nat),
        "filename"@,
    );
    if seeded(entries, m).len() == 0 {
        assert(lookup(seeded(entries, m), "filesize"@) is None);
    }
}

} // verus!
