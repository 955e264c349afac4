//! The serializable change set an analysis host consumes: the crate
//! graph snapshot, the partition of files into local and library source
//! roots, and changed file contents keyed by file identity.

use crate::graph_json::CrateGraphJson;
use vstd::prelude::*;
use vstd::pervasive::VecAdditionalExecFns;

verus! {

/// One source root of the host: whether it holds library code, and its
/// files — each a stable identity with an optional path.
#[derive(Debug)]
pub struct SourceRoot {
    pub is_library: bool,
    pub files: Vec<(u32, Option<String>)>,
}

/// Mathematical value of an optional file text or path.
pub open spec fn text_view(t: &Option<String>) -> Option<Seq<char>> {
    match t {
        Some(p) => Some(p@),
        None => None,
    }
}

/// Mathematical value of a file entry.
pub open spec fn file_entry_view(e: (u32, Option<String>)) -> (u32, Option<Seq<char>>) {
    (e.0, text_view(&e.1))
}

/// The mathematical values of a list of file entries.
pub open spec fn file_views(s: Seq<(u32, Option<String>)>) -> Seq<(u32, Option<Seq<char>>)> {
    s.map_values(|e: (u32, Option<String>)| file_entry_view(e))
}

/// The serialized form of the source roots of one kind: the files of
/// every root of that kind, flattened in order.
#[derive(Debug)]
pub struct SourceRootJson {
    pub roots: Vec<(u32, Option<String>)>,
}

impl Default for SourceRootJson {
    /// No files.
    fn default() -> (r: Self)
        ensures
            r.roots@.len() == 0,
    {
        SourceRootJson { roots: Vec::new() }
    }
}

/// The flattened file entries of the roots of one kind among the first
/// `upto` roots.
pub open spec fn spec_roots_files(s: Seq<SourceRoot>, library: bool, upto: int) -> Seq<
    (u32, Option<Seq<char>>),
>
    decreases upto,
{
    if upto <= 0 {
        Seq::empty()
    } else {
        let prefix = spec_roots_files(s, library, upto - 1);
        if s[upto - 1].is_library == library {
            prefix + file_views(s[upto - 1].files@)
        } else {
            prefix
        }
    }
}

impl SourceRootJson {
    /// Gathers the files of every root of the given kind, keeping root
    /// order and file order.
    pub fn from_roots(roots: &Vec<SourceRoot>, library: bool) -> (r: SourceRootJson)
        ensures
            file_views(r.roots@) == spec_roots_files(roots@, library, roots@.len() as int),
    {
        let ghost s = roots@;
        let mut out: Vec<(u32, Option<String>)> = Vec::new();
        proof {
            assert(file_views(out@) =~= spec_roots_files(s, library, 0));
        }
        let mut i: usize = 0;
        while i < roots.len()
            invariant
                0 <= i <= s.len(),
                s == roots@,
                file_views(out@) == spec_roots_files(s, library, i as int),
            decreases s.len() - i,
        {
            if roots[i].is_library == library {
                let ghost fs = file_views(s[i as int].files@);
                let mut j: usize = 0;
                while j < roots[i].files.len()
                    invariant
                        0 <= i < s.len(),
                        0 <= j <= s[i as int].files@.len(),
                        s == roots@,
                        fs == file_views(s[i as int].files@),
                        file_views(out@) == spec_roots_files(s, library, i as int) + fs.take(
                            j as int,
                        ),
                    decreases s[i as int].files@.len() - j,
                {
                    let id = roots[i].files[j].0;
                    let path = match &roots[i].files[j].1 {
                        Some(p) => Some(p.clone()),
                        None => None,
                    };
                    let ghost prev = out@;
                    out.push((id, path));
                    proof {
                        assert(file_views(prev).len() == prev.len());
                        assert(out@ == prev.push((id, path)));
                        assert forall|z: int|
                            0 <= z < out@.len() implies file_views(out@)[z] == (spec_roots_files(
                            s,
                            library,
                            i as int,
                        ) + fs.take(j + 1))[z] by {
                            if z < prev.len() {
                                assert(out@[z] == prev[z]);
                                assert(file_views(out@)[z] == file_views(prev)[z]);
                            } else {
                                assert(out@[z] == (id, path));
                                assert(fs[j as int] == file_entry_view(
                                    s[i as int].files@[j as int],
                                ));
                            }
                        }
                        assert(file_views(out@) =~= spec_roots_files(s, library, i as int)
                            + fs.take(j + 1));
                    }
                    j = j + 1;
                }
                proof {
                    assert(fs.take(fs.len() as int) =~= fs);
                }
            }
            i = i + 1;
        }
        SourceRootJson { roots: out }
    }

    /// Materializing source roots from their serialized form is not
    /// wired up: the host re-partitions files itself, so this yields no
    /// roots.
    pub fn to_roots(&self) -> (r: Vec<SourceRoot>)
        ensures
            r@.len() == 0,
    {
        Vec::new()
    }
}

/// Replacing the entry of a file identity, or appending a new one.
pub open spec fn spec_file_set(
    s: Seq<(u32, Option<Seq<char>>)>,
    id: u32,
    text: Option<Seq<char>>,
) -> Seq<(u32, Option<Seq<char>>)>
    decreases s.len(),
{
    if s.len() == 0 {
        seq![(id, text)]
    } else if s.first().0 == id {
        seq![(id, text)] + s.drop_first()
    } else {
        seq![s.first()] + spec_file_set(s.drop_first(), id, text)
    }
}

/// Replacing at the first position where the identity occurs is what
/// `spec_file_set` does.
proof fn lemma_file_set_found(
    s: Seq<(u32, Option<Seq<char>>)>,
    id: u32,
    text: Option<Seq<char>>,
    i: int,
)
    requires
        0 <= i < s.len(),
        s[i].0 == id,
        forall|j: int| 0 <= j < i ==> (#[trigger] s[j]).0 != id,
    ensures
        spec_file_set(s, id, text) == s.update(i, (id, text)),
    decreases i,
{
    if i == 0 {
        assert(spec_file_set(s, id, text) =~= s.update(0, (id, text)));
    } else {
        let rest = s.drop_first();
        assert(rest[i - 1].0 == id);
        assert(forall|j: int| 0 <= j < i - 1 ==> (#[trigger] rest[j]).0 != id);
        lemma_file_set_found(rest, id, text, i - 1);
        assert(spec_file_set(s, id, text) =~= s.update(i, (id, text)));
    }
}

/// An identity that occurs nowhere is appended at the end.
proof fn lemma_file_set_missing(s: Seq<(u32, Option<Seq<char>>)>, id: u32, text: Option<Seq<char>>)
    requires
        forall|j: int| 0 <= j < s.len() ==> (#[trigger] s[j]).0 != id,
    ensures
        spec_file_set(s, id, text) == s.push((id, text)),
    decreases s.len(),
{
    if s.len() == 0 {
        assert(spec_file_set(s, id, text) =~= s.push((id, text)));
    } else {
        let rest = s.drop_first();
        assert(forall|j: int| 0 <= j < rest.len() ==> (#[trigger] rest[j]).0 != id);
        lemma_file_set_missing(rest, id, text);
        assert(spec_file_set(s, id, text) =~= s.push((id, text)));
    }
}

/// The change set an analysis host consumes.
#[derive(Debug)]
pub struct ChangeJson {
    pub crate_graph: CrateGraphJson,
    pub local_roots: SourceRootJson,
    pub library_roots: SourceRootJson,
    pub files: Vec<(u32, Option<String>)>,
}

impl Default for ChangeJson {
    /// An empty change: no graph, no roots, no files.
    fn default() -> (r: Self)
        ensures
            r.crate_graph@.roots.len() == 0,
            r.crate_graph@.deps.len() == 0,
            r.local_roots.roots@.len() == 0,
            r.library_roots.roots@.len() == 0,
            r.files@.len() == 0,
    {
        ChangeJson {
            crate_graph: CrateGraphJson::default(),
            local_roots: SourceRootJson::default(),
            library_roots: SourceRootJson::default(),
            files: Vec::new(),
        }
    }
}

impl ChangeJson {
    /// Records the new contents of a file (or its removal, as `None`):
    /// the entry of that file identity is replaced, or appended if the
    /// identity is new.
    pub fn change_file(&mut self, file_id: u32, new_text: Option<String>)
        ensures
            file_views(final(self).files@) == spec_file_set(
                file_views(old(self).files@),
                file_id,
                text_view(&new_text),
            ),
            final(self).crate_graph == old(self).crate_graph,
            final(self).local_roots == old(self).local_roots,
            final(self).library_roots == old(self).library_roots,
    {
        let ghost s = file_views(self.files@);
        let ghost tv: Option<Seq<char>> = text_view(&new_text);
        let mut i: usize = 0;
        while i < self.files.len()
            invariant
                0 <= i <= self.files@.len(),
                s == file_views(self.files@),
                s == file_views(old(self).files@),
                tv == text_view(&new_text),
                old(self).crate_graph == self.crate_graph,
                old(self).local_roots == self.local_roots,
                old(self).library_roots == self.library_roots,
                forall|j: int| 0 <= j < i ==> (#[trigger] s[j]).0 != file_id,
            decreases self.files@.len() - i,
        {
            if self.files[i].0 == file_id {
                proof {
                    assert(s[i as int].0 == file_id);
                }
                let ghost ev = (file_id, tv);
                let entry = (file_id, new_text);
                let ghost pre = self.files@;
                self.files.set(i, entry);
                proof {
                    assert(self.files@[i as int] == entry);
                    assert(file_entry_view(entry) == ev);
                    assert forall|z: int|
                        0 <= z < self.files@.len() implies file_views(self.files@)[z] == s.update(
                        i as int,
                        (file_id, tv),
                    )[z] by {
                        if z == i {
                            assert(file_views(self.files@)[z] == ev);
                        } else {
                            assert(self.files@[z] == pre[z]);
                            assert(file_views(self.files@)[z] == file_views(pre)[z]);
                        }
                    }
                    assert(file_views(self.files@).len() == self.files@.len());
                    assert(file_views(self.files@) =~= s.update(i as int, (file_id, tv)));
                    lemma_file_set_found(s, file_id, tv, i as int);
                }
                return ;
            }
            i = i + 1;
        }
        let ghost ev = (file_id, tv);
        let entry = (file_id, new_text);
        let ghost pre = self.files@;
        self.files.push(entry);
        proof {
            assert forall|z: int|
                0 <= z < self.files@.len() implies file_views(self.files@)[z] == s.push(
                (file_id, tv),
            )[z] by {
                if z == pre.len() {
                    assert(file_views(self.files@)[z] == ev);
                } else {
                    assert(self.files@[z] == pre[z]);
                    assert(file_views(self.files@)[z] == file_views(pre)[z]);
                }
            }
            assert(file_views(self.files@) =~= s.push((file_id, tv)));
            lemma_file_set_missing(s, file_id, tv);
        }
    }

    /// Partitions the given source roots into the library and local
    /// serialized root sets.
    pub fn set_roots(&mut self, roots: Vec<SourceRoot>)
        ensures
            file_views(final(self).library_roots.roots@) == spec_roots_files(
                roots@,
                true,
                roots@.len() as int,
            ),
            file_views(final(self).local_roots.roots@) == spec_roots_files(
                roots@,
                false,
                roots@.len() as int,
            ),
            final(self).crate_graph == old(self).crate_graph,
            final(self).files == old(self).files,
    {
        self.library_roots = SourceRootJson::from_roots(&roots, true);
        self.local_roots = SourceRootJson::from_roots(&roots, false);
    }

    /// Stores the crate-graph snapshot of this change.
    pub fn set_crate_graph(&mut self, crate_graph: CrateGraphJson)
        ensures
            final(self).crate_graph@ == crate_graph@,
            final(self).local_roots == old(self).local_roots,
            final(self).library_roots == old(self).library_roots,
            final(self).files == old(self).files,
    {
        self.crate_graph = crate_graph;
    }
}

} // verus!
