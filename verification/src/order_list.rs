//! The folders of the orders folder, in file name order.
use vstd::prelude::*;
use crate::fs_path::{FsPath, PathView};

verus! {

/// Byte strings in lexicographic order, as `OsStr` compares file names.
pub open spec fn bytes_le(a: Seq<u8>, b: Seq<u8>) -> bool
    decreases a.len(),
{
    if a.len() == 0 {
        true
    } else if b.len() == 0 {
        false
    } else if a[0] != b[0] {
        a[0] < b[0]
    } else {
        bytes_le(a.drop_first(), b.drop_first())
    }
}

/// Any two byte strings are ordered one way or the other.
pub proof fn lemma_bytes_le_total(a: Seq<u8>, b: Seq<u8>)
    ensures
        bytes_le(a, b) || bytes_le(b, a),
    decreases a.len(),
{
    if a.len() > 0 && b.len() > 0 && a[0] == b[0] {
        lemma_bytes_le_total(a.drop_first(), b.drop_first());
    }
}

/// The order is transitive.
pub proof fn lemma_bytes_le_trans(a: Seq<u8>, b: Seq<u8>, c: Seq<u8>)
    requires
        bytes_le(a, b),
        bytes_le(b, c),
    ensures
        bytes_le(a, c),
    decreases a.len(),
{
    if a.len() > 0 && b.len() > 0 && c.len() > 0 && a[0] == b[0] && b[0] == c[0] {
        lemma_bytes_le_trans(a.drop_first(), b.drop_first(), c.drop_first());
    }
}

/// Whether `a` comes before or equals `b` in lexicographic byte order.
pub fn bytes_le_exec(a: &Vec<u8>, b: &Vec<u8>) -> (le: bool)
    ensures
        le == bytes_le(a@, b@),
{
    let mut i: usize = 0;
    assert(a@.skip(0) =~= a@);
    assert(b@.skip(0) =~= b@);
    while i < a.len() && i < b.len()
        invariant
            i <= a@.len(),
            i <= b@.len(),
            bytes_le(a@, b@) == bytes_le(a@.skip(i as int), b@.skip(i as int)),
        decreases a.len() - i,
    {
        let ghost sa = a@.skip(i as int);
        let ghost sb = b@.skip(i as int);
        assert(sa[0] == a@[i as int]);
        assert(sb[0] == b@[i as int]);
        if a[i] != b[i] {
            return a[i] < b[i];
        }
        assert(sa.drop_first() =~= a@.skip(i + 1));
        assert(sb.drop_first() =~= b@.skip(i + 1));
        i = i + 1;
    }
    i == a.len()
}

/// One entry of the orders folder.
pub struct Listed {
    /// The entry's file name.
    pub name: Vec<u8>,
    pub path: FsPath,
    /// The path as the user sees it, for messages.
    pub display: String,
}

/// The mathematical value of a listed entry.
pub struct ListedView {
    pub name: Seq<u8>,
    pub path: PathView,
    pub display: Seq<char>,
}

impl View for Listed {
    type V = ListedView;

    open spec fn view(&self) -> ListedView {
        ListedView { name: self.name@, path: self.path@, display: self.display@ }
    }
}

/// The views of a list of entries.
pub open spec fn listed_views(s: Seq<Listed>) -> Seq<ListedView> {
    s.map_values(|l: Listed| l@)
}

/// Entries in file name order.
pub open spec fn sorted_by_name(s: Seq<ListedView>) -> bool {
    forall|i: int, j: int| 0 <= i < j < s.len() ==> bytes_le(s[i].name, s[j].name)
}

/// Sorts the entries of the orders folder by file name. The result holds the
/// same entries, each as often as before.
pub fn sort_by_name(entries: Vec<Listed>) -> (sorted: Vec<Listed>)
    ensures
        sorted_by_name(listed_views(sorted@)),
        listed_views(sorted@).to_multiset() == listed_views(entries@).to_multiset(),
{
    broadcast use vstd::seq_lib::group_to_multiset_ensures, vstd::multiset::group_multiset_axioms;

    let ghost all = listed_views(entries@);
    let mut rest = entries;
    let mut out: Vec<Listed> = Vec::new();
    assert(listed_views(out@) =~= Seq::<ListedView>::empty());
    assert(listed_views(rest@) == all);
    while rest.len() > 0
        invariant
            sorted_by_name(listed_views(out@)),
            listed_views(out@).to_multiset().add(listed_views(rest@).to_multiset())
                == all.to_multiset(),
        decreases rest.len(),
    {
        let ghost rv = listed_views(rest@);
        let x = rest.remove(0);
        assert(listed_views(rest@) =~= rv.remove(0));
        let ghost ov = listed_views(out@);
        let mut pos: usize = 0;
        while pos < out.len() && bytes_le_exec(&out[pos].name, &x.name)
            invariant
                pos <= out@.len(),
                ov == listed_views(out@),
                forall|j: int| 0 <= j < pos ==> bytes_le(#[trigger] ov[j].name, x.name@),
            decreases out.len() - pos,
        {
            pos = pos + 1;
        }
        proof {
            if pos < out@.len() {
                assert(!bytes_le(ov[pos as int].name, x.name@));
                lemma_bytes_le_total(ov[pos as int].name, x.name@);
                assert forall|k: int| pos <= k < ov.len() implies bytes_le(x.name@, #[trigger] ov[k].name) by {
                    if k > pos {
                        lemma_bytes_le_trans(x.name@, ov[pos as int].name, ov[k].name);
                    }
                }
            }
        }
        out.insert(pos, x);
        let ghost nv = listed_views(out@);
        assert(nv =~= ov.insert(pos as int, x@));
        proof {
            assert forall|i: int, j: int| 0 <= i < j < nv.len() implies bytes_le(nv[i].name, nv[j].name) by {
                if j < pos {
                } else if j == pos {
                } else if i < pos {
                    assert(bytes_le(ov[i].name, x.name@));
                    assert(bytes_le(x.name@, ov[j - 1].name));
                    lemma_bytes_le_trans(ov[i].name, x.name@, ov[j - 1].name);
                } else if i == pos {
                } else {
                    assert(nv[i] == ov[i - 1]);
                    assert(nv[j] == ov[j - 1]);
                }
            }
            vstd::seq_lib::to_multiset_remove(rv, 0);
            vstd::seq_lib::to_multiset_insert(ov, pos as int, x@);
            rv.to_multiset_ensures();
            assert(rv.len() > 0);
            assert(rv.contains(rv[0]));
            assert(rv.to_multiset().count(rv[0]) > 0);
            assert(rv.to_multiset() =~= rv.remove(0).to_multiset().insert(rv[0]));
            assert(nv.to_multiset() == ov.to_multiset().insert(x@));
            assert(nv.to_multiset().add(rv.remove(0).to_multiset()) =~= ov.to_multiset().add(
                rv.to_multiset(),
            ));
        }
    }
    assert(listed_views(rest@) =~= Seq::<ListedView>::empty());
    assert(listed_views(out@).to_multiset() =~= listed_views(out@).to_multiset().add(
        Seq::<ListedView>::empty().to_multiset(),
    ));
    out
}

} // verus!
