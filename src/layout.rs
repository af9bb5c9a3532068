use vstd::prelude::*;
use vstd::seq_lib::{to_multiset_build, to_multiset_insert};
use vstd::string::*;

use crate::conn::texts;
use crate::text::joined;

verus! {

/// An entry of a directory that is packed into an archive: its file name
/// and whether it is a directory.
#[derive(Clone, Debug)]
pub struct DirEntry {
    pub name: String,
    pub is_dir: bool,
}

/// A directory entry as (is a directory, name).
pub open spec fn entry_model(e: DirEntry) -> (bool, Seq<char>) {
    (e.is_dir, e.name@)
}

/// The models of a list of entries.
pub open spec fn entry_models(v: Seq<DirEntry>) -> Seq<(bool, Seq<char>)> {
    v.map_values(|e: DirEntry| entry_model(e))
}

/// `a` comes before `b` in character order (by code point), a proper
/// prefix before the longer name.
pub open spec fn name_before(a: Seq<char>, b: Seq<char>) -> bool
    decreases a.len(),
{
    if a.len() == 0 {
        b.len() > 0
    } else if b.len() == 0 {
        false
    } else if a[0] != b[0] {
        (a[0] as u32) < (b[0] as u32)
    } else {
        name_before(a.drop_first(), b.drop_first())
    }
}

/// `a` is packed before `b`: files come before directories, and entries of
/// one kind go by name.
pub open spec fn entry_before(a: (bool, Seq<char>), b: (bool, Seq<char>)) -> bool {
    (!a.0 && b.0) || (a.0 == b.0 && name_before(a.1, b.1))
}

/// No entry of `m` comes before an earlier one.
pub open spec fn packing_ordered(m: Seq<(bool, Seq<char>)>) -> bool {
    forall|i: int, j: int| 0 <= i < j < m.len() ==> !entry_before(m[j], m[i])
}

proof fn lemma_name_before_transitive(a: Seq<char>, b: Seq<char>, c: Seq<char>)
    requires
        name_before(a, b),
        name_before(b, c),
    ensures
        name_before(a, c),
    decreases a.len(),
{
    if a.len() > 0 && b.len() > 0 && c.len() > 0 && a[0] == b[0] && b[0] == c[0] {
        lemma_name_before_transitive(a.drop_first(), b.drop_first(), c.drop_first());
    }
}

proof fn lemma_name_before_irreflexive(a: Seq<char>)
    ensures
        !name_before(a, a),
    decreases a.len(),
{
    if a.len() > 0 {
        lemma_name_before_irreflexive(a.drop_first());
    }
}

proof fn lemma_entry_before_transitive(a: (bool, Seq<char>), b: (bool, Seq<char>), c: (bool, Seq<char>))
    requires
        entry_before(a, b),
        entry_before(b, c),
    ensures
        entry_before(a, c),
{
    if a.0 == b.0 && b.0 == c.0 {
        lemma_name_before_transitive(a.1, b.1, c.1);
    }
}

/// Whether name `a` comes before name `b` in character order.
pub fn name_precedes(a: &str, b: &str) -> (r: bool)
    ensures
        r == name_before(a@, b@),
{
    let n = a.unicode_len();
    let m = b.unicode_len();
    let mut i: usize = 0;
    proof {
        assert(a@.skip(0) =~= a@);
        assert(b@.skip(0) =~= b@);
    }
    while i < n && i < m
        invariant
            n == a@.len(),
            m == b@.len(),
            i <= n,
            i <= m,
            name_before(a@, b@) == name_before(a@.skip(i as int), b@.skip(i as int)),
        decreases n - i,
    {
        let c = a.get_char(i);
        let d = b.get_char(i);
        proof {
            assert(a@.skip(i as int)[0] == c);
            assert(b@.skip(i as int)[0] == d);
            assert(a@.skip(i as int).drop_first() =~= a@.skip(i + 1));
            assert(b@.skip(i as int).drop_first() =~= b@.skip(i + 1));
        }
        if c != d {
            return (c as u32) < (d as u32);
        }
        i = i + 1;
    }
    i < m
}

/// Whether entry `a` is packed before entry `b`.
pub fn entry_precedes(a: &DirEntry, b: &DirEntry) -> (r: bool)
    ensures
        r == entry_before(entry_model(*a), entry_model(*b)),
{
    if !a.is_dir && b.is_dir {
        true
    } else if a.is_dir == b.is_dir {
        name_precedes(a.name.as_str(), b.name.as_str())
    } else {
        false
    }
}

/// The entries of a directory in the order they are packed: files before
/// directories, each kind by name. The result holds the same entries.
pub fn order_dir_entries(entries: &Vec<DirEntry>) -> (r: Vec<DirEntry>)
    ensures
        entry_models(r@).to_multiset() == entry_models(entries@).to_multiset(),
        packing_ordered(entry_models(r@)),
{
    let mut out: Vec<DirEntry> = Vec::new();
    let mut i: usize = 0;
    proof {
        assert(entry_models(entries@.take(0)) =~= Seq::<(bool, Seq<char>)>::empty());
        assert(entry_models(out@) =~= Seq::<(bool, Seq<char>)>::empty());
    }
    while i < entries.len()
        invariant
            i <= entries@.len(),
            entry_models(out@).to_multiset() == entry_models(entries@.take(i as int)).to_multiset(),
            packing_ordered(entry_models(out@)),
        decreases entries@.len() - i,
    {
        let e = &entries[i];
        let x = DirEntry { name: e.name.clone(), is_dir: e.is_dir };
        let ghost mx = entry_model(x);
        let ghost before = entry_models(out@);
        let mut p: usize = 0;
        let mut found = false;
        while p < out.len() && !found
            invariant
                !found ==> forall|k: int| 0 <= k < p ==> !entry_before(mx, #[trigger] before[k]),
                found ==> p < out@.len() && entry_before(mx, before[p as int]),
                p <= out@.len(),
                before == entry_models(out@),
                mx == entry_model(x),
                found ==> forall|k: int| 0 <= k < p ==> !entry_before(mx, #[trigger] before[k]),
            decreases out@.len() - p + (if found { 0int } else { 1int }),
        {
            if entry_precedes(&x, &out[p]) {
                found = true;
            } else {
                p = p + 1;
            }
        }
        out.insert(p, x);
        proof {
            let after = entry_models(out@);
            assert(after =~= before.insert(p as int, mx));
            to_multiset_insert(before, p as int, mx);
            assert(entry_models(entries@.take(i + 1)) =~= entry_models(entries@.take(i as int)).push(
                mx,
            ));
            to_multiset_build(entry_models(entries@.take(i as int)), mx);
            assert forall|a: int, b: int| 0 <= a < b < after.len() implies !entry_before(
                after[b],
                after[a],
            ) by {
                if b < p {
                    assert(after[a] == before[a]);
                    assert(after[b] == before[b]);
                } else if b == p {
                    assert(after[b] == mx);
                    assert(after[a] == before[a]);
                } else if a < p {
                    assert(after[a] == before[a]);
                    assert(after[b] == before[b - 1]);
                    if entry_before(before[b - 1], before[a]) {
                    }
                } else if a == p {
                    assert(after[b] == before[b - 1]);
                    assert(entry_before(mx, before[p as int]));
                    assert(after[a] == mx);
                    if entry_before(before[b - 1], mx) {
                        lemma_entry_before_transitive(before[b - 1], mx, before[p as int]);
                        if b - 1 == p {
                            lemma_name_before_irreflexive(before[p as int].1);
                        }
                    }
                } else {
                    assert(after[a] == before[a - 1]);
                    assert(after[b] == before[b - 1]);
                }
            }
        }
        i = i + 1;
    }
    proof {
        assert(entries@.take(entries@.len() as int) =~= entries@);
    }
    out
}

/// The name of an archive entry: the root directory's name, then the path
/// below it, joined with `/`.
pub fn archive_entry_name(root: &str, parts: &Vec<String>) -> (r: String)
    ensures
        r@ == joined(seq![root@] + texts(parts@), '/'),
{
    let mut out = String::from_str(root);
    let mut i: usize = 0;
    proof {
        assert(seq![root@] + texts(parts@).take(0) =~= seq![root@]);
    }
    while i < parts.len()
        invariant
            i <= parts@.len(),
            out@ == joined(seq![root@] + texts(parts@).take(i as int), '/'),
        decreases parts@.len() - i,
    {
        let ghost prev = seq![root@] + texts(parts@).take(i as int);
        out.append("/");
        out.append(parts[i].as_str());
        proof {
            reveal_strlit("/");
            let next = seq![root@] + texts(parts@).take(i + 1);
            assert(next.drop_last() =~= prev);
            assert(next.last() == parts@[i as int]@);
            assert(out@ =~= joined(prev, '/') + seq!['/'] + parts@[i as int]@);
        }
        i = i + 1;
    }
    proof {
        assert(texts(parts@).take(parts@.len() as int) =~= texts(parts@));
    }
    out
}

} // verus!
