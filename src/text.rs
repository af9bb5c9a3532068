use vstd::prelude::*;
use vstd::string::*;

verus! {

/// The fields of `s` between the separator `sep`, in order: splitting
/// `"a.b"` at dots gives `["a", "b"]`, and a text without the separator
/// gives itself as its only field.
pub open spec fn fields(s: Seq<char>, sep: char) -> Seq<Seq<char>>
    decreases s.len(),
{
    if s.len() == 0 {
        seq![Seq::<char>::empty()]
    } else {
        let rest = fields(s.drop_last(), sep);
        if s.last() == sep {
            rest.push(Seq::<char>::empty())
        } else {
            rest.update(rest.len() - 1, rest.last().push(s.last()))
        }
    }
}

/// `s` holds no `c`.
pub open spec fn lacks(s: Seq<char>, c: char) -> bool {
    forall|i: int| 0 <= i < s.len() ==> s[i] != c
}

pub proof fn lemma_fields_nonempty(s: Seq<char>, sep: char)
    ensures
        fields(s, sep).len() >= 1,
    decreases s.len(),
{
    if s.len() > 0 {
        lemma_fields_nonempty(s.drop_last(), sep);
    }
}

/// A text without the separator is a single field.
pub proof fn lemma_fields_single(s: Seq<char>, sep: char)
    requires
        lacks(s, sep),
    ensures
        fields(s, sep) == seq![s],
    decreases s.len(),
{
    if s.len() > 0 {
        lemma_fields_single(s.drop_last(), sep);
        assert(s.drop_last().push(s.last()) =~= s);
        assert(fields(s, sep) =~= seq![s]);
    } else {
        assert(s =~= Seq::<char>::empty());
    }
}

/// Splitting at a separator splits the fields.
pub proof fn lemma_fields_join(p: Seq<char>, q: Seq<char>, sep: char)
    ensures
        fields(p + seq![sep] + q, sep) == fields(p, sep) + fields(q, sep),
    decreases q.len(),
{
    let s = p + seq![sep] + q;
    if q.len() == 0 {
        assert(s.drop_last() =~= p);
        assert(fields(s, sep) =~= fields(p, sep) + fields(q, sep));
    } else {
        assert(s.drop_last() =~= p + seq![sep] + q.drop_last());
        lemma_fields_join(p, q.drop_last(), sep);
        lemma_fields_nonempty(q.drop_last(), sep);
        lemma_fields_nonempty(p, sep);
        assert(fields(s, sep) =~= fields(p, sep) + fields(q, sep));
    }
}

/// The fields joined back with the separator between each pair.
pub open spec fn joined(fs: Seq<Seq<char>>, sep: char) -> Seq<char>
    decreases fs.len(),
{
    if fs.len() <= 1 {
        if fs.len() == 1 {
            fs[0]
        } else {
            Seq::empty()
        }
    } else {
        joined(fs.drop_last(), sep) + seq![sep] + fs.last()
    }
}

/// Joining the fields of a text gives the text back, and no field holds
/// the separator.
pub proof fn lemma_fields_joined(s: Seq<char>, sep: char)
    ensures
        joined(fields(s, sep), sep) == s,
        forall|k: int| 0 <= k < fields(s, sep).len() ==> lacks(#[trigger] fields(s, sep)[k], sep),
    decreases s.len(),
{
    if s.len() == 0 {
        assert(joined(fields(s, sep), sep) =~= s);
    } else {
        let p = s.drop_last();
        let rest = fields(p, sep);
        lemma_fields_joined(p, sep);
        lemma_fields_nonempty(p, sep);
        let n = rest.len();
        if s.last() == sep {
            assert(fields(s, sep).drop_last() =~= rest);
            assert(joined(fields(s, sep), sep) =~= s);
        } else {
            let f = fields(s, sep);
            assert(f.len() == n);
            assert(s =~= p.push(s.last()));
            if n > 1 {
                assert(f.drop_last() =~= rest.drop_last());
                assert(joined(f, sep) == joined(rest.drop_last(), sep) + seq![sep] + rest.last().push(
                    s.last(),
                ));
                assert(joined(f, sep) =~= joined(rest, sep).push(s.last()));
            } else {
                assert(joined(f, sep) == f[0]);
                assert(joined(rest, sep) == rest[0]);
            }
            assert forall|k: int| 0 <= k < f.len() implies lacks(#[trigger] f[k], sep) by {
                if k == n - 1 {
                    assert(lacks(rest[k], sep));
                    assert(f[k] == rest[k].push(s.last()));
                }
            }
        }
    }
}

/// The text of `s` between character positions `from` and `to`.
pub fn substring(s: &str, from: usize, to: usize) -> (r: String)
    requires
        from <= to <= s@.len(),
    ensures
        r@ == s@.subrange(from as int, to as int),
{
    String::from_str(s.substring_char(from, to))
}

/// Splits `s` at every `sep`.
pub fn split(s: &str, sep: char) -> (r: Vec<String>)
    ensures
        r@.map_values(|f: String| f@) == fields(s@, sep),
{
    let n = s.unicode_len();
    let mut parts: Vec<String> = Vec::new();
    let mut start: usize = 0;
    let mut i: usize = 0;
    proof {
        assert(s@.take(0) =~= Seq::<char>::empty());
        assert(parts@.map_values(|f: String| f@).push(s@.subrange(0, 0)) =~= seq![
            Seq::<char>::empty(),
        ]);
    }
    while i < n
        invariant
            n == s@.len(),
            start <= i <= n,
            fields(s@.take(i as int), sep) == parts@.map_values(|f: String| f@).push(
                s@.subrange(start as int, i as int),
            ),
        decreases n - i,
    {
        let c = s.get_char(i);
        let ghost before = parts@.map_values(|f: String| f@);
        proof {
            assert(s@.take(i + 1).drop_last() =~= s@.take(i as int));
            assert(s@.take(i + 1).last() == c);
        }
        if c == sep {
            let part = substring(s, start, i);
            parts.push(part);
            start = i + 1;
            proof {
                assert(parts@.map_values(|f: String| f@) =~= before.push(part@));
                assert(s@.subrange(start as int, i + 1) =~= Seq::<char>::empty());
                assert(fields(s@.take(i + 1), sep) =~= parts@.map_values(|f: String| f@).push(
                    s@.subrange(start as int, i + 1),
                ));
            }
        } else {
            proof {
                assert(s@.subrange(start as int, i as int).push(c) =~= s@.subrange(
                    start as int,
                    i + 1,
                ));
                assert(fields(s@.take(i + 1), sep) =~= before.push(
                    s@.subrange(start as int, i + 1),
                ));
            }
        }
        i = i + 1;
    }
    let last = substring(s, start, n);
    let ghost before = parts@.map_values(|f: String| f@);
    parts.push(last);
    proof {
        assert(s@.take(n as int) =~= s@);
        assert(parts@.map_values(|f: String| f@) =~= before.push(last@));
    }
    parts
}

/// Whether two texts are equal.
pub fn same_text(a: &str, b: &str) -> (r: bool)
    ensures
        r == (a@ == b@),
{
    let x = String::from_str(a);
    let y = String::from_str(b);
    x == y
}

/// `s` ends with `suffix`.
pub open spec fn ends_with(s: Seq<char>, suffix: Seq<char>) -> bool {
    s.len() >= suffix.len() && s.subrange(s.len() - suffix.len(), s.len() as int) == suffix
}

/// Whether `s` ends with `suffix`.
pub fn text_ends_with(s: &str, suffix: &str) -> (r: bool)
    ensures
        r == ends_with(s@, suffix@),
{
    let n = s.unicode_len();
    let m = suffix.unicode_len();
    if m > n {
        false
    } else {
        let tail = substring(s, n - m, n);
        same_text(tail.as_str(), suffix)
    }
}

/// Whether `s` holds no `c`.
pub fn text_lacks(s: &str, c: char) -> (r: bool)
    ensures
        r == lacks(s@, c),
{
    let n = s.unicode_len();
    let mut i: usize = 0;
    while i < n
        invariant
            n == s@.len(),
            i <= n,
            forall|j: int| 0 <= j < i ==> s@[j] != c,
        decreases n - i,
    {
        if s.get_char(i) == c {
            return false;
        }
        i = i + 1;
    }
    true
}

/// Whether `names` holds `name`.
pub fn holds_text(names: &Vec<String>, name: &str) -> (r: bool)
    ensures
        r == names@.map_values(|f: String| f@).contains(name@),
{
    let ghost all = names@.map_values(|f: String| f@);
    let mut i: usize = 0;
    while i < names.len()
        invariant
            i <= names@.len(),
            all == names@.map_values(|f: String| f@),
            forall|j: int| 0 <= j < i ==> all[j] != name@,
        decreases names@.len() - i,
    {
        if same_text(names[i].as_str(), name) {
            assert(all[i as int] == name@);
            return true;
        }
        i = i + 1;
    }
    false
}

/// `s` with every backslash turned into a slash.
pub open spec fn forward_slashes(s: Seq<char>) -> Seq<char> {
    s.map_values(|c: char| if c == '\\' { '/' } else { c })
}

/// A file system path written with forward slashes, as zip entry names
/// are.
pub fn path_to_string(path: &str) -> (r: String)
    ensures
        r@ == forward_slashes(path@),
{
    let n = path.unicode_len();
    let mut out = String::new();
    let mut i: usize = 0;
    while i < n
        invariant
            n == path@.len(),
            i <= n,
            out@ =~= forward_slashes(path@.take(i as int)),
        decreases n - i,
    {
        let c = path.get_char(i);
        if c == '\\' {
            out.append("/");
            proof {
                reveal_strlit("/");
            }
        } else {
            out.append(path.substring_char(i, i + 1));
        }
        proof {
            assert(forward_slashes(path@.take(i + 1)) =~= forward_slashes(path@.take(i as int))
                + forward_slashes(path@.subrange(i as int, i + 1)));
        }
        i = i + 1;
    }
    proof {
        assert(path@.take(n as int) =~= path@);
    }
    out
}

} // verus!
