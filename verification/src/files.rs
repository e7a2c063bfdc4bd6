//! File listing logic: recognising data files by name, deriving model
//! names from file names, and ordering listings by name.
//!
//! The surrounding host reads directories and hands the entries in as
//! plain values; everything decided about them — which files count,
//! what model name a file stands for, and the order of the listing —
//! is verified here.

use vstd::prelude::*;
use vstd::relations::sorted_by;

verus! {

/// File information for listing available files.
pub struct FileInfo {
    pub name: String,
    pub path: String,
    pub size: u64,
}

/// The mathematical model of a listing entry.
#[verifier::ext_equal]
pub struct FileV {
    pub name: Seq<char>,
    pub path: Seq<char>,
    pub size: u64,
}

impl View for FileInfo {
    type V = FileV;

    open spec fn view(&self) -> FileV {
        FileV { name: self.name@, path: self.path@, size: self.size }
    }
}

impl FileInfo {
    /// An explicit deep copy.
    pub fn clone_fi(&self) -> (r: FileInfo)
        ensures
            r@ == self@,
    {
        FileInfo { name: self.name.clone(), path: self.path.clone(), size: self.size }
    }
}

/// Whether a file name has the extension `json`: it ends in `.json`
/// and has a non-empty stem before that dot (a bare `.json` is a
/// dotfile without an extension).
pub open spec fn is_json_name_v(name: Seq<char>) -> bool {
    let n = name.len() as int;
    n >= 6 && name[n - 5] == '.' && name[n - 4] == 'j' && name[n - 3] == 's' && name[n - 2] == 'o'
        && name[n - 1] == 'n'
}

/// Exec counterpart of [`is_json_name_v`].
pub fn is_json_name(name: &str) -> (r: bool)
    ensures
        r == is_json_name_v(name@),
{
    let n = name.unicode_len();
    n >= 6 && name.get_char(n - 5) == '.' && name.get_char(n - 4) == 'j' && name.get_char(n - 3)
        == 's' && name.get_char(n - 2) == 'o' && name.get_char(n - 1) == 'n'
}

/// Whether a file name ends in `-data.json`, marking it as a model's
/// data file.
pub open spec fn is_model_data_name_v(name: Seq<char>) -> bool {
    let n = name.len() as int;
    n >= 10 && name.subrange(n - 10, n) =~= "-data.json"@
}

/// The model name of a data file: the name with the `-data.json`
/// suffix removed.
pub open spec fn model_name_v(name: Seq<char>) -> Seq<char> {
    name.subrange(0, name.len() - 10)
}

/// Extracts the model name from a file name: `Some` exactly when the
/// name ends in `-data.json`, holding the name without that suffix.
pub fn model_name_of(name: &str) -> (r: Option<String>)
    ensures
        r is Some <==> is_model_data_name_v(name@),
        r matches Some(m) ==> m@ == model_name_v(name@),
{
    proof {
        reveal_strlit("-data.json");
    }
    let n = name.unicode_len();
    if n >= 10 {
        let suffix = name.substring_char(n - 10, n);
        let mut matches_suffix = true;
        let expected = "-data.json";
        let mut i: usize = 0;
        while i < 10
            invariant
                i <= 10,
                n >= 10,
                n == name@.len(),
                suffix@ == name@.subrange(n as int - 10, n as int),
                expected@ == "-data.json"@,
                expected@.len() == 10,
                suffix@.len() == 10,
                matches_suffix <==> (forall|j: int|
                    0 <= j < i ==> suffix@[j] == #[trigger] expected@[j]),
            decreases 10 - i,
        {
            if suffix.get_char(i) != expected.get_char(i) {
                matches_suffix = false;
            }
            i += 1;
        }
        if matches_suffix {
            proof {
                assert(suffix@ =~= "-data.json"@);
            }
            Some(String::from_str(name.substring_char(0, n - 10)))
        } else {
            proof {
                assert(!(name@.subrange(n as int - 10, n as int) =~= "-data.json"@));
            }
            None
        }
    } else {
        None
    }
}

/// The data file name of a model: the model name with `-data.json`
/// appended.
pub fn model_data_filename(model: &str) -> (r: String)
    ensures
        r@ == model@ + "-data.json"@,
{
    let mut r = String::from_str(model);
    r.append("-data.json");
    r
}

/// Lexicographic order on character sequences, by code point.  This is
/// the order `str` comparison uses (UTF-8 byte order coincides with
/// code-point order).
pub open spec fn lex_leq(a: Seq<char>, b: Seq<char>) -> bool
    decreases a.len(),
{
    if a.len() == 0 {
        true
    } else if b.len() == 0 {
        false
    } else if (a[0] as u32) < (b[0] as u32) {
        true
    } else if (a[0] as u32) > (b[0] as u32) {
        false
    } else {
        lex_leq(a.drop_first(), b.drop_first())
    }
}

/// `lex_leq` is total: any two sequences compare one way or the other.
pub proof fn lemma_lex_total(a: Seq<char>, b: Seq<char>)
    ensures
        lex_leq(a, b) || lex_leq(b, a),
    decreases a.len(),
{
    if a.len() > 0 && b.len() > 0 && (a[0] as u32) == (b[0] as u32) {
        lemma_lex_total(a.drop_first(), b.drop_first());
    }
}

/// `lex_leq` is transitive.
pub proof fn lemma_lex_trans(a: Seq<char>, b: Seq<char>, c: Seq<char>)
    requires
        lex_leq(a, b),
        lex_leq(b, c),
    ensures
        lex_leq(a, c),
    decreases a.len(),
{
    if a.len() > 0 && b.len() > 0 && c.len() > 0 && (a[0] as u32) == (b[0] as u32) && (
    b[0] as u32) == (c[0] as u32) {
        lemma_lex_trans(a.drop_first(), b.drop_first(), c.drop_first());
    }
}

/// Exec comparison of two strings in the order [`lex_leq`].
pub fn str_leq(a: &str, b: &str) -> (r: bool)
    ensures
        r == lex_leq(a@, b@),
{
    let na = a.unicode_len();
    let nb = b.unicode_len();
    let mut i: usize = 0;
    proof {
        assert(a@.skip(0) =~= a@);
        assert(b@.skip(0) =~= b@);
    }
    loop
        invariant
            na == a@.len(),
            nb == b@.len(),
            i <= na,
            i <= nb,
            lex_leq(a@, b@) == lex_leq(a@.skip(i as int), b@.skip(i as int)),
        decreases na - i,
    {
        if i >= na {
            proof {
                assert(a@.skip(i as int).len() == 0);
            }
            return true;
        }
        if i >= nb {
            proof {
                assert(b@.skip(i as int).len() == 0 && a@.skip(i as int).len() > 0);
            }
            return false;
        }
        let ca = a.get_char(i);
        let cb = b.get_char(i);
        proof {
            assert(a@.skip(i as int)[0] == a@[i as int]);
            assert(b@.skip(i as int)[0] == b@[i as int]);
            assert(a@.skip(i as int).drop_first() =~= a@.skip(i as int + 1));
            assert(b@.skip(i as int).drop_first() =~= b@.skip(i as int + 1));
        }
        if (ca as u32) < (cb as u32) {
            return true;
        }
        if (ca as u32) > (cb as u32) {
            return false;
        }
        i += 1;
    }
}

/// The views of a listing.
pub open spec fn file_views(v: Seq<FileInfo>) -> Seq<FileV> {
    v.map_values(|f: FileInfo| f@)
}

/// The views of a sequence of strings.
pub open spec fn str_views(v: Seq<String>) -> Seq<Seq<char>> {
    v.map_values(|s: String| s@)
}

/// A listing ordered by name under [`lex_leq`].
pub open spec fn names_sorted(v: Seq<FileV>) -> bool {
    forall|i: int, j: int| 0 <= i < j < v.len() ==> lex_leq(#[trigger] v[i].name, #[trigger] v[j].name)
}

/// Sorts a listing by name (insertion sort): the result holds exactly
/// the same entries, ordered by [`lex_leq`] on their names.
pub fn sort_files_by_name(files: &Vec<FileInfo>) -> (r: Vec<FileInfo>)
    ensures
        names_sorted(file_views(r@)),
        file_views(r@).to_multiset() == file_views(files@).to_multiset(),
        file_views(r@).map_values(|f: FileV| f.name).to_multiset() == file_views(
            files@,
        ).map_values(|f: FileV| f.name).to_multiset(),
{
    broadcast use vstd::seq_lib::group_to_multiset_ensures;

    let mut r: Vec<FileInfo> = Vec::new();
    let mut k: usize = 0;
    proof {
        assert(file_views(r@) =~~= Seq::<FileV>::empty());
        assert(file_views(files@).take(0) =~~= Seq::<FileV>::empty());
        assert(file_views(r@).to_multiset() =~~= file_views(files@).take(0).to_multiset());
        assert(file_views(r@).map_values(|f: FileV| f.name).to_multiset() =~~= file_views(
            files@,
        ).take(0).map_values(|f: FileV| f.name).to_multiset());
    }
    while k < files.len()
        invariant
            k <= files@.len(),
            names_sorted(file_views(r@)),
            file_views(r@).to_multiset() == file_views(files@).take(k as int).to_multiset(),
            file_views(r@).map_values(|f: FileV| f.name).to_multiset() == file_views(
                files@,
            ).take(k as int).map_values(|f: FileV| f.name).to_multiset(),
        decreases files@.len() - k,
    {
        let f = files[k].clone_fi();
        let ghost fv = f@;
        let mut pos: usize = 0;
        while pos < r.len() && str_leq(r[pos].name.as_str(), f.name.as_str())
            invariant
                pos <= r@.len(),
                fv == f@,
                forall|j: int| 0 <= j < pos ==> lex_leq(#[trigger] file_views(r@)[j].name, fv.name),
            decreases r@.len() - pos,
        {
            pos += 1;
        }
        let ghost r0 = r@;
        r.insert(pos, f);
        k += 1;
        proof {
            let rv = file_views(r@);
            let r0v = file_views(r0);
            assert(r@ == r0.insert(pos as int, f));
            assert(rv =~~= r0v.insert(pos as int, fv)) by {
                assert forall|j: int| 0 <= j < rv.len() implies rv[j] == r0v.insert(
                    pos as int,
                    fv,
                )[j] by {
                    if j < pos {
                        assert(r@[j] == r0[j]);
                    } else if j == pos {
                        assert(r@[j] == f);
                    } else {
                        assert(r@[j] == r0[j - 1]);
                    }
                }
            }
            assert(names_sorted(rv)) by {
                assert forall|x: int, y: int| 0 <= x < y < rv.len() implies lex_leq(
                    #[trigger] rv[x].name,
                    #[trigger] rv[y].name,
                ) by {
                    if y < pos {
                        assert(lex_leq(r0v[x].name, r0v[y].name));
                    } else if x < pos && y == pos {
                        assert(lex_leq(r0v[x].name, fv.name));
                    } else if x < pos && y > pos {
                        assert(lex_leq(r0v[x].name, r0v[y - 1].name));
                    } else if x == pos {
                        assert(y > pos);
                        assert(pos < r0v.len());
                        assert(!lex_leq(r0v[pos as int].name, fv.name));
                        lemma_lex_total(r0v[pos as int].name, fv.name);
                        if y - 1 > pos {
                            assert(lex_leq(r0v[pos as int].name, r0v[y - 1].name));
                            lemma_lex_trans(fv.name, r0v[pos as int].name, r0v[y - 1].name);
                        }
                    } else {
                        assert(lex_leq(r0v[x - 1].name, r0v[y - 1].name));
                    }
                }
            }
            assert(rv.to_multiset() =~~= r0v.to_multiset().insert(fv)) by {
                assert(pos < rv.len());
                assert(rv[pos as int] == fv);
                assert(rv.remove(pos as int) =~~= r0v);
                rv.to_multiset_ensures();
                assert(rv.remove(pos as int).to_multiset() =~~= rv.to_multiset().remove(
                    rv[pos as int],
                ));
                assert(rv.to_multiset().count(fv) >= 1) by {
                    assert(rv.contains(fv));
                }
            }
            let rn = rv.map_values(|g: FileV| g.name);
            let r0n = r0v.map_values(|g: FileV| g.name);
            assert(rn.to_multiset() =~~= r0n.to_multiset().insert(fv.name)) by {
                assert(pos < rn.len());
                assert(rn[pos as int] == fv.name);
                assert(rn.remove(pos as int) =~~= r0n);
                rn.to_multiset_ensures();
                assert(rn.remove(pos as int).to_multiset() =~~= rn.to_multiset().remove(
                    rn[pos as int],
                ));
                assert(rn.to_multiset().count(fv.name) >= 1) by {
                    assert(rn.contains(fv.name));
                }
            }
            assert(file_views(files@).take(k as int).drop_last() =~~= file_views(files@).take(
                k as int - 1,
            ));
            assert(file_views(files@).take(k as int) =~~= file_views(files@).take(
                k as int - 1,
            ).push(fv));
            file_views(files@).take(k as int - 1).to_multiset_ensures();
            file_views(files@).take(k as int - 1).map_values(
                |g: FileV| g.name,
            ).to_multiset_ensures();
            assert(file_views(files@).take(k as int).to_multiset() =~~= file_views(files@).take(
                k as int - 1,
            ).push(fv).to_multiset());
            assert(file_views(files@).take(k as int - 1).push(fv).to_multiset() =~~= file_views(
                files@,
            ).take(k as int - 1).to_multiset().insert(fv));
            assert(file_views(files@).take(k as int).map_values(|g: FileV| g.name) =~~= file_views(
                files@,
            ).take(k as int - 1).map_values(|g: FileV| g.name).push(fv.name));
            assert(file_views(files@).take(k as int).map_values(|g: FileV| g.name).to_multiset()
                =~~= file_views(files@).take(k as int - 1).map_values(
                |g: FileV| g.name,
            ).push(fv.name).to_multiset());
            assert(file_views(files@).take(k as int - 1).map_values(|g: FileV| g.name).push(
                fv.name,
            ).to_multiset() =~~= file_views(files@).take(k as int - 1).map_values(
                |g: FileV| g.name,
            ).to_multiset().insert(fv.name));
        }
    }
    proof {
        assert(file_views(files@).take(files@.len() as int) =~~= file_views(files@));
    }
    r
}

/// Keeps exactly the entries whose names end in `.json`, in their
/// original order.
pub fn filter_json_files(entries: Vec<FileInfo>) -> (r: Vec<FileInfo>)
    ensures
        file_views(r@) == file_views(entries@).filter(|f: FileV| is_json_name_v(f.name)),
{
    let ghost pred = |f: FileV| is_json_name_v(f.name);
    let mut r: Vec<FileInfo> = Vec::new();
    let mut k: usize = 0;
    proof {
        reveal(Seq::filter);
        assert(file_views(r@) =~~= file_views(entries@).take(0).filter(pred));
    }
    while k < entries.len()
        invariant
            k <= entries@.len(),
            file_views(r@) == file_views(entries@).take(k as int).filter(
                |f: FileV| is_json_name_v(f.name),
            ),
        decreases entries@.len() - k,
    {
        let keep = is_json_name(entries[k].name.as_str());
        let ghost prefix = file_views(entries@).take(k as int);
        let ghost next = file_views(entries@).take(k as int + 1);
        proof {
            assert(next.drop_last() =~~= prefix);
            assert(next.last() == file_views(entries@)[k as int]);
            reveal(Seq::filter);
        }
        if keep {
            r.push(entries[k].clone_fi());
            proof {
                assert(file_views(r@) =~~= prefix.filter(|f: FileV| is_json_name_v(f.name)).push(
                    file_views(entries@)[k as int],
                ));
                assert(file_views(r@) =~~= next.filter(|f: FileV| is_json_name_v(f.name)));
            }
        } else {
            proof {
                assert(file_views(r@) =~~= next.filter(|f: FileV| is_json_name_v(f.name)));
            }
        }
        k += 1;
    }
    proof {
        assert(file_views(entries@).take(entries@.len() as int) =~~= file_views(entries@));
    }
    r
}

/// The listing pipeline of the host's data directory: keep the `.json`
/// entries and sort them by name.
pub fn list_json_files(entries: Vec<FileInfo>) -> (r: Vec<FileInfo>)
    ensures
        names_sorted(file_views(r@)),
        file_views(r@).to_multiset() == file_views(entries@).filter(
            |f: FileV| is_json_name_v(f.name),
        ).to_multiset(),
{
    let kept = filter_json_files(entries);
    sort_files_by_name(&kept)
}

/// The model names a list of file names yields: the names ending in
/// `-data.json`, reduced to their model names, in order.
pub open spec fn model_names_of(names: Seq<Seq<char>>) -> Seq<Seq<char>> {
    names.filter(|n: Seq<char>| is_model_data_name_v(n)).map_values(|n: Seq<char>| model_name_v(n))
}

/// The listing pipeline for the host's model data files: keep the
/// `*-data.json` entries, reduced to their model names, sorted.
pub fn list_model_names(names: &Vec<String>) -> (r: Vec<String>)
    ensures
        forall|i: int, j: int|
            0 <= i < j < r@.len() ==> lex_leq(#[trigger] r@[i]@, #[trigger] r@[j]@),
        str_views(r@).to_multiset() == model_names_of(str_views(names@)).to_multiset(),
{
    let mut picked: Vec<FileInfo> = Vec::new();
    let mut k: usize = 0;
    proof {
        reveal(Seq::filter);
        assert(file_views(picked@).map_values(|f: FileV| f.name) =~~= model_names_of(
            str_views(names@).take(0),
        ));
    }
    while k < names.len()
        invariant
            k <= names@.len(),
            file_views(picked@).map_values(|f: FileV| f.name) == model_names_of(
                str_views(names@).take(k as int),
            ),
        decreases names@.len() - k,
    {
        let ghost prefix = str_views(names@).take(k as int);
        let ghost next = str_views(names@).take(k as int + 1);
        proof {
            assert(next.drop_last() =~~= prefix);
            assert(next.last() == str_views(names@)[k as int]);
            reveal(Seq::filter);
        }
        match model_name_of(names[k].as_str()) {
            Option::Some(m) => {
                let ghost p0 = file_views(picked@).map_values(|f: FileV| f.name);
                let ghost mv = m@;
                picked.push(FileInfo { name: m, path: String::new(), size: 0 });
                proof {
                    assert(is_model_data_name_v(next.last()));
                    assert(next.filter(|n: Seq<char>| is_model_data_name_v(n)) =~~= prefix.filter(
                        |n: Seq<char>| is_model_data_name_v(n),
                    ).push(next.last()));
                    assert(model_names_of(next) =~~= model_names_of(prefix).push(
                        model_name_v(next.last()),
                    ));
                    assert(file_views(picked@).map_values(|f: FileV| f.name) =~~= p0.push(mv));
                    assert(mv == model_name_v(next.last()));
                    assert(file_views(picked@).map_values(|f: FileV| f.name) =~~= model_names_of(
                        next,
                    ));
                }
            },
            Option::None => {
                proof {
                    assert(!is_model_data_name_v(next.last()));
                    assert(next.filter(|n: Seq<char>| is_model_data_name_v(n)) =~~= prefix.filter(
                        |n: Seq<char>| is_model_data_name_v(n),
                    ));
                    assert(file_views(picked@).map_values(|f: FileV| f.name) =~~= model_names_of(
                        next,
                    ));
                }
            },
        }
        k += 1;
    }
    proof {
        assert(str_views(names@).take(names@.len() as int) =~~= str_views(names@));
    }
    let sorted_files = sort_files_by_name(&picked);
    let mut r: Vec<String> = Vec::new();
    let mut i: usize = 0;
    while i < sorted_files.len()
        invariant
            i <= sorted_files@.len(),
            r@.len() == i,
            names_sorted(file_views(sorted_files@)),
            file_views(sorted_files@).map_values(|f: FileV| f.name).to_multiset() == model_names_of(
                str_views(names@),
            ).to_multiset(),
            forall|j: int| 0 <= j < i ==> r@[j]@ == #[trigger] file_views(sorted_files@)[j].name,
        decreases sorted_files@.len() - i,
    {
        r.push(sorted_files[i].name.clone());
        i += 1;
    }
    proof {
        assert(str_views(r@) =~~= file_views(sorted_files@).map_values(|f: FileV| f.name));
        assert forall|a: int, b: int| 0 <= a < b < r@.len() implies lex_leq(
            #[trigger] r@[a]@,
            #[trigger] r@[b]@,
        ) by {
            assert(lex_leq(
                file_views(sorted_files@)[a].name,
                file_views(sorted_files@)[b].name,
            ));
        }
    }
    r
}

} // verus!
