//! The texture files that the materials of a model name.
use vstd::prelude::*;
use crate::paths::texture_path;

verus! {

/// The texture maps that a material of a material library names.
pub struct TextureMaps {
    /// The material's name.
    pub name: String,
    /// The ambient colour map, `map_Ka`.
    pub map_ka: Option<String>,
    /// The diffuse colour map, `map_Kd`.
    pub map_kd: Option<String>,
    /// The specular colour map, `map_Ks`.
    pub map_ks: Option<String>,
    /// The emissive colour map, `map_Ke`.
    pub map_ke: Option<String>,
    /// The specular highlight map, `map_Ns`.
    pub map_ns: Option<String>,
    /// The dissolve map, `map_d`.
    pub map_d: Option<String>,
    /// The bump map, `bump`.
    pub map_bump: Option<String>,
    /// The reflection map, `refl`.
    pub map_refl: Option<String>,
}

/// The path of a map, if the material names one.
pub open spec fn opt_path(basepath: Seq<char>, map: Option<String>) -> Seq<Seq<char>> {
    match map {
        Some(file) => seq![basepath + file@],
        None => seq![],
    }
}

/// The paths of the textures to load for a material: the ambient, diffuse,
/// specular, emissive, dissolve and bump maps that it names, in that order,
/// each prefixed with the base path.
pub open spec fn spec_texture_paths(basepath: Seq<char>, m: TextureMaps) -> Seq<Seq<char>> {
    opt_path(basepath, m.map_ka) + opt_path(basepath, m.map_kd) + opt_path(basepath, m.map_ks)
        + opt_path(basepath, m.map_ke) + opt_path(basepath, m.map_d) + opt_path(basepath, m.map_bump)
}

/// Whether a sequence holds `x`, given that one of two joined sequences
/// does.
proof fn lemma_join_contains<A>(a: Seq<A>, b: Seq<A>, x: A)
    ensures
        a.contains(x) ==> (a + b).contains(x),
        b.contains(x) ==> (a + b).contains(x),
{
    if a.contains(x) {
        let i = choose|i: int| 0 <= i < a.len() && a[i] == x;
        assert((a + b)[i] == x);
    }
    if b.contains(x) {
        let i = choose|i: int| 0 <= i < b.len() && b[i] == x;
        assert((a + b)[a.len() + i] == x);
    }
}

/// Each of the ambient, diffuse, specular, emissive, dissolve and bump maps
/// that a material names gives the path of its file under the base path,
/// and there are as many paths as such maps.
pub proof fn lemma_texture_paths_of_material(basepath: Seq<char>, m: TextureMaps)
    ensures
        spec_texture_paths(basepath, m).len() == (if m.map_ka is Some { 1int } else { 0int }) + (if m.map_kd is Some { 1int } else { 0int }) + (if m.map_ks is Some { 1int } else { 0int })
            + (if m.map_ke is Some { 1int } else { 0int }) + (if m.map_d is Some { 1int } else { 0int }) + (if m.map_bump is Some { 1int } else { 0int }),
        m.map_ka matches Some(file) ==> spec_texture_paths(basepath, m).contains(basepath + file@),
        m.map_kd matches Some(file) ==> spec_texture_paths(basepath, m).contains(basepath + file@),
        m.map_ks matches Some(file) ==> spec_texture_paths(basepath, m).contains(basepath + file@),
        m.map_ke matches Some(file) ==> spec_texture_paths(basepath, m).contains(basepath + file@),
        m.map_d matches Some(file) ==> spec_texture_paths(basepath, m).contains(basepath + file@),
        m.map_bump matches Some(file) ==> spec_texture_paths(basepath, m).contains(basepath + file@),
{
    let s1 = opt_path(basepath, m.map_ka);
    let s2 = opt_path(basepath, m.map_kd);
    let s3 = opt_path(basepath, m.map_ks);
    let s4 = opt_path(basepath, m.map_ke);
    let s5 = opt_path(basepath, m.map_d);
    let s6 = opt_path(basepath, m.map_bump);
    assert(spec_texture_paths(basepath, m) == s1 + s2 + s3 + s4 + s5 + s6);
    if let Some(file) = m.map_ka {
        assert(s1[0] == basepath + file@);
        lemma_in_one_of_six(s1, s2, s3, s4, s5, s6, basepath + file@);
    }
    if let Some(file) = m.map_kd {
        assert(s2[0] == basepath + file@);
        lemma_in_one_of_six(s1, s2, s3, s4, s5, s6, basepath + file@);
    }
    if let Some(file) = m.map_ks {
        assert(s3[0] == basepath + file@);
        lemma_in_one_of_six(s1, s2, s3, s4, s5, s6, basepath + file@);
    }
    if let Some(file) = m.map_ke {
        assert(s4[0] == basepath + file@);
        lemma_in_one_of_six(s1, s2, s3, s4, s5, s6, basepath + file@);
    }
    if let Some(file) = m.map_d {
        assert(s5[0] == basepath + file@);
        lemma_in_one_of_six(s1, s2, s3, s4, s5, s6, basepath + file@);
    }
    if let Some(file) = m.map_bump {
        assert(s6[0] == basepath + file@);
        lemma_in_one_of_six(s1, s2, s3, s4, s5, s6, basepath + file@);
    }
}

/// An element of one of six sequences is an element of the six joined.
proof fn lemma_in_one_of_six<A>(s1: Seq<A>, s2: Seq<A>, s3: Seq<A>, s4: Seq<A>, s5: Seq<A>, s6: Seq<A>, x: A)
    ensures
        (s1.contains(x) || s2.contains(x) || s3.contains(x) || s4.contains(x) || s5.contains(x)
            || s6.contains(x)) ==> (s1 + s2 + s3 + s4 + s5 + s6).contains(x),
{
    lemma_join_contains(s1, s2, x);
    lemma_join_contains(s1 + s2, s3, x);
    lemma_join_contains(s1 + s2 + s3, s4, x);
    lemma_join_contains(s1 + s2 + s3 + s4, s5, x);
    lemma_join_contains(s1 + s2 + s3 + s4 + s5, s6, x);
}

/// The views of a vector of strings.
pub open spec fn string_views(v: Seq<String>) -> Seq<Seq<char>> {
    v.map_values(|s: String| s@)
}

/// Appends the path of a map to `list` if the material names one.
pub fn add_to_vec(list: &mut Vec<String>, value: &Option<String>, basepath: &str)
    ensures
        string_views(final(list)@) == string_views(old(list)@) + opt_path(basepath@, *value),
{
    let ghost before = string_views(list@);
    match value {
        Some(file) => {
            list.push(texture_path(basepath, file.as_str()));
            assert(string_views(list@) =~= before + opt_path(basepath@, *value));
        },
        None => {
            assert(string_views(list@) =~= before + opt_path(basepath@, *value));
        },
    }
}

/// The paths of the textures to load for a material.
pub fn parse_valid_texture_paths(basepath: &str, material: &TextureMaps) -> (r: Vec<String>)
    ensures
        string_views(r@) == spec_texture_paths(basepath@, *material),
        r.len() == (if material.map_ka is Some { 1int } else { 0int }) + (if material.map_kd is Some { 1int } else { 0int }) + (if material.map_ks is Some { 1int } else { 0int })
            + (if material.map_ke is Some { 1int } else { 0int }) + (if material.map_d is Some { 1int } else { 0int }) + (if material.map_bump is Some { 1int } else { 0int }),
{
    proof {
        lemma_texture_paths_of_material(basepath@, *material);
    }
    let mut result: Vec<String> = Vec::new();
    assert(string_views(result@) =~= seq![]);
    add_to_vec(&mut result, &material.map_ka, basepath);
    add_to_vec(&mut result, &material.map_kd, basepath);
    add_to_vec(&mut result, &material.map_ks, basepath);
    add_to_vec(&mut result, &material.map_ke, basepath);
    add_to_vec(&mut result, &material.map_d, basepath);
    add_to_vec(&mut result, &material.map_bump, basepath);
    assert(string_views(result@) =~= spec_texture_paths(basepath@, *material));
    result
}

/// The texture paths of all materials, material after material.
pub open spec fn all_texture_paths(basepath: Seq<char>, ms: Seq<TextureMaps>) -> Seq<Seq<char>>
    decreases ms.len(),
{
    if ms.len() == 0 {
        seq![]
    } else {
        all_texture_paths(basepath, ms.drop_last()) + spec_texture_paths(basepath, ms.last())
    }
}

/// Whether `list` holds a string equal to `s`.
fn contains_string(list: &Vec<String>, s: &String) -> (r: bool)
    ensures
        r == string_views(list@).contains(s@),
{
    let n = list.len();
    let mut i: usize = 0;
    while i < n
        invariant
            n == list.len(),
            i <= n,
            forall|j: int| 0 <= j < i ==> list@[j]@ != s@,
        decreases n - i,
    {
        if list[i] == *s {
            assert(string_views(list@)[i as int] == s@);
            return true;
        }
        i = i + 1;
    }
    proof {
        if string_views(list@).contains(s@) {
            let j = choose|j: int| 0 <= j < string_views(list@).len() && string_views(list@)[j] == s@;
            assert(list@[j]@ == s@);
        }
    }
    false
}

/// Each texture file that the materials name, once: every path occurs in the
/// result exactly once, and nothing else does.
pub fn unique_texture_paths(basepath: &str, materials: &Vec<TextureMaps>) -> (r: Vec<String>)
    ensures
        string_views(r@).no_duplicates(),
        forall|p: Seq<char>|
            string_views(r@).contains(p) <==> all_texture_paths(basepath@, materials@).contains(p),
{
    let mut result: Vec<String> = Vec::new();
    let n = materials.len();
    let mut i: usize = 0;
    assert(materials@.take(0) =~= seq![]);
    while i < n
        invariant
            n == materials.len(),
            i <= n,
            string_views(result@).no_duplicates(),
            forall|p: Seq<char>|
                string_views(result@).contains(p) <==> all_texture_paths(
                    basepath@,
                    materials@.take(i as int),
                ).contains(p),
        decreases n - i,
    {
        let paths = parse_valid_texture_paths(basepath, &materials[i]);
        let ghost prefix_paths = all_texture_paths(basepath@, materials@.take(i as int));
        assert(materials@.take(i + 1).drop_last() =~= materials@.take(i as int));
        assert(materials@.take(i + 1).last() == materials@[i as int]);
        let m = paths.len();
        let mut j: usize = 0;
        while j < m
            invariant
                m == paths.len(),
                j <= m,
                string_views(result@).no_duplicates(),
                forall|p: Seq<char>|
                    string_views(result@).contains(p) <==> (prefix_paths + string_views(
                        paths@,
                    ).take(j as int)).contains(p),
            decreases m - j,
        {
            let ghost before = string_views(result@);
            let ghost added = string_views(paths@).take(j as int);
            assert(string_views(paths@).take(j + 1) =~= added.push(paths@[j as int]@));
            assert(forall|p: Seq<char>| before.contains(p) <==> (prefix_paths + added).contains(p));
            if !contains_string(&result, &paths[j]) {
                let path = paths[j].clone();
                result.push(path);
                assert(string_views(result@) =~= before.push(paths@[j as int]@));
            }
            assert forall|p: Seq<char>|
                string_views(result@).contains(p) <==> (prefix_paths + string_views(paths@).take(
                    j + 1,
                )).contains(p) by {
                let whole = prefix_paths + string_views(paths@).take(j + 1);
                assert(whole =~= (prefix_paths + added).push(paths@[j as int]@));
                if string_views(result@).contains(p) {
                    let k = choose|k: int| 0 <= k < string_views(result@).len() && string_views(result@)[k] == p;
                    if k < before.len() {
                        assert(before[k] == p);
                        assert(before.contains(p));
                        let q = choose|q: int| 0 <= q < (prefix_paths + added).len() && (prefix_paths + added)[q] == p;
                        assert(whole[q] == p);
                    } else {
                        assert(whole[whole.len() - 1] == p);
                    }
                }
                if whole.contains(p) {
                    let q = choose|q: int| 0 <= q < whole.len() && whole[q] == p;
                    if q < whole.len() - 1 {
                        assert((prefix_paths + added)[q] == p);
                        assert((prefix_paths + added).contains(p));
                        assert(before.contains(p));
                        let k = choose|k: int| 0 <= k < before.len() && before[k] == p;
                        assert(string_views(result@)[k] == p);
                    } else if before.contains(p) {
                        let k = choose|k: int| 0 <= k < before.len() && before[k] == p;
                        assert(string_views(result@)[k] == p);
                    } else {
                        assert(string_views(result@)[string_views(result@).len() - 1] == p);
                    }
                }
            }
            j = j + 1;
        }
        assert(string_views(paths@).take(m as int) =~= string_views(paths@));
        i = i + 1;
    }
    assert(materials@.take(n as int) =~= materials@);
    result
}

} // verus!
