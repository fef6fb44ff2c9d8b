//! Indexed drawing of the faces of a mesh: each distinct corner becomes one
//! vertex, and each corner of each face an index into those vertices.
use vstd::prelude::*;
use crate::search::{first_index, lemma_first_index_bounds, lemma_first_index_append, lemma_first_index_at};

verus! {

/// A corner of a face: the index of its position and, where the file gives
/// them, of its texture coordinates and of its normal.
#[derive(Clone, Copy, Debug, PartialEq, Eq, Structural)]
pub struct VertexRef {
    pub position: usize,
    pub texture: Option<usize>,
    pub normal: Option<usize>,
}

/// The distinct corners of `refs`, in the order in which they first occur.
pub open spec fn spec_unique(refs: Seq<VertexRef>) -> Seq<VertexRef>
    decreases refs.len(),
{
    if refs.len() == 0 {
        seq![]
    } else {
        let u = spec_unique(refs.drop_last());
        if u.contains(refs.last()) {
            u
        } else {
            u.push(refs.last())
        }
    }
}

/// The corners of all faces, face after face.
pub open spec fn spec_corners(polys: Seq<Vec<VertexRef>>) -> Seq<VertexRef> {
    polys.map_values(|p: Vec<VertexRef>| p@).flatten()
}

/// The index that draws a corner: its place among the distinct corners, cut
/// to 16 bits as an index buffer of `u16` holds it.
pub open spec fn spec_vertex_index(unique: Seq<VertexRef>, r: VertexRef) -> u16 {
    (first_index(unique, r) % 65536) as u16
}

/// Looks for `r` among `unique`.
fn find_vertex(unique: &Vec<VertexRef>, r: VertexRef) -> (k: usize)
    ensures
        k == first_index(unique@, r),
{
    proof {
        lemma_first_index_bounds(unique@, r);
    }
    let n = unique.len();
    let mut k: usize = 0;
    while k < n
        invariant
            n == unique.len(),
            k <= n,
            forall|j: int| 0 <= j < k ==> unique@[j] != r,
        decreases n - k,
    {
        if unique[k] == r {
            proof {
                lemma_first_index_at(unique@, r, k as int);
            }
            return k;
        }
        k = k + 1;
    }
    proof {
        if unique@.contains(r) {
            let j = choose|j: int| 0 <= j < unique@.len() && unique@[j] == r;
            assert(unique@[j] != r);
        }
    }
    k
}

/// Makes one vertex of each distinct corner of the faces, in the order in
/// which the corners first occur, and gives each corner of each face the
/// index of its vertex.
pub fn index_vertices(polys: &Vec<Vec<VertexRef>>) -> (r: (Vec<VertexRef>, Vec<u16>))
    ensures
        r.0@ == spec_unique(spec_corners(polys@)),
        r.1.len() == spec_corners(polys@).len(),
        forall|i: int|
            0 <= i < r.1.len() ==> #[trigger] r.1[i] == spec_vertex_index(
                r.0@,
                spec_corners(polys@)[i],
            ),
{
    let ghost views = polys@.map_values(|p: Vec<VertexRef>| p@);
    let mut unique: Vec<VertexRef> = Vec::new();
    let mut indices: Vec<u16> = Vec::new();
    let ghost mut seen: Seq<VertexRef> = seq![];
    let np = polys.len();
    let mut p: usize = 0;
    while p < np
        invariant
            np == polys.len(),
            p <= np,
            views == polys@.map_values(|q: Vec<VertexRef>| q@),
            seen == views.take(p as int).flatten_alt(),
            unique@ == spec_unique(seen),
            indices.len() == seen.len(),
            forall|i: int|
                0 <= i < seen.len() ==> first_index(unique@, #[trigger] seen[i]) < unique@.len(),
            forall|i: int|
                0 <= i < seen.len() ==> #[trigger] indices@[i] == spec_vertex_index(
                    unique@,
                    seen[i],
                ),
        decreases np - p,
    {
        let poly = &polys[p];
        let ghost seen_before = seen;
        assert(views[p as int] == poly@);
        let nc = poly.len();
        let mut c: usize = 0;
        while c < nc
            invariant
                nc == poly.len(),
                c <= nc,
                seen == seen_before + poly@.take(c as int),
                unique@ == spec_unique(seen),
                indices.len() == seen.len(),
                forall|i: int|
                    0 <= i < seen.len() ==> first_index(unique@, #[trigger] seen[i])
                        < unique@.len(),
                forall|i: int|
                    0 <= i < seen.len() ==> #[trigger] indices@[i] == spec_vertex_index(
                        unique@,
                        seen[i],
                    ),
            decreases nc - c,
        {
            let corner = poly[c];
            let k = find_vertex(&unique, corner);
            let ghost old_unique = unique@;
            let ghost old_seen = seen;
            let ghost old_indices = indices@;
            proof {
                lemma_first_index_bounds(old_unique, corner);
                seen = seen.push(corner);
                assert(seen.drop_last() =~= old_seen);
                assert(seen == seen_before + poly@.take(c + 1)) by {
                    assert(poly@.take(c + 1) =~= poly@.take(c as int).push(corner));
                }
            }
            let pos: usize;
            if k == unique.len() {
                unique.push(corner);
                pos = k;
                proof {
                    assert(unique@ =~= old_unique + seq![corner]);
                    lemma_first_index_at(unique@, corner, k as int);
                    assert forall|i: int| 0 <= i < old_seen.len() implies first_index(
                        unique@,
                        old_seen[i],
                    ) == first_index(old_unique, old_seen[i]) by {
                        lemma_first_index_bounds(old_unique, old_seen[i]);
                        lemma_first_index_append(old_unique, seq![corner], old_seen[i]);
                    }
                }
            } else {
                pos = k;
            }
            let index: u16 = (pos % 65536) as u16;
            indices.push(index);
            proof {
                assert forall|i: int| 0 <= i < seen.len() implies first_index(
                    unique@,
                    #[trigger] seen[i],
                ) < unique@.len() && #[trigger] indices@[i] == spec_vertex_index(
                    unique@,
                    seen[i],
                ) by {
                    if i < old_seen.len() {
                        assert(seen[i] == old_seen[i]);
                        assert(indices@[i] == old_indices[i]);
                    } else {
                        assert(seen[i] == corner);
                    }
                }
            }
            c = c + 1;
        }
        proof {
            assert(poly@.take(nc as int) =~= poly@);
            assert(views.take(p + 1).drop_last() =~= views.take(p as int));
            assert(views.take(p + 1).last() == poly@);
        }
        p = p + 1;
    }
    proof {
        assert(views.take(np as int) =~= views);
        views.lemma_flatten_and_flatten_alt_are_equivalent();
    }
    (unique, indices)
}

/// The distinct corners hold each corner once.
pub proof fn lemma_unique_no_duplicates(refs: Seq<VertexRef>)
    ensures
        spec_unique(refs).no_duplicates(),
    decreases refs.len(),
{
    if refs.len() > 0 {
        lemma_unique_no_duplicates(refs.drop_last());
    }
}

/// The distinct corners are exactly the corners.
pub proof fn lemma_unique_elements(refs: Seq<VertexRef>)
    ensures
        forall|r: VertexRef| spec_unique(refs).contains(r) <==> refs.contains(r),
    decreases refs.len(),
{
    if refs.len() > 0 {
        let prev = refs.drop_last();
        lemma_unique_elements(prev);
        assert forall|r: VertexRef| spec_unique(refs).contains(r) <==> refs.contains(r) by {
            let u = spec_unique(prev);
            if refs.contains(r) {
                let i = choose|i: int| 0 <= i < refs.len() && refs[i] == r;
                if i < refs.len() - 1 {
                    assert(prev[i] == r);
                    assert(prev.contains(r));
                    assert(u.contains(r));
                    if !u.contains(refs.last()) {
                        let k = choose|k: int| 0 <= k < u.len() && u[k] == r;
                        assert(u.push(refs.last())[k] == r);
                    }
                } else if !u.contains(refs.last()) {
                    assert(u.push(refs.last())[u.len() as int] == r);
                }
            }
            if spec_unique(refs).contains(r) {
                if u.contains(r) {
                    assert(prev.contains(r));
                    let j = choose|j: int| 0 <= j < prev.len() && prev[j] == r;
                    assert(refs[j] == r);
                } else {
                    let k = choose|k: int| 0 <= k < spec_unique(refs).len() && spec_unique(refs)[k] == r;
                    if !u.contains(refs.last()) && k == u.len() {
                        assert(refs[refs.len() - 1] == r);
                    } else {
                        assert(u[k] == r);
                    }
                }
            }
        }
    }
}

/// Drawing with the indices gives back every corner of every face, as long
/// as there are no more distinct corners than a 16-bit index reaches.
pub proof fn lemma_indices_give_back_corners(refs: Seq<VertexRef>)
    requires
        spec_unique(refs).len() <= 65536,
    ensures
        forall|i: int|
            0 <= i < refs.len() ==> spec_unique(refs)[spec_vertex_index(
                spec_unique(refs),
                #[trigger] refs[i],
            ) as int] == refs[i],
{
    lemma_unique_elements(refs);
    assert forall|i: int| 0 <= i < refs.len() implies spec_unique(refs)[spec_vertex_index(
        spec_unique(refs),
        #[trigger] refs[i],
    ) as int] == refs[i] by {
        assert(refs.contains(refs[i]));
        lemma_first_index_bounds(spec_unique(refs), refs[i]);
    }
}


/// The elements of `parts`, part after part.
pub fn join_parts<A>(parts: Vec<Vec<A>>) -> (r: Vec<A>)
    ensures
        r@ == parts@.map_values(|p: Vec<A>| p@).flatten(),
{
    let ghost views = parts@.map_values(|p: Vec<A>| p@);
    let mut parts = parts;
    let mut r: Vec<A> = Vec::new();
    let n = parts.len();
    let mut i: usize = 0;
    assert(views.take(0) =~= seq![]);
    proof {
        views.take(0).lemma_flatten_and_flatten_alt_are_equivalent();
    }
    while i < n
        invariant
            n == parts.len(),
            n == views.len(),
            i <= n,
            r@ == views.take(i as int).flatten(),
            forall|j: int| i <= j < n ==> #[trigger] parts@[j]@ == views[j],
        decreases n - i,
    {
        let mut part: Vec<A> = Vec::new();
        std::mem::swap(&mut part, &mut parts[i]);
        let ghost before = r@;
        assert(part@ == views[i as int]);
        r.append(&mut part);
        proof {
            assert(views.take(i + 1) =~= views.take(i as int).push(views[i as int]));
            views.take(i as int).lemma_flatten_push(views[i as int]);
        }
        i = i + 1;
    }
    assert(views.take(n as int) =~= views);
    r
}

/// Applying `f` to each element of the concatenation is concatenating the
/// parts with `f` applied to each of their elements.
pub proof fn lemma_map_flatten<A, B>(s: Seq<Seq<A>>, f: spec_fn(A) -> B)
    ensures
        s.flatten().map_values(f) =~= s.map_values(|x: Seq<A>| x.map_values(f)).flatten(),
    decreases s.len(),
{
    let g = |x: Seq<A>| x.map_values(f);
    if s.len() > 0 {
        let prev = s.drop_last();
        lemma_map_flatten(prev, f);
        assert(s =~= prev.push(s.last()));
        prev.lemma_flatten_push(s.last());
        assert(s.map_values(g) =~= prev.map_values(g).push(g(s.last())));
        prev.map_values(g).lemma_flatten_push(g(s.last()));
        assert((prev.flatten() + s.last()).map_values(f) =~= prev.flatten().map_values(f) + s.last().map_values(f));
    } else {
        assert(s.flatten() =~= seq![]);
        assert(s.map_values(g) =~= seq![]);
    }
}

/// The corners of the faces of a group, face after face.
pub open spec fn faces_view(g: Seq<Vec<VertexRef>>) -> Seq<Seq<VertexRef>> {
    g.map_values(|q: Vec<VertexRef>| q@)
}

/// The faces of the groups of an object, group after group.
pub open spec fn groups_view(o: Seq<Vec<Vec<VertexRef>>>) -> Seq<Seq<Seq<VertexRef>>> {
    o.map_values(|g: Vec<Vec<VertexRef>>| faces_view(g@))
}

/// The groups of the objects of a model, object after object.
pub open spec fn objects_view(d: Seq<Vec<Vec<Vec<VertexRef>>>>) -> Seq<Seq<Seq<Seq<VertexRef>>>> {
    d.map_values(|o: Vec<Vec<Vec<VertexRef>>>| groups_view(o@))
}

/// What `obj::ObjData::load_buf` makes of the bytes of a Wavefront OBJ file:
/// for each object, for each of its groups, for each face, the corners of
/// the face; or nothing where the bytes do not parse.
pub uninterp spec fn obj_faces(bytes: Seq<u8>) -> Option<Seq<Seq<Seq<Seq<VertexRef>>>>>;

/// Whether `b` continues a character of several bytes in UTF-8.
pub open spec fn is_utf8_continuation(b: u8) -> bool {
    0x80 <= b < 0xC0
}

/// Whether `b` is an ASCII character that Rust counts as white space.
pub open spec fn is_ascii_white_space(b: u8) -> bool {
    b == 9u8 || b == 10u8 || b == 11u8 || b == 12u8 || b == 13u8 || b == 32u8
}

/// Whether the line that may start at place `i` of `bytes` is safe for the
/// OBJ parser, which cuts the line of an object name after its first byte
/// and that of a group name after its second. Only a line of more than two
/// bytes is cut. It can be cut inside a character after its first byte
/// only when it starts with a character of several bytes, and after its
/// second byte only when it starts with such a character, with `g` or with
/// white space; in those cases the cut must fall between characters.
pub open spec fn obj_line_head_ok(bytes: Seq<u8>, i: int) -> bool {
    (0 <= i && i + 2 < bytes.len() && (i == 0 || bytes[i - 1] == 10u8) && bytes[i + 1] != 10u8 && bytes[i
        + 2] != 10u8) ==> {
        &&& bytes[i] >= 0x80u8 ==> !is_utf8_continuation(bytes[i + 1]) && !is_utf8_continuation(bytes[i + 2])
        &&& (bytes[i] == 103u8 || is_ascii_white_space(bytes[i])) ==> !is_utf8_continuation(bytes[i + 2])
    }
}

/// Whether the OBJ parser can cut every line of `bytes` that it cuts
/// without cutting a character.
pub open spec fn obj_line_heads_on_char_boundaries(bytes: Seq<u8>) -> bool {
    forall|i: int| 0 <= i < bytes.len() ==> #[trigger] obj_line_head_ok(bytes, i)
}

/// Tells whether the lines of `bytes` can be parsed without the parser
/// cutting a character.
pub fn obj_lines_sliceable(bytes: &[u8]) -> (b: bool)
    ensures
        b == obj_line_heads_on_char_boundaries(bytes@),
{
    let n = bytes.len();
    let mut i: usize = 0;
    while i < n
        invariant
            n == bytes@.len(),
            i <= n,
            forall|k: int| 0 <= k < i ==> #[trigger] obj_line_head_ok(bytes@, k),
        decreases n - i,
    {
        if n >= 3 && i < n - 2 && (i == 0 || bytes[i - 1] == 10u8) && bytes[i + 1] != 10u8 && bytes[i + 2]
            != 10u8 {
            let b0 = bytes[i];
            let cont1 = 0x80u8 <= bytes[i + 1] && bytes[i + 1] < 0xC0u8;
            let cont2 = 0x80u8 <= bytes[i + 2] && bytes[i + 2] < 0xC0u8;
            let space = b0 == 9u8 || b0 == 10u8 || b0 == 11u8 || b0 == 12u8 || b0 == 13u8 || b0 == 32u8;
            if (b0 >= 0x80u8 && (cont1 || cont2)) || ((b0 == 103u8 || space) && cont2) {
                assert(!obj_line_head_ok(bytes@, i as int));
                return false;
            }
        }
        assert(obj_line_head_ok(bytes@, i as int));
        i = i + 1;
    }
    true
}

/// Calls `obj::ObjData::load_buf` on the bytes and gives, for each object,
/// for each group, for each face, its corners with their position, texture
/// and normal indices. The contract names the result, which depends on the
/// bytes alone. The `requires` leaves out every input on which the parser
/// panics.
#[verifier::external_body]
fn parse_obj_faces(bytes: &[u8]) -> (r: Option<Vec<Vec<Vec<Vec<VertexRef>>>>>)
    requires
        obj_line_heads_on_char_boundaries(bytes@),
    ensures
        obj_faces(bytes@) == match r {
            Some(d) => Some(objects_view(d@)),
            None => None,
        },
{
    match obj::ObjData::load_buf(bytes) {
        Ok(data) => Some(data.objects.iter().map(|o| o.groups.iter().map(|g| g.polys.iter().map(|p| p.0.iter().map(
            |t| VertexRef { position: t.0, texture: t.1, normal: t.2 }).collect()).collect()).collect()).collect()),
        Err(_) => None,
    }
}

/// The faces of each group of a Wavefront OBJ file, the groups of all
/// objects in order, or nothing where the bytes do not parse.
pub fn wavefront_group_faces(bytes: &[u8]) -> (r: Option<Vec<Vec<Vec<VertexRef>>>>)
    requires
        obj_line_heads_on_char_boundaries(bytes@),
    ensures
        match obj_faces(bytes@) {
            Some(d) => r matches Some(gs) && groups_view(gs@) == d.flatten(),
            None => r is None,
        },
{
    match parse_obj_faces(bytes) {
        Some(d) => {
            let ghost dv = d@;
            let gs = join_parts(d);
            proof {
                let f = |g: Vec<Vec<VertexRef>>| faces_view(g@);
                lemma_map_flatten(dv.map_values(|o: Vec<Vec<Vec<VertexRef>>>| o@), f);
                assert(dv.map_values(|o: Vec<Vec<Vec<VertexRef>>>| o@).map_values(
                    |x: Seq<Vec<Vec<VertexRef>>>| x.map_values(f),
                ) =~= objects_view(dv));
            }
            Some(gs)
        },
        None => None,
    }
}

/// The corners of all faces of a Wavefront OBJ file, face after face, or
/// nothing where the bytes do not parse.
pub fn wavefront_corners(bytes: &[u8]) -> (r: Option<Vec<VertexRef>>)
    requires
        obj_line_heads_on_char_boundaries(bytes@),
    ensures
        match obj_faces(bytes@) {
            Some(d) => r matches Some(v) && v@ == d.flatten().flatten().flatten(),
            None => r is None,
        },
{
    match wavefront_group_faces(bytes) {
        Some(gs) => {
            let ghost gv = gs@;
            let faces = join_parts(gs);
            let ghost fv = faces@;
            proof {
                let f = |q: Vec<VertexRef>| q@;
                lemma_map_flatten(gv.map_values(|g: Vec<Vec<VertexRef>>| g@), f);
                assert(gv.map_values(|g: Vec<Vec<VertexRef>>| g@).map_values(
                    |x: Seq<Vec<VertexRef>>| x.map_values(f),
                ) =~= groups_view(gv));
                assert(faces_view(fv) =~= fv.map_values(f));
            }
            let corners = join_parts(faces);
            Some(corners)
        },
        None => None,
    }
}

} // verus!
