//! Assembly of the triangle list of a model loaded from a Wavefront OBJ
//! file: every polygon's corners are looked up in the model's attribute
//! lists, and polygons of four and five corners are split into triangles.

use vstd::prelude::*;

verus! {

/// The corner of a polygon: index of its position, of its texture
/// coordinate and of its normal.
#[derive(Clone, Copy, Debug, PartialEq, Eq)]
pub struct IndexTuple(pub usize, pub Option<usize>, pub Option<usize>);

/// A group of polygons.
pub struct Group {
    pub polys: Vec<Vec<IndexTuple>>,
}

/// An object made of groups.
pub struct Object {
    pub groups: Vec<Group>,
}

/// A model: its attribute lists and its objects.
pub struct ObjModel<P, T, N> {
    pub position: Vec<P>,
    pub texture: Vec<T>,
    pub normal: Vec<N>,
    pub objects: Vec<Object>,
}

/// One vertex of the triangle list.
#[derive(Clone, Copy, Debug)]
pub struct MeshVertex<P, N, T> {
    pub position: P,
    pub normal: N,
    pub tangent: N,
    pub texture: T,
}

/// The attribute lists of a model, as sequences.
pub struct Attributes<P, T, N> {
    pub position: Seq<P>,
    pub texture: Seq<T>,
    pub normal: Seq<N>,
}

impl<P, T, N> ObjModel<P, T, N> {
    pub open spec fn attributes(&self) -> Attributes<P, T, N> {
        Attributes { position: self.position@, texture: self.texture@, normal: self.normal@ }
    }
}

/// Every index of the corner points into the attribute lists, and the
/// corner has a texture coordinate and a normal.
pub open spec fn corner_ok<P, T, N>(a: Attributes<P, T, N>, t: IndexTuple) -> bool {
    &&& t.0 < a.position.len()
    &&& t.1 matches Some(ti) && ti < a.texture.len()
    &&& t.2 matches Some(ni) && ni < a.normal.len()
}

/// The polygon has three to five corners, each of them valid.
pub open spec fn poly_ok<P, T, N>(a: Attributes<P, T, N>, poly: Seq<IndexTuple>) -> bool {
    &&& 3 <= poly.len() <= 5
    &&& forall|k: int| 0 <= k < poly.len() ==> corner_ok(a, #[trigger] poly[k])
}

pub open spec fn polys_ok<P, T, N>(a: Attributes<P, T, N>, polys: Seq<Vec<IndexTuple>>) -> bool {
    forall|i: int| 0 <= i < polys.len() ==> poly_ok(a, #[trigger] polys[i]@)
}

pub open spec fn groups_ok<P, T, N>(a: Attributes<P, T, N>, groups: Seq<Group>) -> bool {
    forall|i: int| 0 <= i < groups.len() ==> polys_ok(a, (#[trigger] groups[i]).polys@)
}

pub open spec fn objects_ok<P, T, N>(a: Attributes<P, T, N>, objects: Seq<Object>) -> bool {
    forall|i: int| 0 <= i < objects.len() ==> groups_ok(a, (#[trigger] objects[i]).groups@)
}

/// The vertex of a corner: its position, its normal (also used as the
/// tangent) and its texture coordinate.
pub open spec fn corner_vertex<P, T, N>(a: Attributes<P, T, N>, t: IndexTuple) -> MeshVertex<P, N, T> {
    MeshVertex {
        position: a.position[t.0 as int],
        normal: a.normal[t.2->0 as int],
        tangent: a.normal[t.2->0 as int],
        texture: a.texture[t.1->0 as int],
    }
}

pub open spec fn poly_vertices<P, T, N>(a: Attributes<P, T, N>, poly: Seq<IndexTuple>) -> Seq<MeshVertex<P, N, T>> {
    poly.map_values(|t: IndexTuple| corner_vertex(a, t))
}

/// The triangles of a polygon of three to five corners: a triangle is kept;
/// a quad `0 1 2 3` gives `0 1 2` and `0 2 3`; a pentagon `0 1 2 3 4`
/// gives `0 1 2`, `0 2 4` and `2 4 3`.
pub open spec fn triangulated<V>(f: Seq<V>) -> Seq<V> {
    if f.len() == 3 {
        seq![f[0], f[1], f[2]]
    } else if f.len() == 4 {
        seq![f[0], f[1], f[2], f[0], f[2], f[3]]
    } else {
        seq![f[0], f[1], f[2], f[0], f[2], f[4], f[2], f[4], f[3]]
    }
}

pub open spec fn polys_mesh<P, T, N>(a: Attributes<P, T, N>, polys: Seq<Vec<IndexTuple>>) -> Seq<MeshVertex<P, N, T>>
    decreases polys.len(),
{
    if polys.len() == 0 {
        Seq::empty()
    } else {
        polys_mesh(a, polys.drop_last()) + triangulated(poly_vertices(a, polys.last()@))
    }
}

pub open spec fn groups_mesh<P, T, N>(a: Attributes<P, T, N>, groups: Seq<Group>) -> Seq<MeshVertex<P, N, T>>
    decreases groups.len(),
{
    if groups.len() == 0 {
        Seq::empty()
    } else {
        groups_mesh(a, groups.drop_last()) + polys_mesh(a, groups.last().polys@)
    }
}

pub open spec fn objects_mesh<P, T, N>(a: Attributes<P, T, N>, objects: Seq<Object>) -> Seq<MeshVertex<P, N, T>>
    decreases objects.len(),
{
    if objects.len() == 0 {
        Seq::empty()
    } else {
        objects_mesh(a, objects.drop_last()) + groups_mesh(a, objects.last().groups@)
    }
}

/// The triangles of a polygon of three to five corners.
pub fn triangulate_face<V: Copy>(face: &Vec<V>) -> (triangles: Vec<V>)
    requires
        3 <= face.len() <= 5,
    ensures
        triangles@ == triangulated(face@),
{
    let mut triangles: Vec<V> = Vec::new();
    if face.len() == 3 {
        triangles.push(face[0]);
        triangles.push(face[1]);
        triangles.push(face[2]);
    } else if face.len() == 4 {
        triangles.push(face[0]);
        triangles.push(face[1]);
        triangles.push(face[2]);
        triangles.push(face[0]);
        triangles.push(face[2]);
        triangles.push(face[3]);
    } else {
        triangles.push(face[0]);
        triangles.push(face[1]);
        triangles.push(face[2]);
        triangles.push(face[0]);
        triangles.push(face[2]);
        triangles.push(face[4]);
        triangles.push(face[2]);
        triangles.push(face[4]);
        triangles.push(face[3]);
    }
    assert(triangles@ =~= triangulated(face@));
    triangles
}

impl<P: Copy, T: Copy, N: Copy> ObjModel<P, T, N> {
    /// The vertices of the corners of `poly`, in order.
    pub fn face_vertices(&self, poly: &Vec<IndexTuple>) -> (vertices: Vec<MeshVertex<P, N, T>>)
        requires
            forall|k: int| 0 <= k < poly@.len() ==> corner_ok(self.attributes(), #[trigger] poly@[k]),
        ensures
            vertices@ == poly_vertices(self.attributes(), poly@),
    {
        let mut vertices: Vec<MeshVertex<P, N, T>> = Vec::new();
        let mut k: usize = 0;
        while k < poly.len()
            invariant
                k <= poly@.len(),
                forall|j: int| 0 <= j < poly@.len() ==> corner_ok(self.attributes(), #[trigger] poly@[j]),
                vertices@ == poly_vertices(self.attributes(), poly@.take(k as int)),
            decreases poly.len() - k,
        {
            let face = poly[k];
            assert(corner_ok(self.attributes(), poly@[k as int]));
            let normal_index = face.2.unwrap();
            let texture_index = face.1.unwrap();
            vertices.push(
                MeshVertex {
                    position: self.position[face.0],
                    normal: self.normal[normal_index],
                    tangent: self.normal[normal_index],
                    texture: self.texture[texture_index],
                },
            );
            k = k + 1;
            assert(vertices@ =~= poly_vertices(self.attributes(), poly@.take(k as int)));
        }
        assert(poly@.take(k as int) =~= poly@);
        vertices
    }

    fn append_polys(&self, polys: &Vec<Vec<IndexTuple>>, out: &mut Vec<MeshVertex<P, N, T>>)
        requires
            polys_ok(self.attributes(), polys@),
        ensures
            final(out)@ == old(out)@ + polys_mesh(self.attributes(), polys@),
    {
        let ghost start = out@;
        let mut i: usize = 0;
        while i < polys.len()
            invariant
                i <= polys@.len(),
                polys_ok(self.attributes(), polys@),
                out@ == start + polys_mesh(self.attributes(), polys@.take(i as int)),
            decreases polys.len() - i,
        {
            assert(poly_ok(self.attributes(), polys@[i as int]@));
            let face_vertices = self.face_vertices(&polys[i]);
            let mut triangles = triangulate_face(&face_vertices);
            out.append(&mut triangles);
            proof {
                let next = polys@.take(i as int + 1);
                assert(next.drop_last() =~= polys@.take(i as int));
                assert(next.last() == polys@[i as int]);
            }
            i = i + 1;
            assert(out@ =~= start + polys_mesh(self.attributes(), polys@.take(i as int)));
        }
        assert(polys@.take(i as int) =~= polys@);
    }

    fn append_groups(&self, groups: &Vec<Group>, out: &mut Vec<MeshVertex<P, N, T>>)
        requires
            groups_ok(self.attributes(), groups@),
        ensures
            final(out)@ == old(out)@ + groups_mesh(self.attributes(), groups@),
    {
        let ghost start = out@;
        let mut i: usize = 0;
        while i < groups.len()
            invariant
                i <= groups@.len(),
                groups_ok(self.attributes(), groups@),
                out@ == start + groups_mesh(self.attributes(), groups@.take(i as int)),
            decreases groups.len() - i,
        {
            assert(polys_ok(self.attributes(), groups@[i as int].polys@));
            self.append_polys(&groups[i].polys, out);
            proof {
                let next = groups@.take(i as int + 1);
                assert(next.drop_last() =~= groups@.take(i as int));
                assert(next.last() == groups@[i as int]);
            }
            i = i + 1;
            assert(out@ =~= start + groups_mesh(self.attributes(), groups@.take(i as int)));
        }
        assert(groups@.take(i as int) =~= groups@);
    }

    /// The triangle list of the whole model: for every object, group and
    /// polygon in order, the triangles of the polygon's corner vertices.
    pub fn build_vertices(&self) -> (vertices: Vec<MeshVertex<P, N, T>>)
        requires
            objects_ok(self.attributes(), self.objects@),
        ensures
            vertices@ == objects_mesh(self.attributes(), self.objects@),
    {
        let mut vertices: Vec<MeshVertex<P, N, T>> = Vec::new();
        let mut i: usize = 0;
        while i < self.objects.len()
            invariant
                i <= self.objects@.len(),
                objects_ok(self.attributes(), self.objects@),
                vertices@ == objects_mesh(self.attributes(), self.objects@.take(i as int)),
            decreases self.objects.len() - i,
        {
            assert(groups_ok(self.attributes(), self.objects@[i as int].groups@));
            self.append_groups(&self.objects[i].groups, &mut vertices);
            proof {
                let next = self.objects@.take(i as int + 1);
                assert(next.drop_last() =~= self.objects@.take(i as int));
                assert(next.last() == self.objects@[i as int]);
            }
            i = i + 1;
            assert(vertices@ =~= objects_mesh(self.attributes(), self.objects@.take(i as int)));
        }
        assert(self.objects@.take(i as int) =~= self.objects@);
        vertices
    }
}

/// A polygon of `n` corners, three to five, gives `n - 2` triangles, each
/// made of corners of the polygon.
pub proof fn law_triangulation_shape<V>(face: Seq<V>)
    requires
        3 <= face.len() <= 5,
    ensures
        triangulated(face).len() == 3 * (face.len() - 2),
        forall|k: int| 0 <= k < triangulated(face).len() ==> face.contains(#[trigger] triangulated(face)[k]),
{
    assert(face.contains(face[0]));
    assert(face.contains(face[1]));
    assert(face.contains(face[2]));
    if face.len() >= 4 {
        assert(face.contains(face[3]));
    }
    if face.len() == 5 {
        assert(face.contains(face[4]));
    }
}

proof fn lemma_polys_mesh_triangles<P, T, N>(a: Attributes<P, T, N>, polys: Seq<Vec<IndexTuple>>)
    requires
        polys_ok(a, polys),
    ensures
        polys_mesh(a, polys).len() % 3 == 0,
    decreases polys.len(),
{
    if polys.len() > 0 {
        assert(polys_ok(a, polys.drop_last()));
        lemma_polys_mesh_triangles(a, polys.drop_last());
        assert(poly_ok(a, polys[polys.len() - 1]@));
        law_triangulation_shape(poly_vertices(a, polys.last()@));
    }
}

proof fn lemma_groups_mesh_triangles<P, T, N>(a: Attributes<P, T, N>, groups: Seq<Group>)
    requires
        groups_ok(a, groups),
    ensures
        groups_mesh(a, groups).len() % 3 == 0,
    decreases groups.len(),
{
    if groups.len() > 0 {
        assert(groups_ok(a, groups.drop_last()));
        lemma_groups_mesh_triangles(a, groups.drop_last());
        assert(polys_ok(a, groups[groups.len() - 1].polys@));
        lemma_polys_mesh_triangles(a, groups.last().polys@);
    }
}

/// The vertices of a model always form whole triangles: their number is a
/// multiple of three.
pub proof fn law_mesh_is_triangle_list<P, T, N>(a: Attributes<P, T, N>, objects: Seq<Object>)
    requires
        objects_ok(a, objects),
    ensures
        objects_mesh(a, objects).len() % 3 == 0,
    decreases objects.len(),
{
    if objects.len() > 0 {
        assert(objects_ok(a, objects.drop_last()));
        law_mesh_is_triangle_list(a, objects.drop_last());
        assert(groups_ok(a, objects[objects.len() - 1].groups@));
        lemma_groups_mesh_triangles(a, objects.last().groups@);
    }
}


/// The triangles of two runs of polygons, one after the other, are the
/// triangles of the first run followed by those of the second.
pub proof fn law_polys_mesh_concat<P, T, N>(a: Attributes<P, T, N>, s: Seq<Vec<IndexTuple>>, t: Seq<Vec<IndexTuple>>)
    ensures
        polys_mesh(a, s + t) == polys_mesh(a, s) + polys_mesh(a, t),
    decreases t.len(),
{
    if t.len() == 0 {
        assert(s + t =~= s);
        assert(polys_mesh(a, s) + polys_mesh(a, t) =~= polys_mesh(a, s));
    } else {
        law_polys_mesh_concat(a, s, t.drop_last());
        assert((s + t).drop_last() =~= s + t.drop_last());
        assert((s + t).last() == t.last());
        let tri = triangulated(poly_vertices(a, t.last()@));
        assert(polys_mesh(a, s) + polys_mesh(a, t.drop_last()) + tri =~= polys_mesh(a, s) + (polys_mesh(
            a,
            t.drop_last(),
        ) + tri));
    }
}

/// The triangles of two runs of groups, one after the other, are the
/// triangles of the first run followed by those of the second.
pub proof fn law_groups_mesh_concat<P, T, N>(a: Attributes<P, T, N>, s: Seq<Group>, t: Seq<Group>)
    ensures
        groups_mesh(a, s + t) == groups_mesh(a, s) + groups_mesh(a, t),
    decreases t.len(),
{
    if t.len() == 0 {
        assert(s + t =~= s);
        assert(groups_mesh(a, s) + groups_mesh(a, t) =~= groups_mesh(a, s));
    } else {
        law_groups_mesh_concat(a, s, t.drop_last());
        assert((s + t).drop_last() =~= s + t.drop_last());
        assert((s + t).last() == t.last());
        let last = polys_mesh(a, t.last().polys@);
        assert(groups_mesh(a, s) + groups_mesh(a, t.drop_last()) + last =~= groups_mesh(a, s) + (groups_mesh(
            a,
            t.drop_last(),
        ) + last));
    }
}

/// The triangles of two runs of objects, one after the other, are the
/// triangles of the first run followed by those of the second: no object's
/// triangles are dropped, repeated or reordered.
pub proof fn law_objects_mesh_concat<P, T, N>(a: Attributes<P, T, N>, s: Seq<Object>, t: Seq<Object>)
    ensures
        objects_mesh(a, s + t) == objects_mesh(a, s) + objects_mesh(a, t),
    decreases t.len(),
{
    if t.len() == 0 {
        assert(s + t =~= s);
        assert(objects_mesh(a, s) + objects_mesh(a, t) =~= objects_mesh(a, s));
    } else {
        law_objects_mesh_concat(a, s, t.drop_last());
        assert((s + t).drop_last() =~= s + t.drop_last());
        assert((s + t).last() == t.last());
        let last = groups_mesh(a, t.last().groups@);
        assert(objects_mesh(a, s) + objects_mesh(a, t.drop_last()) + last =~= objects_mesh(a, s) + (objects_mesh(
            a,
            t.drop_last(),
        ) + last));
    }
}

/// One object gives the triangles of its groups, one group those of its
/// polygons, and one polygon the triangles of its corner vertices.
pub proof fn law_mesh_of_one<P, T, N>(a: Attributes<P, T, N>, o: Object, g: Group, poly: Vec<IndexTuple>)
    ensures
        objects_mesh(a, seq![o]) == groups_mesh(a, o.groups@),
        groups_mesh(a, seq![g]) == polys_mesh(a, g.polys@),
        polys_mesh(a, seq![poly]) == triangulated(poly_vertices(a, poly@)),
{
    assert(seq![o].drop_last() =~= Seq::<Object>::empty());
    assert(seq![o].last() == o);
    assert(objects_mesh(a, Seq::<Object>::empty()) == Seq::<MeshVertex<P, N, T>>::empty());
    assert(seq![g].drop_last() =~= Seq::<Group>::empty());
    assert(seq![g].last() == g);
    assert(groups_mesh(a, Seq::<Group>::empty()) == Seq::<MeshVertex<P, N, T>>::empty());
    assert(seq![poly].drop_last() =~= Seq::<Vec<IndexTuple>>::empty());
    assert(seq![poly].last() == poly);
    assert(polys_mesh(a, Seq::<Vec<IndexTuple>>::empty()) == Seq::<MeshVertex<P, N, T>>::empty());
    assert(Seq::<MeshVertex<P, N, T>>::empty() + groups_mesh(a, o.groups@) =~= groups_mesh(a, o.groups@));
    assert(Seq::<MeshVertex<P, N, T>>::empty() + polys_mesh(a, g.polys@) =~= polys_mesh(a, g.polys@));
    assert(Seq::<MeshVertex<P, N, T>>::empty() + triangulated(poly_vertices(a, poly@)) =~= triangulated(
        poly_vertices(a, poly@),
    ));
}

/// The number of vertices of a model is three for every triangle of every
/// polygon of every group of every object: a polygon of `n` corners adds
/// `3 * (n - 2)` vertices to what the polygons before it gave.
pub proof fn law_polygon_adds_its_triangles<P, T, N>(a: Attributes<P, T, N>, polys: Seq<Vec<IndexTuple>>, poly: Vec<IndexTuple>)
    requires
        3 <= poly@.len() <= 5,
    ensures
        polys_mesh(a, polys.push(poly)).len() == polys_mesh(a, polys).len() + 3 * (poly@.len() - 2),
{
    assert(polys.push(poly).drop_last() =~= polys);
    law_triangulation_shape(poly_vertices(a, poly@));
}

} // verus!
