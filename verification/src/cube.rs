use vstd::prelude::*;

verus! {

/// The index list of the unit cube whose vertices carry normals: four vertices per face (front,
/// back, left, right, top, bottom), two triangles per face.
pub open spec fn indices_with_normals() -> Seq<u32> {
    seq![
        0, 1, 2, 2, 1, 3,
        4, 5, 6, 6, 5, 7,
        8, 9, 10, 10, 9, 11,
        12, 13, 14, 14, 13, 15,
        16, 17, 18, 18, 17, 19,
        20, 21, 22, 22, 21, 23,
    ]
}

/// The index list of the unit cube whose eight corners are shared between faces (front, top,
/// right, left, bottom, back), two triangles per face.
pub open spec fn indices_shared_corners() -> Seq<u32> {
    seq![
        0, 1, 2, 2, 1, 3,
        1, 5, 3, 3, 5, 7,
        2, 3, 6, 6, 3, 7,
        4, 5, 0, 0, 5, 1,
        4, 0, 6, 6, 0, 2,
        4, 5, 6, 6, 5, 7,
    ]
}

/// The number of vertices of the unit cube: 24 when each face has its own vertices (to carry
/// the face's normal), 8 otherwise.
pub open spec fn spec_cube_vertex_count(with_normals: bool) -> nat {
    if with_normals { 24 } else { 8 }
}

/// The number of vertices of the unit cube.
pub fn cube_vertex_count(with_normals: bool) -> (res: usize)
    ensures
        res == spec_cube_vertex_count(with_normals),
{
    if with_normals { 24 } else { 8 }
}

/// The triangle indices of the unit cube, as `new_cube` draws it.
pub fn cube_indices(with_normals: bool) -> (res: Vec<u32>)
    ensures
        res@ == if with_normals { indices_with_normals() } else { indices_shared_corners() },
{
    let res: Vec<u32> = if with_normals {
        vec![
            0, 1, 2, 2, 1, 3,
            4, 5, 6, 6, 5, 7,
            8, 9, 10, 10, 9, 11,
            12, 13, 14, 14, 13, 15,
            16, 17, 18, 18, 17, 19,
            20, 21, 22, 22, 21, 23,
        ]
    } else {
        vec![
            0, 1, 2, 2, 1, 3,
            1, 5, 3, 3, 5, 7,
            2, 3, 6, 6, 3, 7,
            4, 5, 0, 0, 5, 1,
            4, 0, 6, 6, 0, 2,
            4, 5, 6, 6, 5, 7,
        ]
    };
    assert(res@ =~= if with_normals { indices_with_normals() } else { indices_shared_corners() });
    res
}

/// The cube is made of twelve triangles, and every index designates one of its vertices.
pub proof fn lemma_cube_indices_valid(with_normals: bool)
    ensures
        ({
            let idx = if with_normals { indices_with_normals() } else { indices_shared_corners() };
            &&& idx.len() == 36
            &&& forall|i: int| 0 <= i < idx.len() ==> idx[i] < spec_cube_vertex_count(with_normals)
        }),
{
    let idx = if with_normals { indices_with_normals() } else { indices_shared_corners() };
    assert(idx.len() == 36);
    assert forall|i: int| 0 <= i < idx.len() implies idx[i] < spec_cube_vertex_count(with_normals) by {
        if with_normals {
            assert(indices_with_normals()[i] < 24);
        } else {
            assert(indices_shared_corners()[i] < 8);
        }
    }
}

/// Every vertex of the cube is drawn: each index below the vertex count occurs in the index list.
pub proof fn lemma_cube_draws_every_vertex(with_normals: bool)
    ensures
        ({
            let idx = if with_normals { indices_with_normals() } else { indices_shared_corners() };
            forall|v: u32| v < spec_cube_vertex_count(with_normals) ==> idx.contains(v)
        }),
{
    if with_normals {
        let idx = indices_with_normals();
        assert forall|v: u32| v < 24 implies idx.contains(v) by {
            if v == 0 {
                assert(idx[0] == v);
            } else if v == 1 {
                assert(idx[1] == v);
            } else if v == 2 {
                assert(idx[2] == v);
            } else if v == 3 {
                assert(idx[5] == v);
            } else if v == 4 {
                assert(idx[6] == v);
            } else if v == 5 {
                assert(idx[7] == v);
            } else if v == 6 {
                assert(idx[8] == v);
            } else if v == 7 {
                assert(idx[11] == v);
            } else if v == 8 {
                assert(idx[12] == v);
            } else if v == 9 {
                assert(idx[13] == v);
            } else if v == 10 {
                assert(idx[14] == v);
            } else if v == 11 {
                assert(idx[17] == v);
            } else if v == 12 {
                assert(idx[18] == v);
            } else if v == 13 {
                assert(idx[19] == v);
            } else if v == 14 {
                assert(idx[20] == v);
            } else if v == 15 {
                assert(idx[23] == v);
            } else if v == 16 {
                assert(idx[24] == v);
            } else if v == 17 {
                assert(idx[25] == v);
            } else if v == 18 {
                assert(idx[26] == v);
            } else if v == 19 {
                assert(idx[29] == v);
            } else if v == 20 {
                assert(idx[30] == v);
            } else if v == 21 {
                assert(idx[31] == v);
            } else if v == 22 {
                assert(idx[32] == v);
            } else if v == 23 {
                assert(idx[35] == v);
            }
        }
    } else {
        let idx = indices_shared_corners();
        assert forall|v: u32| v < 8 implies idx.contains(v) by {
            if v == 0 {
                assert(idx[0] == v);
            } else if v == 1 {
                assert(idx[1] == v);
            } else if v == 2 {
                assert(idx[2] == v);
            } else if v == 3 {
                assert(idx[5] == v);
            } else if v == 4 {
                assert(idx[18] == v);
            } else if v == 5 {
                assert(idx[7] == v);
            } else if v == 6 {
                assert(idx[14] == v);
            } else if v == 7 {
                assert(idx[11] == v);
            }
        }
    }
}

/// With normals, each face `k` has its own four vertices `4k .. 4k + 3`, drawn as the two
/// triangles `4k, 4k + 1, 4k + 2` and `4k + 2, 4k + 1, 4k + 3`, and no other triangle uses them.
pub proof fn lemma_cube_faces_with_normals()
    ensures
        forall|k: int| 0 <= k < 6 ==> {
            let f = #[trigger] indices_with_normals().subrange(6 * k, 6 * k + 6);
            let b = (4 * k) as u32;
            f == seq![b, (b + 1) as u32, (b + 2) as u32, (b + 2) as u32, (b + 1) as u32, (b + 3) as u32]
        },
        forall|i: int| 0 <= i < 36 ==> (indices_with_normals()[i] as int) / 4 == #[trigger] (i / 6),
{
    let idx = indices_with_normals();
        assert(idx.subrange(0, 6) =~= seq![0u32, 1, 2, 2, 1, 3]);
        assert(idx.subrange(6, 12) =~= seq![4u32, 5, 6, 6, 5, 7]);
        assert(idx.subrange(12, 18) =~= seq![8u32, 9, 10, 10, 9, 11]);
        assert(idx.subrange(18, 24) =~= seq![12u32, 13, 14, 14, 13, 15]);
        assert(idx.subrange(24, 30) =~= seq![16u32, 17, 18, 18, 17, 19]);
        assert(idx.subrange(30, 36) =~= seq![20u32, 21, 22, 22, 21, 23]);
    assert forall|k: int| 0 <= k < 6 implies {
        let f = #[trigger] idx.subrange(6 * k, 6 * k + 6);
        let b = (4 * k) as u32;
        f == seq![b, (b + 1) as u32, (b + 2) as u32, (b + 2) as u32, (b + 1) as u32, (b + 3) as u32]
    } by {
        if k == 0 {} else if k == 1 {} else if k == 2 {} else if k == 3 {} else if k == 4 {} else {}
    }
    assert forall|i: int| 0 <= i < 36 implies (idx[i] as int) / 4 == #[trigger] (i / 6) by {
        let k = i / 6;
        assert(0 <= k < 6);
        assert(idx[i] == idx.subrange(6 * k, 6 * k + 6)[i - 6 * k]);
    }
}

} // verus!
