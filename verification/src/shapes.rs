use vstd::prelude::*;

verus! {

/// Index `k` of the triangle fan of a circle with `resolution` rim vertices.
/// Vertex 0 is the centre and rim vertices `1..=resolution` run clockwise;
/// triangle `t` joins the centre with rim vertices `t + 2` and `t + 1`, and the
/// last one closes the fan with rim vertices `1` and `resolution`.
pub open spec fn circle_index(resolution: u32, k: int) -> int {
    let t = k / 3;
    let corner = k % 3;
    if corner == 0 {
        0
    } else if t < resolution - 1 {
        if corner == 1 { t + 2 } else { t + 1 }
    } else {
        if corner == 1 { 1 } else { resolution as int }
    }
}

/// The index buffer of a circle mesh: one triangle per rim vertex.
pub fn circle_indices(resolution: u32) -> (r: Vec<u32>)
    requires
        1 <= resolution,
        resolution * 3 <= usize::MAX,
    ensures
        r@.len() == resolution * 3,
        forall|k: int| 0 <= k < r@.len() ==> #[trigger] r@[k] == circle_index(resolution, k),
        forall|k: int|
            0 <= k < (resolution - 1) * 3 ==> #[trigger] r@[k] == (if k % 3 == 0 {
                0
            } else if k % 3 == 1 {
                k / 3 + 2
            } else {
                k / 3 + 1
            }),
        r@[(resolution - 1) * 3] == 0,
        r@[(resolution - 1) * 3 + 1] == 1,
        r@[(resolution - 1) * 3 + 2] == resolution,
{
    let mut indices: Vec<u32> = Vec::new();
    let mut i: u32 = 0;
    while i < resolution - 1
        invariant
            1 <= resolution,
            i <= resolution - 1,
            indices@.len() == i * 3,
            forall|k: int| 0 <= k < indices@.len() ==> indices@[k] == circle_index(resolution, k),
        decreases resolution - 1 - i,
    {
        indices.push(0);
        indices.push(i + 2);
        indices.push(i + 1);
        proof {
            assert forall|k: int| 0 <= k < indices@.len() implies indices@[k] == circle_index(
                resolution,
                k,
            ) by {
                if k >= i * 3 {
                    assert(k / 3 == i as int);
                }
            }
        }
        i = i + 1;
    }
    indices.push(0);
    indices.push(1);
    indices.push(resolution);
    proof {
        assert forall|k: int| 0 <= k < indices@.len() implies indices@[k] == circle_index(resolution, k) by {
            if k >= (resolution - 1) * 3 {
                assert(k / 3 == resolution - 1);
            }
        }
        assert forall|k: int| 0 <= k < (resolution - 1) * 3 implies #[trigger] indices@[k] == (if k % 3 == 0 {
            0
        } else if k % 3 == 1 {
            k / 3 + 2
        } else {
            k / 3 + 1
        }) by {
            assert(indices@[k] == circle_index(resolution, k));
            assert(k / 3 < resolution - 1);
        }
        let last = (resolution - 1) * 3;
        assert(indices@[last] == circle_index(resolution, last));
        assert(indices@[last + 1] == circle_index(resolution, last + 1));
        assert(indices@[last + 2] == circle_index(resolution, last + 2));
        assert(last / 3 == resolution - 1 && (last + 1) / 3 == resolution - 1 && (last + 2) / 3 == resolution - 1);
        assert((last + 1) % 3 == 1 && (last + 2) % 3 == 2 && last % 3 == 0);
    }
    indices
}

/// Every triangle of the fan but the closing one is `(0, t + 2, t + 1)`: its
/// second corner is one past its third, so all of them wind the same way.
pub proof fn lemma_circle_fan_winding(resolution: u32, t: int)
    requires
        1 <= resolution,
        0 <= t < resolution - 1,
    ensures
        circle_index(resolution, 3 * t) == 0,
        circle_index(resolution, 3 * t + 1) == t + 2,
        circle_index(resolution, 3 * t + 2) == t + 1,
        circle_index(resolution, 3 * t + 1) == circle_index(resolution, 3 * t + 2) + 1,
{
    assert((3 * t) / 3 == t && (3 * t) % 3 == 0);
    assert((3 * t + 1) / 3 == t && (3 * t + 1) % 3 == 1);
    assert((3 * t + 2) / 3 == t && (3 * t + 2) % 3 == 2);
}

/// Every index of a circle's fan addresses one of its `resolution + 1`
/// vertices, and every triangle has the centre as its first corner.
pub proof fn lemma_circle_indices_in_range(resolution: u32, k: int)
    requires
        1 <= resolution,
        0 <= k < resolution * 3,
    ensures
        0 <= circle_index(resolution, k) <= resolution,
        k % 3 == 0 ==> circle_index(resolution, k) == 0,
{
}

} // verus!
