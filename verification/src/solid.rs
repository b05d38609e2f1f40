//! The icosahedron that every mesh starts from.

use crate::mesh::{MeshData, MeshView, Origin, Vertex};
use vstd::prelude::*;

verus! {

/// The number `ones + phis * φ`, where φ is the golden ratio, `(1 + √5) / 2`.
#[derive(Clone, Copy, Debug, PartialEq, Eq, Structural)]
pub struct Golden {
    pub ones: i8,
    pub phis: i8,
}

/// A point in space, before it is pushed onto the unit sphere.
#[derive(Clone, Copy, Debug, PartialEq, Eq, Structural)]
pub struct Position {
    pub x: Golden,
    pub y: Golden,
    pub z: Golden,
}

impl Golden {
    /// The part of the square of this number that is free of φ. Since
    /// `φ² = φ + 1`, the square of `a + bφ` is `a² + b² + (2ab + b²)φ`.
    pub open spec fn square_ones(self) -> int {
        self.ones * self.ones + self.phis * self.phis
    }

    /// The multiple of φ in the square of this number.
    pub open spec fn square_phis(self) -> int {
        2 * self.ones * self.phis + self.phis * self.phis
    }
}

impl Golden {
    /// The square of this number: the part free of φ, then the multiple of φ.
    pub fn square(&self) -> (r: (i32, i32))
        ensures
            r.0 == self.square_ones(),
            r.1 == self.square_phis(),
            0 <= r.0 <= 32768,
            -16384 <= r.1 <= 49152,
    {
        let a: i32 = self.ones as i32;
        let b: i32 = self.phis as i32;
        assert(0 <= a * a <= 16384 && 0 <= b * b <= 16384 && -16384 <= a * b <= 16384 && -16384
            <= 2 * (a * b) + b * b && 2 * a * b == 2 * (a * b)) by (nonlinear_arith)
            requires
                -128 <= a <= 127,
                -128 <= b <= 127,
        ;
        (a * a + b * b, 2 * (a * b) + b * b)
    }
}

impl Position {
    /// The part free of φ of the squared distance from the origin.
    pub open spec fn norm_squared_ones(self) -> int {
        self.x.square_ones() + self.y.square_ones() + self.z.square_ones()
    }

    /// The multiple of φ in the squared distance from the origin.
    pub open spec fn norm_squared_phis(self) -> int {
        self.x.square_phis() + self.y.square_phis() + self.z.square_phis()
    }

    /// The point with these coordinates.
    pub fn xyz(x: Golden, y: Golden, z: Golden) -> (p: Position)
        ensures
            p == (Position { x, y, z }),
    {
        Position { x, y, z }
    }

    /// The squared distance from the origin: the part free of φ, then the
    /// multiple of φ.
    pub fn norm_squared(&self) -> (r: (i32, i32))
        ensures
            r.0 == self.norm_squared_ones(),
            r.1 == self.norm_squared_phis(),
    {
        let x = self.x.square();
        let y = self.y.square();
        let z = self.z.square();
        (x.0 + y.0 + z.0, x.1 + y.1 + z.1)
    }
}

/// The number of corners of the icosahedron.
pub const SEED_COUNT: usize = 12;

/// The twelve corners of the icosahedron: the corners of three rectangles
/// with sides 2 and 2φ, one in each coordinate plane.
pub open spec fn seeds() -> Seq<Position> {
    let o = Golden { ones: 0, phis: 0 };
    let p = Golden { ones: 1, phis: 0 };
    let m = Golden { ones: -1i8, phis: 0 };
    let t = Golden { ones: 0, phis: 1 };
    let s = Golden { ones: 0, phis: -1i8 };
    seq![
        Position { x: m, y: t, z: o },
        Position { x: p, y: t, z: o },
        Position { x: m, y: s, z: o },
        Position { x: p, y: s, z: o },
        Position { x: o, y: m, z: t },
        Position { x: o, y: p, z: t },
        Position { x: o, y: m, z: s },
        Position { x: o, y: p, z: s },
        Position { x: t, y: o, z: m },
        Position { x: t, y: o, z: p },
        Position { x: s, y: o, z: m },
        Position { x: s, y: o, z: p },
    ]
}

/// The corners of the twenty faces of the icosahedron, three seeds for each
/// face, counter-clockwise as seen from outside.
pub open spec fn base_indices() -> Seq<u16> {
    seq![
        0u16, 11, 5, 0, 5, 1, 0, 1, 7, 0, 7, 10, 0, 10, 11,
        1, 5, 9, 5, 11, 4, 11, 10, 2, 10, 7, 6, 7, 1, 8,
        3, 9, 4, 3, 4, 2, 3, 2, 6, 3, 6, 8, 3, 8, 9,
        4, 9, 5, 2, 4, 11, 6, 2, 10, 8, 6, 7, 9, 8, 1,
    ]
}

/// The icosahedron as a mesh: vertex `k` is seed `k`, on level 0.
pub open spec fn base_mesh() -> MeshView {
    MeshView {
        vertices: Seq::new(12, |k: int| Vertex { origin: Origin::Seed(k as u8), level: 0 }),
        indices: base_indices(),
    }
}

/// The twelve corners of the icosahedron.
pub fn seed_positions() -> (r: Vec<Position>)
    ensures
        r@ == seeds(),
{
    let o = Golden { ones: 0, phis: 0 };
    let p = Golden { ones: 1, phis: 0 };
    let m = Golden { ones: -1, phis: 0 };
    let t = Golden { ones: 0, phis: 1 };
    let s = Golden { ones: 0, phis: -1 };
    let r: Vec<Position> = vec![
        Position::xyz(m, t, o),
        Position::xyz(p, t, o),
        Position::xyz(m, s, o),
        Position::xyz(p, s, o),
        Position::xyz(o, m, t),
        Position::xyz(o, p, t),
        Position::xyz(o, m, s),
        Position::xyz(o, p, s),
        Position::xyz(t, o, m),
        Position::xyz(t, o, p),
        Position::xyz(s, o, m),
        Position::xyz(s, o, p),
    ];
    assert(r@ =~= seeds());
    r
}

/// The icosahedron: twelve vertices and twenty faces.
pub fn base_solid() -> (r: MeshData)
    ensures
        r@ == base_mesh(),
        r@.wf(),
        r@.level_per_face(),
        r@.vertices.len() == 12,
        r@.indices.len() == 60,
        r@.face_count() == 20,
{
    let mut vertices: Vec<Vertex> = Vec::new();
    let mut k: u8 = 0;
    while k < 12
        invariant
            0 <= k <= 12,
            vertices@ == base_mesh().vertices.take(k as int),
        decreases 12 - k,
    {
        vertices.push(Vertex { origin: Origin::Seed(k), level: 0 });
        assert(vertices@ =~= base_mesh().vertices.take(k + 1));
        k = k + 1;
    }
    assert(vertices@ =~= base_mesh().vertices);
    let indices: Vec<u16> = vec![
        0, 11, 5, 0, 5, 1, 0, 1, 7, 0, 7, 10, 0, 10, 11,
        1, 5, 9, 5, 11, 4, 11, 10, 2, 10, 7, 6, 7, 1, 8,
        3, 9, 4, 3, 4, 2, 3, 2, 6, 3, 6, 8, 3, 8, 9,
        4, 9, 5, 2, 4, 11, 6, 2, 10, 8, 6, 7, 9, 8, 1,
    ];
    assert(indices@ =~= base_indices());
    proof {
        lemma_base_mesh_wf();
    }
    MeshData { vertices, indices }
}

/// Every index of the icosahedron names one of the twelve seeds.
pub proof fn lemma_base_mesh_wf()
    ensures
        base_mesh().wf(),
        base_mesh().level_per_face(),
        forall|coarse: MeshView| #[trigger] base_mesh().built_on(coarse),
        base_mesh().vertices.len() == 12,
        base_mesh().indices.len() == 60,
        base_mesh().face_count() == 20,
{
}

/// For each edge of the icosahedron, the edge that runs the other way.
/// Edges are numbered as the indices are: edge `e` leaves the corner that
/// index `e` names.
pub open spec fn base_twins() -> Seq<int> {
    seq![
        14, 18, 3, 2, 15, 6, 5, 27, 9, 8, 24, 12, 11, 21, 0,
        4, 46, 59, 1, 49, 47, 13, 52, 50, 10, 55, 53, 7, 58, 56,
        44, 45, 33, 32, 48, 36, 35, 51, 39, 38, 54, 42, 41, 57, 30,
        31, 16, 20, 34, 19, 23, 37, 22, 26, 40, 25, 29, 43, 28, 17,
    ]
}

/// The number of the edge of the icosahedron that runs from seed `from` to
/// seed `to`, or -1 where no face runs that way.
pub open spec fn base_edge_number(from: int, to: int) -> int {
    if from == 0 {
        if to == 11 {
            0
        } else if to == 5 {
            3
        } else if to == 1 {
            6
        } else if to == 7 {
            9
        } else if to == 10 {
            12
        } else {
            -1
        }
    } else if from == 1 {
        if to == 0 {
            5
        } else if to == 7 {
            7
        } else if to == 5 {
            15
        } else if to == 8 {
            28
        } else if to == 9 {
            59
        } else {
            -1
        }
    } else if from == 2 {
        if to == 11 {
            23
        } else if to == 3 {
            35
        } else if to == 6 {
            37
        } else if to == 4 {
            48
        } else if to == 10 {
            52
        } else {
            -1
        }
    } else if from == 3 {
        if to == 9 {
            30
        } else if to == 4 {
            33
        } else if to == 2 {
            36
        } else if to == 6 {
            39
        } else if to == 8 {
            42
        } else {
            -1
        }
    } else if from == 4 {
        if to == 5 {
            20
        } else if to == 3 {
            32
        } else if to == 2 {
            34
        } else if to == 9 {
            45
        } else if to == 11 {
            49
        } else {
            -1
        }
    } else if from == 5 {
        if to == 0 {
            2
        } else if to == 1 {
            4
        } else if to == 9 {
            16
        } else if to == 11 {
            18
        } else if to == 4 {
            47
        } else {
            -1
        }
    } else if from == 6 {
        if to == 10 {
            26
        } else if to == 3 {
            38
        } else if to == 8 {
            40
        } else if to == 2 {
            51
        } else if to == 7 {
            55
        } else {
            -1
        }
    } else if from == 7 {
        if to == 0 {
            8
        } else if to == 10 {
            10
        } else if to == 6 {
            25
        } else if to == 1 {
            27
        } else if to == 8 {
            56
        } else {
            -1
        }
    } else if from == 8 {
        if to == 7 {
            29
        } else if to == 3 {
            41
        } else if to == 9 {
            43
        } else if to == 6 {
            54
        } else if to == 1 {
            58
        } else {
            -1
        }
    } else if from == 9 {
        if to == 1 {
            17
        } else if to == 4 {
            31
        } else if to == 3 {
            44
        } else if to == 5 {
            46
        } else if to == 8 {
            57
        } else {
            -1
        }
    } else if from == 10 {
        if to == 0 {
            11
        } else if to == 11 {
            13
        } else if to == 2 {
            22
        } else if to == 7 {
            24
        } else if to == 6 {
            53
        } else {
            -1
        }
    } else if from == 11 {
        if to == 5 {
            1
        } else if to == 0 {
            14
        } else if to == 4 {
            19
        } else if to == 10 {
            21
        } else if to == 2 {
            50
        } else {
            -1
        }
    } else {
        -1
    }
}

/// The icosahedron is closed: every one of its thirty edges is shared by two
/// faces, which run along it in opposite directions.
pub proof fn lemma_base_mesh_closed()
    ensures
        base_mesh().closed(),
{
    let m = base_mesh();
    assert(m.indices.len() == 60);
    assert forall|e: int| 0 <= e < 60 implies base_edge_number(
        (#[trigger] m.edge(e)).0,
        m.edge(e).1,
    ) == e by {}
    assert forall|e: int| 0 <= e < 60 implies 0 <= base_twins()[e] < 60 && m.edge(base_twins()[e])
        == ((#[trigger] m.edge(e)).1, m.edge(e).0) by {}
    assert forall|d: int, e: int|
        0 <= d < m.indices.len() && 0 <= e < m.indices.len() && #[trigger] m.edge(d)
            == #[trigger] m.edge(e) implies d == e by {
        assert(base_edge_number(m.edge(d).0, m.edge(d).1) == d);
        assert(base_edge_number(m.edge(e).0, m.edge(e).1) == e);
    }
    assert forall|e: int| 0 <= e < m.indices.len() implies m.has_edge(
        (#[trigger] m.edge(e)).1,
        m.edge(e).0,
    ) by {
        let d = base_twins()[e];
        assert(0 <= d < 60 && m.edge(d) == (m.edge(e).1, m.edge(e).0));
    }
}

/// The twelve seeds are equally far from the origin: the square of the
/// distance is `2 + φ` for each. So none of them is the origin, and pushing
/// them onto the unit sphere divides by the same length everywhere.
pub proof fn lemma_seeds_equidistant(k: int)
    requires
        0 <= k < 12,
    ensures
        seeds().len() == 12,
        seeds()[k].norm_squared_ones() == 2,
        seeds()[k].norm_squared_phis() == 1,
{
    let p = seeds()[k];
    lemma_seed_coordinates(k);
    lemma_unit_square(p.x);
    lemma_unit_square(p.y);
    lemma_unit_square(p.z);
}

/// The square of 0 is 0, that of 1 and of -1 is 1, and that of φ and of -φ
/// is `1 + φ`.
pub proof fn lemma_unit_square(g: Golden)
    requires
        -1 <= g.ones <= 1,
        -1 <= g.phis <= 1,
        g.ones == 0 || g.phis == 0,
    ensures
        g.square_ones() == if g.ones == 0 && g.phis == 0 {
            0int
        } else {
            1int
        },
        g.square_phis() == if g.phis == 0 {
            0int
        } else {
            1int
        },
{
    let a = g.ones as int;
    let b = g.phis as int;
    assert(a * a + b * b == if a == 0 && b == 0 {
        0int
    } else {
        1int
    }) by (nonlinear_arith)
        requires
            -1 <= a <= 1,
            -1 <= b <= 1,
            a == 0 || b == 0,
    ;
    assert(2 * a * b + b * b == if b == 0 {
        0int
    } else {
        1int
    }) by (nonlinear_arith)
        requires
            -1 <= a <= 1,
            -1 <= b <= 1,
            a == 0 || b == 0,
    ;
}

/// Every seed has one coordinate 0, one coordinate 1 or -1, and one
/// coordinate φ or -φ.
pub proof fn lemma_seed_coordinates(k: int)
    requires
        0 <= k < 12,
    ensures
        seeds().len() == 12,
        ({
            let p = seeds()[k];
            let zero = Golden { ones: 0, phis: 0 };
            &&& p.x == zero || p.y == zero || p.z == zero
            &&& p.x.phis == 0 && p.y.phis == 0 ==> p.x.ones == 0 || p.y.ones == 0
            &&& p.x.phis == 0 && p.z.phis == 0 ==> p.x.ones == 0 || p.z.ones == 0
            &&& p.y.phis == 0 && p.z.phis == 0 ==> p.y.ones == 0 || p.z.ones == 0
            &&& -1 <= p.x.ones <= 1 && -1 <= p.y.ones <= 1 && -1 <= p.z.ones <= 1
            &&& -1 <= p.x.phis <= 1 && -1 <= p.y.phis <= 1 && -1 <= p.z.phis <= 1
            &&& p.x.ones == 0 || p.x.phis == 0
            &&& p.y.ones == 0 || p.y.phis == 0
            &&& p.z.ones == 0 || p.z.phis == 0
            &&& p.x.ones + p.y.ones + p.z.ones == 1 || p.x.ones + p.y.ones + p.z.ones == -1
            &&& p.x.phis + p.y.phis + p.z.phis == 1 || p.x.phis + p.y.phis + p.z.phis == -1
        }),
{
}

} // verus!
