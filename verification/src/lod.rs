//! Building the mesh level by level: near the viewer the faces are split
//! further than far from it.

use crate::mesh::{MeshData, MeshError, MeshView, MAX_VERTICES};
use crate::refine::{
    lemma_refined_all_split, lemma_refined_built_on, lemma_refined_counts,
    lemma_refined_level_per_face, lemma_refined_levels, lemma_refined_wf, refine, split_count,
    split_flag, split_flags,
};
use crate::solid::{base_mesh, base_solid, lemma_base_mesh_wf};
use vstd::arithmetic::power::{lemma_pow_positive, lemma_pow_strictly_increases, pow};
use vstd::prelude::*;

verus! {

/// Whether every face is split at `level`, however far it is from the
/// viewer. Level 0 has no distance limit, and the levels below
/// `initial_subs` are the depth that every face must reach.
pub open spec fn is_forced(level: int, initial_subs: int) -> bool {
    level == 0 || level < initial_subs
}

/// Whether a face is split at `level`. `near` says whether the face is
/// nearer to the viewer than the distance limit of the level.
pub open spec fn takes_pass(level: int, initial_subs: int, near: bool) -> bool {
    is_forced(level, initial_subs) || near
}

/// Whether every face is split at `level`.
pub fn forced_level(level: i32, initial_subs: i32) -> (b: bool)
    ensures
        b == is_forced(level as int, initial_subs as int),
{
    level == 0 || level < initial_subs
}

/// Whether a face is split at `level`, given whether it is nearer to the
/// viewer than the distance limit of the level.
pub fn should_subdivide(level: i32, initial_subs: i32, near: bool) -> (b: bool)
    ensures
        b == takes_pass(level as int, initial_subs as int, near),
{
    forced_level(level, initial_subs) || near
}

/// The distance limit of a level is `120 / level^(level / 3.5)`. Its seventh
/// power is `120^7` divided by this number, `level^(2 * level)`.
pub open spec fn limit_divisor(level: nat) -> int {
    pow(level as int, 2 * level)
}

/// A power rises with its base.
pub proof fn lemma_pow_rises_with_base(a: int, b: int, e: nat)
    requires
        0 <= a <= b,
    ensures
        0 <= pow(a, e) <= pow(b, e),
    decreases e,
{
    reveal(pow);
    if e > 0 {
        lemma_pow_rises_with_base(a, b, (e - 1) as nat);
        let x = pow(a, (e - 1) as nat);
        let y = pow(b, (e - 1) as nat);
        assert(0 <= a * x <= b * y) by (nonlinear_arith)
            requires
                0 <= a <= b,
                0 <= x <= y,
        ;
    }
}

/// From level 1 on the divisor rises strictly with the level. In exact
/// arithmetic the distance limits therefore fall strictly.
pub proof fn lemma_limits_fall(a: nat, b: nat)
    requires
        1 <= a < b,
    ensures
        0 < limit_divisor(a) < limit_divisor(b),
{
    lemma_pow_positive(a as int, 2 * a);
    lemma_pow_rises_with_base(a as int, b as int, 2 * a);
    lemma_pow_strictly_increases(b, 2 * a, 2 * b);
}

/// A mesh under construction: the icosahedron after some levels of
/// refinement.
#[derive(Debug)]
pub struct IcoMesh {
    initial_subs: i32,
    max_subs: i32,
    level: i32,
    mesh: MeshData,
}

/// The mathematical content of an [`IcoMesh`].
pub struct IcoMeshView {
    /// The number of levels at which every face is split.
    pub initial_subs: int,
    /// The number of levels to run.
    pub max_subs: int,
    /// The number of levels run so far.
    pub level: int,
    /// The mesh after those levels.
    pub mesh: MeshView,
}

impl IcoMeshView {
    /// Whether all levels have been run.
    pub open spec fn finished(self) -> bool {
        self.level >= self.max_subs
    }

    /// The mesh that the next level makes, given for each face whether it is
    /// near the viewer. Children of a split face are one level above it.
    pub open spec fn next_mesh(self, near: Seq<bool>) -> MeshView {
        self.mesh.refinement(is_forced(self.level, self.initial_subs), near, true)
    }

    /// How many faces the next level splits.
    pub open spec fn next_splits(self, near: Seq<bool>) -> nat {
        split_count(
            split_flags(is_forced(self.level, self.initial_subs), near, self.mesh.face_count()),
            self.mesh.face_count(),
        )
    }

    /// Whether the next level would make more vertices than can be
    /// addressed: it stores three for every face, and thirteen more for every
    /// face that it splits.
    pub open spec fn overflows(self, near: Seq<bool>) -> bool {
        !self.finished() && 3 * self.mesh.face_count() + 13 * self.next_splits(near)
            > MAX_VERTICES
    }

    /// The construction after one more level. Nothing changes when all levels
    /// have been run, or when the level cannot be run.
    pub open spec fn advanced(self, near: Seq<bool>) -> IcoMeshView {
        if self.finished() || self.overflows(near) {
            self
        } else {
            IcoMeshView {
                initial_subs: self.initial_subs,
                max_subs: self.max_subs,
                level: self.level + 1,
                mesh: self.next_mesh(near),
            }
        }
    }
}

impl IcoMeshView {
    /// The construction before any level has been run.
    pub open spec fn start(initial_subs: int, max_subs: int) -> IcoMeshView {
        IcoMeshView { initial_subs, max_subs, level: 0, mesh: base_mesh() }
    }

    /// The construction after one level more for each entry of `flags`, the
    /// entries taken in order.
    pub open spec fn run(self, flags: Seq<Seq<bool>>) -> IcoMeshView
        decreases flags.len(),
    {
        if flags.len() == 0 {
            self
        } else {
            self.run(flags.drop_last()).advanced(flags.last())
        }
    }
}

/// At every level each face is split exactly when the rule of the levels
/// says so of the face's flag, a missing flag read as far.
pub proof fn lemma_level_follows_rule(s: IcoMeshView, near: Seq<bool>, f: int)
    requires
        0 <= f < s.mesh.face_count(),
    ensures
        split_flags(is_forced(s.level, s.initial_subs), near, s.mesh.face_count())[f] == takes_pass(
            s.level,
            s.initial_subs,
            f < near.len() && near[f],
        ),
{
}

/// A level reads of the flags only those of the faces that the mesh has: two
/// lists of flags that say the same of every face lead to the same mesh, or
/// to the same failure.
pub proof fn lemma_level_reads_face_flags(s: IcoMeshView, a: Seq<bool>, b: Seq<bool>)
    requires
        forall|f: int|
            0 <= f < s.mesh.face_count() ==> split_flag(false, a, f) == split_flag(false, b, f),
    ensures
        s.next_mesh(a) == s.next_mesh(b),
        s.overflows(a) == s.overflows(b),
        s.advanced(a) == s.advanced(b),
{
    let force = is_forced(s.level, s.initial_subs);
    assert(split_flags(force, a, s.mesh.face_count()) =~= split_flags(
        force,
        b,
        s.mesh.face_count(),
    ));
}

/// Building twice from the same start with the same flags gives the same
/// mesh, vertex for vertex and index for index.
pub proof fn lemma_run_deterministic(
    s: IcoMeshView,
    t: IcoMeshView,
    a: Seq<Seq<bool>>,
    b: Seq<Seq<bool>>,
)
    requires
        s == t,
        a.len() == b.len(),
        forall|k: int| 0 <= k < a.len() ==> a[k] =~= b[k],
    ensures
        s.run(a) == t.run(b),
        s.run(a).mesh.vertices == t.run(b).mesh.vertices,
        s.run(a).mesh.indices == t.run(b).mesh.indices,
    decreases a.len(),
{
    if a.len() > 0 {
        lemma_run_deterministic(s, t, a.drop_last(), b.drop_last());
        assert(a.last() =~= b.last());
    }
}

/// At a level at which every face is split the flags count for nothing, and
/// the mesh grows to four faces and sixteen vertices for every face it had.
pub proof fn lemma_forced_level(s: IcoMeshView, near: Seq<bool>)
    requires
        is_forced(s.level, s.initial_subs),
    ensures
        s.next_mesh(near) == s.next_mesh(Seq::empty()),
        s.next_splits(near) == s.mesh.face_count(),
        s.next_mesh(near).face_count() == 4 * s.mesh.face_count(),
        s.next_mesh(near).vertices.len() == 16 * s.mesh.face_count(),
{
    let n = s.mesh.face_count();
    assert(split_flags(true, near, n) =~= split_flags(true, Seq::empty(), n));
    lemma_refined_all_split(s.mesh, split_flags(true, near, n), true, n);
}

/// While every level is one at which every face is split, each level has
/// four times the faces of the one before: after `k` of them, up to four,
/// the icosahedron has become `20 * 4^k` faces, stored as `80 * 4^k`
/// vertices.
pub proof fn lemma_forced_run(initial_subs: int, max_subs: int, flags: Seq<Seq<bool>>)
    requires
        flags.len() <= 4,
        flags.len() <= max_subs,
        flags.len() <= 1 || flags.len() <= initial_subs,
    ensures
        IcoMeshView::start(initial_subs, max_subs).run(flags).initial_subs == initial_subs,
        IcoMeshView::start(initial_subs, max_subs).run(flags).max_subs == max_subs,
        IcoMeshView::start(initial_subs, max_subs).run(flags).level == flags.len(),
        IcoMeshView::start(initial_subs, max_subs).run(flags).mesh.face_count() == 20 * pow(
            4,
            flags.len(),
        ),
        IcoMeshView::start(initial_subs, max_subs).run(flags).mesh.vertices.len() == if flags.len()
            == 0 {
            12
        } else {
            80 * pow(4, flags.len())
        },
    decreases flags.len(),
{
    reveal_with_fuel(pow, 5);
    lemma_base_mesh_wf();
    if flags.len() > 0 {
        lemma_forced_run(initial_subs, max_subs, flags.drop_last());
        let before = IcoMeshView::start(initial_subs, max_subs).run(flags.drop_last());
        lemma_forced_level(before, flags.last());
    }
}

/// A fifth level that splits every face cannot be run: four levels at which
/// every face is split leave 5120 faces, and to split them all takes more
/// vertices than can be addressed. It fails whether the fifth level is one at
/// which every face is split, or every face is near the viewer.
pub proof fn lemma_fifth_level_overflows(
    initial_subs: int,
    max_subs: int,
    flags: Seq<Seq<bool>>,
    near: Seq<bool>,
)
    requires
        flags.len() == 4,
        4 <= initial_subs,
        5 <= max_subs,
        5 <= initial_subs || forall|f: int| 0 <= f < 5120 ==> split_flag(false, near, f),
    ensures
        IcoMeshView::start(initial_subs, max_subs).run(flags).overflows(near),
        IcoMeshView::start(initial_subs, max_subs).run(flags).advanced(near) == IcoMeshView::start(
            initial_subs,
            max_subs,
        ).run(flags),
{
    reveal_with_fuel(pow, 5);
    lemma_forced_run(initial_subs, max_subs, flags);
    let before = IcoMeshView::start(initial_subs, max_subs).run(flags);
    let n = before.mesh.face_count();
    let splits = split_flags(is_forced(before.level, initial_subs), near, n);
    assert(n == 5120);
    lemma_refined_all_split(before.mesh, splits, true, n);
}

/// A level never lets an index wrap: whatever it makes is well formed, has
/// the three corners of every face on one level, and has no vertex above the
/// number of levels run.
pub proof fn lemma_advanced_wf(s: IcoMeshView, near: Seq<bool>)
    requires
        s.mesh.wf(),
        s.mesh.level_per_face(),
        0 <= s.level < i32::MAX,
        forall|i: int|
            0 <= i < s.mesh.vertices.len() ==> 0 <= (#[trigger] s.mesh.vertices[i]).level
                <= s.level,
    ensures
        s.advanced(near).mesh.wf(),
        s.advanced(near).mesh.level_per_face(),
        s.advanced(near) != s ==> s.advanced(near).mesh.built_on(s.mesh),
        s.level <= s.advanced(near).level <= s.level + 1,
        forall|i: int|
            0 <= i < s.advanced(near).mesh.vertices.len() ==> 0 <= (
            #[trigger] s.advanced(near).mesh.vertices[i]).level <= s.advanced(near).level,
{
    if !s.finished() && !s.overflows(near) {
        let n = s.mesh.face_count();
        let splits = split_flags(is_forced(s.level, s.initial_subs), near, n);
        lemma_refined_counts(s.mesh, splits, true, n);
        lemma_refined_wf(s.mesh, splits, true, n);
        lemma_refined_built_on(s.mesh, splits, true, n);
        lemma_refined_level_per_face(s.mesh, splits, true, n);
        lemma_refined_levels(s.mesh, splits, true, n, 0, s.level);
    }
}

impl View for IcoMesh {
    type V = IcoMeshView;

    closed spec fn view(&self) -> IcoMeshView {
        IcoMeshView {
            initial_subs: self.initial_subs as int,
            max_subs: self.max_subs as int,
            level: self.level as int,
            mesh: self.mesh@,
        }
    }
}

impl IcoMesh {
    #[verifier::type_invariant]
    spec fn inv(self) -> bool {
        &&& 0 <= self.level
        &&& self.mesh@.wf()
        &&& self.mesh@.level_per_face()
        &&& forall|i: int|
            0 <= i < self.mesh@.vertices.len() ==> 0 <= (#[trigger] self.mesh@.vertices[i]).level
                <= self.level
    }

    /// Starts from the icosahedron, with `max_subs` levels to run, at the
    /// first `initial_subs` of which every face is split.
    pub fn new(initial_subs: i32, max_subs: i32) -> (r: IcoMesh)
        ensures
            r@ == IcoMeshView::start(initial_subs as int, max_subs as int),
    {
        IcoMesh { initial_subs, max_subs, level: 0, mesh: base_solid() }
    }

    /// The number of levels at which every face is split.
    pub fn initial_subs(&self) -> (n: i32)
        ensures
            n == self@.initial_subs,
    {
        self.initial_subs
    }

    /// The number of levels to run.
    pub fn max_subs(&self) -> (n: i32)
        ensures
            n == self@.max_subs,
    {
        self.max_subs
    }

    /// The number of levels run so far. It is also the number of the level
    /// that comes next.
    pub fn level(&self) -> (l: i32)
        ensures
            l == self@.level,
            l >= 0,
    {
        proof {
            use_type_invariant(self);
        }
        self.level
    }

    /// Whether all levels have been run.
    pub fn finished(&self) -> (b: bool)
        ensures
            b == self@.finished(),
    {
        self.level >= self.max_subs
    }

    /// The mesh after the levels run so far.
    pub fn mesh(&self) -> (m: &MeshData)
        ensures
            m@ == self@.mesh,
            m@.wf(),
            m@.level_per_face(),
            forall|i: int|
                0 <= i < m@.vertices.len() ==> 0 <= (#[trigger] m@.vertices[i]).level
                    <= self@.level,
    {
        proof {
            use_type_invariant(self);
        }
        &self.mesh
    }

    /// Gives up the construction for its mesh.
    pub fn into_mesh(self) -> (m: MeshData)
        ensures
            m@ == self@.mesh,
            m@.wf(),
            m@.level_per_face(),
            forall|i: int|
                0 <= i < m@.vertices.len() ==> 0 <= (#[trigger] m@.vertices[i]).level
                    <= self@.level,
    {
        proof {
            use_type_invariant(&self);
        }
        self.mesh
    }

    /// Runs the next level. `near` says of each face of the mesh whether it
    /// is nearer to the viewer than the distance limit of this level; a face
    /// without a flag counts as far. A face is split if it is near, or if the
    /// level is one at which every face is split. The result is an error
    /// exactly when the level would make more vertices than can be
    /// addressed; the construction is then left as it was.
    pub fn advance(&mut self, near: &Vec<bool>) -> (r: Result<(), MeshError>)
        ensures
            r.is_err() == old(self)@.overflows(near@),
            r.is_err() ==> r == Err::<(), MeshError>(MeshError::IndexOverflow),
            final(self)@ == old(self)@.advanced(near@),
            final(self)@ != old(self)@ ==> final(self)@.mesh.built_on(old(self)@.mesh),
    {
        proof {
            use_type_invariant(&*self);
        }
        if self.level >= self.max_subs {
            return Ok(());
        }
        let force = forced_level(self.level, self.initial_subs);
        let finer = refine(&self.mesh, force, near, true)?;
        proof {
            lemma_advanced_wf(old(self)@, near@);
        }
        self.level = self.level + 1;
        self.mesh = finer;
        Ok(())
    }
}

} // verus!
