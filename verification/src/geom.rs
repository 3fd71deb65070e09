//! Geometry record types: corner positions, texture coordinates, and the
//! `Block` record that one fixed-width region of a BD1 buffer decodes to.

use vstd::prelude::*;

verus! {

/// One corner position of a block. Each field holds the little-endian
/// IEEE-754 bit pattern of one 32-bit component, kept as raw bits so
/// that decoding is bit-for-bit faithful to the file.
#[derive(Clone, Copy, Debug, PartialEq, Eq, Structural)]
pub struct Vector3 {
    pub x_bits: u32,
    pub y_bits: u32,
    pub z_bits: u32,
}

impl Vector3 {
    pub fn new(x_bits: u32, y_bits: u32, z_bits: u32) -> (v: Vector3)
        ensures
            v == (Vector3 { x_bits, y_bits, z_bits }),
    {
        Vector3 { x_bits, y_bits, z_bits }
    }
}

/// A texture coordinate pair for one face corner, as raw 32-bit
/// patterns of the two components.
#[derive(Clone, Copy, Debug, PartialEq, Eq, Structural)]
pub struct UV {
    pub u_bits: u32,
    pub v_bits: u32,
}

impl UV {
    pub fn new(u_bits: u32, v_bits: u32) -> (uv: UV)
        ensures
            uv == (UV { u_bits, v_bits }),
    {
        UV { u_bits, v_bits }
    }
}

/// One block record: eight corner positions, one texture coordinate
/// pair per face corner (six faces of four corners), one texture table
/// index per face, and an enabled flag. The arities are fixed by the
/// format; [`Block::wf`] states them.
#[derive(Debug)]
pub struct Block {
    pub vertex_positions: Vec<Vector3>,
    pub uvs: Vec<UV>,
    pub texture_ids: Vec<i32>,
    pub enabled: bool,
}

/// The mathematical value of a [`Block`]: its field vectors as sequences.
#[verifier::ext_equal]
pub struct BlockView {
    pub vertex_positions: Seq<Vector3>,
    pub uvs: Seq<UV>,
    pub texture_ids: Seq<i32>,
    pub enabled: bool,
}

impl View for Block {
    type V = BlockView;

    open spec fn view(&self) -> BlockView {
        BlockView {
            vertex_positions: self.vertex_positions@,
            uvs: self.uvs@,
            texture_ids: self.texture_ids@,
            enabled: self.enabled,
        }
    }
}

impl Block {
    /// The fixed arities of a block record: 8 corners, 24 texture
    /// coordinate pairs, 6 face texture indices.
    pub open spec fn wf(self) -> bool {
        &&& self.vertex_positions@.len() == 8
        &&& self.uvs@.len() == 24
        &&& self.texture_ids@.len() == 6
    }

    /// The empty template a decoder fills: all positions and texture
    /// coordinates zero, all texture indices zero, and enabled.
    pub fn new() -> (b: Block)
        ensures
            b.wf(),
            forall|i: int|
                0 <= i < 8 ==> b@.vertex_positions[i] == (Vector3 {
                    x_bits: 0,
                    y_bits: 0,
                    z_bits: 0,
                }),
            forall|i: int| 0 <= i < 24 ==> b@.uvs[i] == (UV { u_bits: 0, v_bits: 0 }),
            forall|i: int| 0 <= i < 6 ==> b@.texture_ids[i] == 0,
            b@.enabled,
    {
        let mut vertex_positions: Vec<Vector3> = Vec::new();
        for _k in 0..8
            invariant
                vertex_positions@.len() == _k,
                forall|i: int|
                    0 <= i < _k ==> vertex_positions@[i] == (Vector3 {
                        x_bits: 0,
                        y_bits: 0,
                        z_bits: 0,
                    }),
        {
            vertex_positions.push(Vector3 { x_bits: 0, y_bits: 0, z_bits: 0 });
        }

        let mut uvs: Vec<UV> = Vec::new();
        for _k in 0..24
            invariant
                uvs@.len() == _k,
                forall|i: int| 0 <= i < _k ==> uvs@[i] == (UV { u_bits: 0, v_bits: 0 }),
        {
            uvs.push(UV { u_bits: 0, v_bits: 0 });
        }

        let mut texture_ids: Vec<i32> = Vec::new();
        for _k in 0..6
            invariant
                texture_ids@.len() == _k,
                forall|i: int| 0 <= i < _k ==> texture_ids@[i] == 0,
        {
            texture_ids.push(0);
        }

        Block { vertex_positions, uvs, texture_ids, enabled: true }
    }
}

impl Clone for Block {
    /// A deep copy: the clone's value equals the original's, and the
    /// two share no storage, so mutating one never touches the other.
    fn clone(&self) -> (r: Block)
        ensures
            r@ == self@,
    {
        let mut vertex_positions: Vec<Vector3> = Vec::new();
        let mut k: usize = 0;
        while k < self.vertex_positions.len()
            invariant
                k <= self.vertex_positions@.len(),
                vertex_positions@ =~= self.vertex_positions@.take(k as int),
            decreases self.vertex_positions@.len() - k,
        {
            vertex_positions.push(self.vertex_positions[k]);
            k += 1;
        }

        let mut uvs: Vec<UV> = Vec::new();
        let mut k: usize = 0;
        while k < self.uvs.len()
            invariant
                k <= self.uvs@.len(),
                uvs@ =~= self.uvs@.take(k as int),
            decreases self.uvs@.len() - k,
        {
            uvs.push(self.uvs[k]);
            k += 1;
        }

        let mut texture_ids: Vec<i32> = Vec::new();
        let mut k: usize = 0;
        while k < self.texture_ids.len()
            invariant
                k <= self.texture_ids@.len(),
                texture_ids@ =~= self.texture_ids@.take(k as int),
            decreases self.texture_ids@.len() - k,
        {
            texture_ids.push(self.texture_ids[k]);
            k += 1;
        }

        let r = Block { vertex_positions, uvs, texture_ids, enabled: self.enabled };
        assert(r@ =~= self@);
        r
    }
}

} // verus!
