//! Meshes: the size checks a mesh passes before it is built, and the
//! instance bookkeeping of mesh batches.

use vstd::prelude::*;
use vstd::string::StringExecFns;

use crate::decimal::{decimal, decimal_string};
use crate::error::{GameError, GameResult};

verus! {

/// An index of a particular instance in a `MeshBatch`.
#[derive(Copy, Clone, Debug, PartialEq, Eq, Structural, PartialOrd, Ord, Hash)]
pub struct MeshIdx(pub usize);

/// The indices written with `{:#?}` (`Debug`, pretty-printed).
pub uninterp spec fn pretty_debug_indices(indices: Seq<u16>) -> Seq<char>;

/// Formats `indices` with `{:#?}`, std's pretty-printed `Debug` of a slice.
/// Taken to depend on the indices alone; its layout is not stated.
#[verifier::external_body]
fn debug_indices(indices: &[u16]) -> (s: String)
    ensures
        s@ == pretty_debug_indices(indices@),
{
    format!("{:#?}", indices)
}

pub const TOO_FEW_VERTICES: &'static str = "Trying to build mesh with < 3 vertices, this is usually due to invalid input to a `Mesh` or MeshBuilder`.";

pub const TOO_FEW_INDICES: &'static str = "Trying to build mesh with < 3 indices, this is usually due to invalid input to a `Mesh` or MeshBuilder`.  Indices:\n ";

pub const INDICES_NOT_TRIANGLES: &'static str = "Trying to build mesh with an array of indices that is not a multiple of 3, this is usually due to invalid input to a `Mesh` or MeshBuilder`.";

/// Why a mesh of `n_verts` vertices and these indices cannot be built, in
/// the order the checks are made, or `None` if it can.
pub open spec fn mesh_size_error(n_verts: nat, indices: Seq<u16>) -> Option<Seq<char>> {
    if n_verts > u16::MAX {
        Some("Tried to build a mesh with "@ + decimal(n_verts) + " vertices, max is u16::MAX"@)
    } else if indices.len() > u16::MAX {
        Some("Tried to build a mesh with "@ + decimal(indices.len()) + " indices, max is u16::MAX"@)
    } else if n_verts < 3 {
        Some(TOO_FEW_VERTICES@)
    } else if indices.len() < 3 {
        Some(TOO_FEW_INDICES@ + pretty_debug_indices(indices))
    } else if indices.len() % 3 != 0 {
        Some(INDICES_NOT_TRIANGLES@)
    } else {
        None
    }
}

/// Whole triangles pass: a mesh of at least three and at most `u16::MAX`
/// vertices, with at least three and at most `u16::MAX` indices that come in
/// threes, can be built, whatever the number of vertices is beyond that; and a
/// number of indices that is no multiple of three never can.
pub proof fn law_whole_triangles_pass(n_verts: nat, indices: Seq<u16>)
    ensures
        3 <= n_verts <= u16::MAX && 3 <= indices.len() <= u16::MAX && indices.len() % 3 == 0
            ==> mesh_size_error(n_verts, indices) is None,
        indices.len() % 3 != 0 ==> mesh_size_error(n_verts, indices) is Some,
        mesh_size_error(n_verts, indices) is None ==> 3 <= n_verts <= u16::MAX && 3
            <= indices.len() <= u16::MAX && indices.len() % 3 == 0,
{
}

/// The sanity checks made before a mesh is built from `n_verts` vertices and
/// `indices`: at most `u16::MAX` of each, at least three of each, and whole
/// triangles of indices.
pub fn check_mesh_sizes(n_verts: usize, indices: &[u16]) -> (r: GameResult<()>)
    ensures
        match mesh_size_error(n_verts as nat, indices@) {
            Some(m) => r matches Err(GameError::LyonError(s)) && s@ == m,
            None => r is Ok,
        },
{
    if n_verts > 65535 {
        let mut msg = "Tried to build a mesh with ".to_owned();
        msg.append(decimal_string(n_verts).as_str());
        msg.append(" vertices, max is u16::MAX");
        return Err(GameError::LyonError(msg));
    }
    if indices.len() > 65535 {
        let mut msg = "Tried to build a mesh with ".to_owned();
        msg.append(decimal_string(indices.len()).as_str());
        msg.append(" indices, max is u16::MAX");
        return Err(GameError::LyonError(msg));
    }
    if n_verts < 3 {
        return Err(GameError::LyonError(TOO_FEW_VERTICES.to_owned()));
    }
    if indices.len() < 3 {
        let mut msg = TOO_FEW_INDICES.to_owned();
        msg.append(debug_indices(indices).as_str());
        return Err(GameError::LyonError(msg));
    }
    if indices.len() % 3 != 0 {
        return Err(GameError::LyonError(INDICES_NOT_TRIANGLES.to_owned()));
    }
    Ok(())
}

/// What a flush sends to the GPU: the instances `start..end` go to the same
/// positions of the GPU-side array, and nothing outside that range is
/// touched, after a new buffer of the batch's length was made if
/// `new_buffer`.
#[derive(Clone, Copy, Debug, PartialEq, Eq, Structural)]
pub struct FlushPlan {
    pub new_buffer: bool,
    pub start: usize,
    pub end: usize,
}

pub const INDEX_OUT_OF_BOUNDS: &'static str = "Index out of bounds";

pub const RANGE_OUT_OF_BOUNDS: &'static str = "Range out of bounds";

/// Whether the instances `first .. first + count` lie inside a batch of
/// `len` instances, the first of them being one.
pub open spec fn range_inside(first: nat, count: nat, len: nat) -> bool {
    first < len && first + count <= len
}

/// The instances of a mesh that is rendered with hardware instancing, with
/// the length of their copy on the GPU and whether that copy is stale.
pub struct MeshBatch<P> {
    instance_params: Vec<P>,
    gpu_len: usize,
    instance_buffer_dirty: bool,
}

impl<P: Copy> MeshBatch<P> {
    /// The instances, in order.
    pub closed spec fn instances(&self) -> Seq<P> {
        self.instance_params@
    }

    /// The length of the GPU-side instance array.
    pub closed spec fn gpu_len(&self) -> nat {
        self.gpu_len as nat
    }

    /// Whether the GPU copy has to be sent again before drawing.
    pub closed spec fn dirty(&self) -> bool {
        self.instance_buffer_dirty
    }

    /// A batch without instances, to be sent on first draw.
    pub fn new() -> (b: Self)
        ensures
            b.instances() == Seq::<P>::empty(),
            b.gpu_len() == 0,
            b.dirty(),
    {
        MeshBatch { instance_params: Vec::new(), gpu_len: 0, instance_buffer_dirty: true }
    }

    /// Removes all instances; the GPU memory stays allocated.
    pub fn clear(&mut self)
        ensures
            final(self).instances() == Seq::<P>::empty(),
            final(self).gpu_len() == old(self).gpu_len(),
            final(self).dirty(),
    {
        self.instance_params.clear();
        self.instance_buffer_dirty = true;
    }

    /// The instances.
    pub fn get_instance_params(&self) -> (p: &[P])
        ensures
            p@ == self.instances(),
    {
        self.instance_params.as_slice()
    }

    /// The number of instances.
    pub fn len(&self) -> (n: usize)
        ensures
            n == self.instances().len(),
    {
        self.instance_params.len()
    }

    /// Whether the GPU copy is stale.
    pub fn is_dirty(&self) -> (d: bool)
        ensures
            d == self.dirty(),
    {
        self.instance_buffer_dirty
    }

    /// Adds an instance at the end and returns its handle.
    pub fn add(&mut self, param: P) -> (idx: MeshIdx)
        ensures
            final(self).instances() == old(self).instances().push(param),
            idx.0 == old(self).instances().len(),
            final(self).gpu_len() == old(self).gpu_len(),
            final(self).dirty(),
    {
        self.instance_params.push(param);
        self.instance_buffer_dirty = true;
        MeshIdx(self.instance_params.len() - 1)
    }

    /// Replaces the instance `handle`; an error if there is no such instance.
    pub fn set(&mut self, handle: MeshIdx, param: P) -> (r: GameResult<()>)
        ensures
            final(self).gpu_len() == old(self).gpu_len(),
            handle.0 < old(self).instances().len() ==> {
                &&& r is Ok
                &&& final(self).instances() == old(self).instances().update(handle.0 as int, param)
                &&& final(self).dirty()
            },
            handle.0 >= old(self).instances().len() ==> {
                &&& r matches Err(GameError::RenderError(m)) && m@ == INDEX_OUT_OF_BOUNDS@
                &&& final(self).instances() == old(self).instances()
                &&& final(self).dirty() == old(self).dirty()
            },
    {
        if handle.0 < self.instance_params.len() {
            self.instance_params.set(handle.0, param);
            self.instance_buffer_dirty = true;
            Ok(())
        } else {
            Err(GameError::RenderError(INDEX_OUT_OF_BOUNDS.to_owned()))
        }
    }

    /// Replaces the instances from `first_handle` on with `params`; an error
    /// if they do not all lie inside the batch.
    pub fn set_range(&mut self, first_handle: MeshIdx, params: &[P]) -> (r: GameResult<()>)
        ensures
            final(self).gpu_len() == old(self).gpu_len(),
            range_inside(first_handle.0 as nat, params@.len(), old(self).instances().len()) ==> {
                &&& r is Ok
                &&& final(self).instances() == old(self).instances().take(first_handle.0 as int)
                    + params@ + old(self).instances().skip(first_handle.0 + params@.len())
                &&& final(self).dirty()
            },
            !range_inside(first_handle.0 as nat, params@.len(), old(self).instances().len()) ==> {
                &&& r matches Err(GameError::RenderError(m)) && m@ == RANGE_OUT_OF_BOUNDS@
                &&& final(self).instances() == old(self).instances()
                &&& final(self).dirty() == old(self).dirty()
            },
    {
        let first = first_handle.0;
        let n = params.len();
        let len = self.instance_params.len();
        if first < len && n <= len - first {
            let mut i: usize = 0;
            while i < n
                invariant
                    first + n <= len,
                    n == params@.len(),
                    i <= n,
                    self.instance_params@.len() == len,
                    len == old(self).instances().len(),
                    self.gpu_len == old(self).gpu_len,
                    forall|j: int| 0 <= j < len ==> #[trigger] self.instance_params@[j] == if first <= j
                        < first + i {
                        params@[j - first]
                    } else {
                        old(self).instances()[j]
                    },
                decreases n - i,
            {
                self.instance_params.set(first + i, params[i]);
                i = i + 1;
            }
            self.instance_buffer_dirty = true;
            assert(self.instance_params@ =~= old(self).instances().take(first as int) + params@
                + old(self).instances().skip(first + n));
            Ok(())
        } else {
            Err(GameError::RenderError(RANGE_OUT_OF_BOUNDS.to_owned()))
        }
    }

    /// Plans sending the instances `first_handle .. first_handle + count` to
    /// the GPU: a new buffer for all instances if the GPU array is too short
    /// for the range, and then the whole batch goes; otherwise just the range.
    /// An error if the range does not lie inside the batch.
    pub fn flush_range(&mut self, first_handle: MeshIdx, count: usize) -> (r: Result<
        FlushPlan,
        GameError,
    >)
        ensures
            final(self).instances() == old(self).instances(),
            range_inside(first_handle.0 as nat, count as nat, old(self).instances().len()) ==> {
                let new_buffer = old(self).gpu_len() < first_handle.0 + count;
                &&& r matches Ok(plan) && plan == (if new_buffer {
                    FlushPlan { new_buffer: true, start: 0, end: old(self).instances().len() as usize }
                } else {
                    FlushPlan {
                        new_buffer: false,
                        start: first_handle.0,
                        end: (first_handle.0 + count) as usize,
                    }
                })
                &&& final(self).gpu_len() == if new_buffer {
                    old(self).instances().len()
                } else {
                    old(self).gpu_len()
                }
                &&& !final(self).dirty()
            },
            !range_inside(first_handle.0 as nat, count as nat, old(self).instances().len()) ==> {
                &&& r matches Err(GameError::RenderError(m)) && m@ == RANGE_OUT_OF_BOUNDS@
                &&& final(self).gpu_len() == old(self).gpu_len()
                &&& final(self).dirty() == old(self).dirty()
            },
    {
        let first = first_handle.0;
        let len = self.instance_params.len();
        if first < len && count <= len - first {
            let end = first + count;
            let plan = if self.gpu_len < end {
                self.gpu_len = len;
                FlushPlan { new_buffer: true, start: 0, end: len }
            } else {
                FlushPlan { new_buffer: false, start: first, end }
            };
            self.instance_buffer_dirty = false;
            Ok(plan)
        } else {
            Err(GameError::RenderError(RANGE_OUT_OF_BOUNDS.to_owned()))
        }
    }

    /// Plans sending all instances to the GPU (an error on an empty batch,
    /// whose range has no first instance).
    pub fn flush(&mut self) -> (r: Result<FlushPlan, GameError>)
        ensures
            final(self).instances() == old(self).instances(),
            old(self).instances().len() > 0 ==> {
                let new_buffer = old(self).gpu_len() < old(self).instances().len();
                &&& r matches Ok(plan) && plan == FlushPlan {
                    new_buffer,
                    start: 0,
                    end: old(self).instances().len() as usize,
                }
                &&& final(self).gpu_len() == if new_buffer {
                    old(self).instances().len()
                } else {
                    old(self).gpu_len()
                }
                &&& !final(self).dirty()
            },
            old(self).instances().len() == 0 ==> {
                &&& r matches Err(GameError::RenderError(m)) && m@ == RANGE_OUT_OF_BOUNDS@
                &&& final(self).gpu_len() == old(self).gpu_len()
                &&& final(self).dirty() == old(self).dirty()
            },
    {
        let n = self.instance_params.len();
        self.flush_range(MeshIdx(0), n)
    }

    /// Prepares a draw of the batch: nothing is drawn for an empty batch
    /// (`None`); otherwise the batch is drawn, after the flush planned here
    /// if it changed since the last one (`Some(Some(plan))`), or as it is on
    /// the GPU (`Some(None)`).
    pub fn prepare_draw(&mut self) -> (r: Option<Option<FlushPlan>>)
        ensures
            old(self).instances().len() == 0 ==> r is None && *final(self) == *old(self),
            old(self).instances().len() > 0 && !old(self).dirty() ==> r == Some(None::<FlushPlan>)
                && *final(self) == *old(self),
            old(self).instances().len() > 0 && old(self).dirty() ==> {
                let new_buffer = old(self).gpu_len() < old(self).instances().len();
                &&& r == Some(
                    Some(
                        FlushPlan {
                            new_buffer,
                            start: 0,
                            end: old(self).instances().len() as usize,
                        },
                    ),
                )
                &&& final(self).instances() == old(self).instances()
                &&& final(self).gpu_len() == if new_buffer {
                    old(self).instances().len()
                } else {
                    old(self).gpu_len()
                }
                &&& !final(self).dirty()
            },
    {
        if self.instance_params.len() == 0 {
            return None;
        }
        if !self.instance_buffer_dirty {
            return Some(None);
        }
        match self.flush() {
            Ok(plan) => Some(Some(plan)),
            Err(_) => None,
        }
    }
}

} // verus!
