//! Image data: the pixels of a solid-colored image, and the dirty flag that
//! images keep for a filter change that has not reached the GPU yet.

use std::sync::atomic::{AtomicBool, Ordering};
use vstd::prelude::*;

verus! {

/// A flag that can be set and read through a shared reference.
#[derive(Debug)]
pub struct DirtyFlag(AtomicBool);

impl DirtyFlag {
    pub fn new(value: bool) -> Self {
        Self(AtomicBool::new(value))
    }

    pub fn load(&self) -> bool {
        self.0.load(Ordering::Acquire)
    }

    pub fn store(&self, value: bool) {
        self.0.store(value, Ordering::Release)
    }
}

impl Clone for DirtyFlag {
    fn clone(&self) -> Self {
        DirtyFlag(AtomicBool::new(self.0.load(Ordering::Acquire)))
    }
}

/// The RGBA bytes of a square image of `size` by `size` pixels that all have
/// the color `pixel`, row by row.
pub fn solid_pixels(size: u16, pixel: [u8; 4]) -> (bytes: Vec<u8>)
    requires
        (size as nat) * (size as nat) * 4 <= usize::MAX,
    ensures
        bytes@.len() == (size as nat) * (size as nat) * 4,
        forall|i: int| 0 <= i < bytes@.len() ==> #[trigger] bytes@[i] == pixel[i % 4],
{
    let n: usize = (size as usize) * (size as usize);
    let mut bytes: Vec<u8> = Vec::new();
    let mut k: usize = 0;
    while k < n
        invariant
            n == (size as nat) * (size as nat),
            n * 4 <= usize::MAX,
            k <= n,
            bytes@.len() == k * 4,
            forall|i: int| 0 <= i < bytes@.len() ==> #[trigger] bytes@[i] == pixel[i % 4],
        decreases n - k,
    {
        let mut c: usize = 0;
        while c < 4
            invariant
                k < n,
                n * 4 <= usize::MAX,
                c <= 4,
                bytes@.len() == k * 4 + c,
                forall|i: int| 0 <= i < bytes@.len() ==> #[trigger] bytes@[i] == pixel[i % 4],
            decreases 4 - c,
        {
            proof {
                assert((k * 4 + c) % 4 == c as int) by (nonlinear_arith)
                    requires c < 4;
            }
            bytes.push(pixel[c]);
            c = c + 1;
        }
        k = k + 1;
    }
    bytes
}

} // verus!
