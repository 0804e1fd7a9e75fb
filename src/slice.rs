//! Views of a buffer as a prefix and a remainder, or as equal records.
use vstd::prelude::*;

verus! {

/// The window of `width` elements that starts at `i * width`: the `i`-th
/// record of a section cut into records of that width.
pub open spec fn window<T>(s: Seq<T>, width: nat, i: int) -> Seq<T> {
    s.subrange(i * width, i * width + width)
}

/// Splits `bytes` into its first `n` elements and the rest, or gives `None`
/// where it is shorter than `n`.
pub fn split<T>(bytes: &[T], n: usize) -> (r: Option<(&[T], &[T])>)
    ensures
        r is Some <==> n <= bytes@.len(),
        r matches Some((head, tail)) ==> head@ == bytes@.take(n as int) && tail@ == bytes@.skip(
            n as int,
        ),
{
    if n <= bytes.len() {
        Some((&bytes[0..n], &bytes[n..bytes.len()]))
    } else {
        None
    }
}

/// Splits `bytes` into two disjoint mutable parts, its first `n` elements
/// and the rest, or gives `None` where it is shorter than `n`. What is
/// written through the parts is what `bytes` holds afterwards.
pub fn split_mut<T>(bytes: &mut [T], n: usize) -> (r: Option<(&mut [T], &mut [T])>)
    ensures
        r is Some <==> n <= old(bytes)@.len(),
        r is None ==> final(bytes)@ == old(bytes)@,
        r matches Some((head, tail)) ==> {
            &&& head@ == old(bytes)@.take(n as int)
            &&& tail@ == old(bytes)@.skip(n as int)
            &&& final(bytes)@ == final(head)@ + final(tail)@
        },
{
    if n <= bytes.len() {
        Some(bytes.split_at_mut(n))
    } else {
        None
    }
}

/// Cuts `bytes` into `count` consecutive records of `width` elements each,
/// or gives `None` where its length is not exactly `width * count`.
pub fn as_chunks<T>(bytes: &[T], width: usize, count: usize) -> (r: Option<Vec<&[T]>>)
    ensures
        r is Some <==> bytes@.len() == width * count,
        r matches Some(chunks) ==> chunks@.len() == count && forall|i: int|
            0 <= i < count ==> (#[trigger] chunks@[i])@ == window(bytes@, width as nat, i),
{
    let len = bytes.len();
    if width == 0 {
        if len != 0 {
            return None;
        }
    } else if len % width != 0 || len / width != count {
        proof {
            if len == width * count {
                assert(len % width == 0 && len / width == count) by (nonlinear_arith)
                    requires
                        len == width * count,
                        width > 0,
                ;
            }
        }
        return None;
    }
    proof {
        if width > 0 {
            assert(len == width * count) by (nonlinear_arith)
                requires
                    len % width == 0,
                    len / width == count,
                    width > 0,
            ;
        }
    }
    let mut chunks: Vec<&[T]> = Vec::new();
    let mut i: usize = 0;
    while i < count
        invariant
            i <= count,
            len == bytes@.len(),
            len == width * count,
            chunks@.len() == i,
            forall|j: int| 0 <= j < i ==> (#[trigger] chunks@[j])@ == window(bytes@, width as nat, j),
        decreases count - i,
    {
        proof {
            assert(i * width + width <= width * count) by (nonlinear_arith)
                requires
                    i < count,
            ;
        }
        let start = i * width;
        chunks.push(&bytes[start..start + width]);
        i = i + 1;
    }
    Some(chunks)
}

} // verus!
